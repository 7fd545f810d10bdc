//! The regex-substitution transformer: the one transformer whose whole
//! logic is the library's own.
//!
//! A substitution owns a tag prefix and a tail pattern.  Together they
//! form the full pattern `tag(?<text>tail)`: the named group captures
//! the tail, so a replacement template may refer to it as `$text`, and
//! to any group the tail itself names.  Applying the substitution
//! rewrites a link's destination by regex replacement, synthesises a
//! visible label where the link has none, and defaults an empty title to
//! the final destination.

use vstd::prelude::*;
use vstd::string::StringExecFns;

use crate::event::{Event, SpecEvent, LinkType};
use crate::link::{Link, SpecLink};
use crate::regex_ops::{
    regex_valid, regex_match, regex_replacen, regex_first_match, regex_group_match, re_valid,
    re_is_match, re_replacen, re_captures,
};
use crate::text_util::{has_prefix, strip_prefix_string};

verus! {

/// A configuration whose tail pattern does not compile; reported when
/// the transformer set is loaded, before any document is processed.
#[derive(Debug)]
pub enum ConfigError {
    /// The full pattern built from the tag and the tail is not a valid
    /// regular expression; the string is that pattern.
    InvalidPattern(String),
}

/// Spec-level value of a [`Substitution`].
pub struct SpecSubstitution {
    pub tag: Seq<char>,
    pub tail: Seq<char>,
    pub replacement: Seq<char>,
    pub limit: usize,
    pub code: bool,
    pub tail_only: bool,
    pub replace_text: bool,
}

/// The full pattern a substitution matches against a destination: the
/// tag, then the tail wrapped in a group named `text`.
pub open spec fn spec_full_pattern(tag: Seq<char>, tail: Seq<char>) -> Seq<char> {
    tag + "(?<text>"@ + tail + ")"@
}

/// A config-driven transformer: regex replacement on the destination.
#[derive(Debug)]
pub struct Substitution {
    /// Pattern matched after the tag; its captures are usable in the
    /// replacement template.
    pub tail: String,
    /// Prefix identifying which links this substitution claims.
    pub tag: String,
    /// Replacement template for the destination; `$text` is the tail.
    pub replacement: String,
    /// How many non-overlapping matches to replace; zero means all.
    pub limit: usize,
    /// Render the synthesised label as a code span instead of plain text.
    pub code: bool,
    /// Use only the captured tail, tag stripped, as the label.
    pub tail_only: bool,
    /// Replace the label even when the link already has one.
    pub replace_text: bool,
}

impl View for Substitution {
    type V = SpecSubstitution;

    open spec fn view(&self) -> SpecSubstitution {
        SpecSubstitution {
            tag: self.tag@,
            tail: self.tail@,
            replacement: self.replacement@,
            limit: self.limit,
            code: self.code,
            tail_only: self.tail_only,
            replace_text: self.replace_text,
        }
    }
}

impl DeepView for Substitution {
    type V = SpecSubstitution;

    open spec fn deep_view(&self) -> SpecSubstitution {
        self.view()
    }
}

impl Clone for Substitution {
    fn clone(&self) -> (r: Self)
        ensures
            r@ == self@,
    {
        Substitution {
            tail: self.tail.clone(),
            tag: self.tag.clone(),
            replacement: self.replacement.clone(),
            limit: self.limit,
            code: self.code,
            tail_only: self.tail_only,
            replace_text: self.replace_text,
        }
    }
}

impl SpecSubstitution {
    /// The full pattern of this substitution.
    pub open spec fn full_pattern(self) -> Seq<char> {
        spec_full_pattern(self.tag, self.tail)
    }
}

/// What applying a substitution does to a link.  A link of unknown
/// shortcut form, or one whose destination the full pattern does not
/// match, passes through unchanged.  Otherwise the destination is
/// rewritten by regex replacement; an empty label is synthesised from
/// the match (the whole match, or with `tail_only` just the captured
/// tail); and an empty title defaults to the new destination.
pub open spec fn spec_apply(s: SpecSubstitution, l: SpecLink) -> SpecLink {
    let full = s.full_pattern();
    if l.link_type == LinkType::ShortcutUnknown || !regex_valid(full) || !regex_match(
        full,
        l.destination,
    ) {
        l
    } else {
        let new_dest = regex_replacen(full, l.destination, s.limit as int, s.replacement);
        let label0 = if s.tail_only {
            match regex_group_match(full, l.destination, "text"@) {
                Some(c) => c,
                None => new_dest,
            }
        } else {
            regex_first_match(full, l.destination)
        };
        let label = if s.tail_only && s.tag.is_prefix_of(label0) {
            label0.skip(s.tag.len() as int)
        } else {
            label0
        };
        let ev = if s.code {
            SpecEvent::Code(label)
        } else {
            SpecEvent::Text(label)
        };
        SpecLink {
            link_type: l.link_type,
            destination: new_dest,
            title: if l.title.len() == 0 {
                new_dest
            } else {
                l.title
            },
            text: if l.text.len() == 0 || s.replace_text {
                seq![ev]
            } else {
                l.text
            },
            id: l.id,
        }
    }
}

impl Substitution {
    /// The full pattern: the tag, then the tail in a group named `text`.
    pub fn pattern(&self) -> (r: String)
        ensures
            r@ == self@.full_pattern(),
    {
        let mut p = String::new();
        p.append(self.tag.as_str());
        p.append("(?<text>");
        p.append(self.tail.as_str());
        p.append(")");
        p
    }

    /// Build a substitution, validating its full pattern.  An invalid
    /// pattern is a configuration error, reported before any document
    /// is touched.
    pub fn new(
        tag: String,
        tail: String,
        replacement: String,
        limit: usize,
        code: bool,
        tail_only: bool,
        replace_text: bool,
    ) -> (r: Result<Substitution, ConfigError>)
        ensures
            r matches Ok(s) ==> s@ == (SpecSubstitution {
                tag: tag@,
                tail: tail@,
                replacement: replacement@,
                limit,
                code,
                tail_only,
                replace_text,
            }) && regex_valid(spec_full_pattern(tag@, tail@)),
            r is Err <==> !regex_valid(spec_full_pattern(tag@, tail@)),
    {
        let s = Substitution { tail, tag, replacement, limit, code, tail_only, replace_text };
        let pattern = s.pattern();
        if re_valid(pattern.as_str()) {
            Ok(s)
        } else {
            Err(ConfigError::InvalidPattern(pattern))
        }
    }

    /// An example configuration, used to generate a template file.
    pub fn example() -> (r: Self)
        ensures
            r@.tag == "PS-"@,
            r@.tail == "\\d+"@,
            r@.replacement == "mycompany.jira.com/issues/PS-$text"@,
            r@.limit == 1,
            !r@.code,
            !r@.tail_only,
            !r@.replace_text,
    {
        Substitution {
            tail: String::from_str("\\d+"),
            tag: String::from_str("PS-"),
            replacement: String::from_str("mycompany.jira.com/issues/PS-$text"),
            limit: 1,
            code: false,
            tail_only: false,
            replace_text: false,
        }
    }

    /// Perform the replacement, exactly as [`spec_apply`] says.
    pub fn apply(&self, link: &mut Link)
        ensures
            final(link)@ == spec_apply(self@, old(link)@),
    {
        if matches!(link.link_type, LinkType::ShortcutUnknown) {
            return ;
        }
        let pattern = self.pattern();
        let dest = link.destination.clone();
        if !re_is_match(pattern.as_str(), dest.as_str()) {
            return ;
        }
        let new_dest = re_replacen(
            pattern.as_str(),
            dest.as_str(),
            self.limit,
            self.replacement.as_str(),
        );
        let caps = re_captures(pattern.as_str(), dest.as_str(), "text");
        match caps {
            Some((whole, tail_cap)) => {
                let label0: String = if self.tail_only {
                    match tail_cap {
                        Some(c) => c,
                        None => new_dest.clone(),
                    }
                } else {
                    whole
                };
                let label: String = if self.tail_only && has_prefix(
                    label0.as_str(),
                    self.tag.as_str(),
                ) {
                    strip_prefix_string(label0.as_str(), self.tag.as_str())
                } else {
                    label0
                };
                let ev = if self.code {
                    Event::Code(label)
                } else {
                    Event::Text(label)
                };
                let ghost spec_ev = ev@;
                if link.text.len() == 0 || self.replace_text {
                    let mut text: Vec<Event> = Vec::new();
                    text.push(ev);
                    proof {
                        assert(text.deep_view() =~= seq![spec_ev]);
                    }
                    link.text = text;
                }
                link.destination = new_dest;
                if link.title.as_str().is_empty() {
                    link.title = link.destination.clone();
                }
            },
            None => {
                proof {
                    assert(false);
                }
            },
        }
    }
}

} // verus!
