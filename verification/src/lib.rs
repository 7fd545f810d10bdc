//! Link aggregation and transformation for markdown event streams.
//!
//! A parsed markdown document is a linear sequence of typed events.  This
//! library folds each hyperlink's open marker, inline content and close
//! marker into one addressable [`link::Link`], applies an ordered set of
//! transformation rules to its destination, title and text, and flattens
//! the result back into an event sequence.

pub mod aggregation;
pub mod aggregator;
pub mod buttons;
pub mod dedent;
pub mod deep_view_util;
pub mod event;
pub mod link;
pub mod pipeline;
pub mod regex_ops;
pub mod resolver;
pub mod snippets;
pub mod substitution;
pub mod text_util;
pub mod transform;
pub mod urlencode;
