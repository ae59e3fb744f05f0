//! A scheduled pull-request notifier library.
//!
//! The crate holds the verified core of a scan-filter-notify pipeline: the
//! rules deciding which open pull requests are still awaiting review, the
//! formatting of the chat messages announcing them, the construction of the
//! threaded webhook URL, and the bounded retry policy for rate-limited sends.
//! Network I/O (fetching pull requests and reviews, posting messages) lives
//! outside the library and hands it plain values.

pub mod config;
pub mod github;
pub mod google;
pub mod messages;
pub mod pipeline;
pub mod retry;
pub mod text;
