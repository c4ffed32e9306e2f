//! Verified core of a command-line client for a personal-finance service:
//! calendar arithmetic, date-filter parsing, transaction filtering and
//! grouping, and the decisions that drive paging, retries and tool dispatch.
pub mod text;
pub mod select;
pub mod calendar;
pub mod decimal;
pub mod dates;
pub mod json;
pub mod client;
pub mod categories;
pub mod edits;
pub mod transactions;
pub mod paging;
pub mod session;
pub mod cli;
pub mod mcp;
pub mod replies;
pub mod laws;
