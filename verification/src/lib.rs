//! Branch commit reconciliation: given the line-oriented commit logs of two
//! branches (`id|date|summary`, one commit per line), compute the commits of
//! the first branch whose summary appears nowhere in the second branch, and
//! optionally drop commits whose summary contains a caller-supplied exclusion
//! term as a substring.

pub mod commit;
pub mod laws;
pub mod parse;
pub mod reconcile;
pub mod text;
