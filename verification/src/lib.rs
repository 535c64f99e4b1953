//! Aggregation, reconciliation and validation logic for promotional
//! redemption codes collected from several independent sources.
//!
//! The crate contains the decision core of the pipeline: merging and
//! deduplicating multi-source results, mapping validation-oracle replies to
//! an active/inactive verdict, driving a reconciliation run that trusts the
//! persisted state over fresh scrapes, re-validating already-active codes,
//! and a sliding-window ingress throttle.  All I/O (source fetching, oracle
//! calls, persistence, HTTP serving) lives outside this crate; callers hand
//! in plain values and receive plain values and explicit action plans back.

pub mod aggregate;
pub mod api;
pub mod config;
pub mod lang_parser;
pub mod logging;
pub mod reconcile;
pub mod record;
pub mod revalidate;
pub mod throttle;
pub mod validation;
