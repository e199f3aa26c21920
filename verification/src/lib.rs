//! Backend library for a desktop calendar companion app.
//!
//! The heart of the crate is the task-alarm engine: a persisted collection of
//! alarm records that is reconciled against an externally supplied desired
//! state, mutated by user actions (snooze, dismiss), and periodically scanned
//! for due alarms to fire. Around it stand small, fully specified helpers for
//! account settings, user preferences, workspace management, and parsing of
//! the local OAuth callback. All persistence and OS interaction lives outside
//! this crate. Everything here is specified and verified, except a handful of
//! explicitly trusted declarations: the wall clock, `str` trimming and case
//! folding, and percent-decoding.

pub mod account;
pub mod alarm;
pub mod clock;
pub mod numfmt;
pub mod oauth;
pub mod seqtools;
pub mod strutil;
pub mod sync;
pub mod workspace;
