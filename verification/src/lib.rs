//! Grade aggregation engine for a school-portal report tool.
//!
//! The crate turns raw per-subject evaluation data (a tree of evaluation
//! projects with proportions and scores, some of them null) into normalized
//! proportions, subject total scores, letter levels and grade points, applies
//! elective weighting and an authoritative dynamic-score overlay, and
//! aggregates everything into weighted and unweighted GPA figures. Around the
//! engine stand the portal protocol's plain-value pieces: date parsing,
//! schedule corrections, elective derivation, login classification and
//! captcha decoding.
//!
//! Fractional values are exact rationals ([`frac::Frac`]); scores enter as
//! fixed-point hundredths; "undetermined" (an unreleased score, an
//! unmatchable table lookup) is `None`, never a sentinel number.
pub mod calendar;
pub mod client;
pub mod config;
pub mod frac;
pub mod gpa;
pub mod semester;
pub mod strutil;
pub mod subject;
pub mod task;
