//! A small alarm-clock library.
//!
//! The heart of the crate is the timespec resolver: it turns a loosely
//! formatted user string -- either a clock time `hh:mm` or an interval
//! `<n>s` / `<n>m` / `<n>h` -- together with a reference instant into a
//! forward-looking duration, with precise rejection rules for malformed
//! or already-passed input.

pub mod clock;
pub mod model;
pub mod request;
pub mod resolve;

pub use clock::current_instant;
pub use clock::parse_current_timespec;
pub use model::instant_after;
pub use model::timespec_fmt;
pub use model::Duration;
pub use model::Instant;
pub use request::AlarmRequest;
pub use resolve::parse_timespec;
pub use resolve::ParseError;
