//! Decorative weather animation core for a terminal dashboard: a bounded
//! particle pool driven by an effect/cycle/season state machine, a
//! procedural lightning generator, a non-destructive layered compositor,
//! and the dual-cadence scheduling decisions that drive animation and data
//! refresh from one thread. The counter-table parsers and the calendar and
//! clock arithmetic that feed the dashboard live here too.

pub mod clock;
pub mod compositor;
pub mod engine;
pub mod lightning;
pub mod metrics;
pub mod particle;
pub mod rng;
pub mod scheduler;
pub mod season;
pub mod settings;
