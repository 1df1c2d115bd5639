//! A live introspection console for a running entity/component/archetype
//! store: read-only queries over a metadata snapshot, a command grammar and
//! dispatcher, the pause/resume run-state controller the host scheduler
//! consults each tick, and the console step fed by a bounded input channel.
use vstd::prelude::*;

pub mod console;
pub mod dispatch;
pub mod grammar;
pub mod model;
pub mod queries;
pub mod runstate;
pub mod text;

pub use runstate::EnteringConsole;
pub use runstate::Pause;
pub use runstate::RunDecision;

verus! {

} // verus!
