//! Credential bookkeeping and training-queue statistics for a set of game
//! characters: the pure logic behind the command-line tool in `app/`.

pub mod queue;
pub mod dates;
pub mod stats;
pub mod store;
pub mod text;
pub mod callback;
pub mod session;
