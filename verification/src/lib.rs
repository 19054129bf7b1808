//! Deterministic-simulation testing of a transactional SQL engine.
//!
//! A run drives an engine through transactions on one table, lets it crash and
//! recover, and holds everything that it shows against an oracle. The library
//! is the part that decides; whoever uses it performs what it asks for, on a
//! real engine, and tells it what came of that. Everything it asks for is a
//! pure function of a seed and of the answers.
//!
//! - `prng`, `config`, `workload`: what is drawn from the seed.
//! - `table`, `model`: the table and the durability oracle.
//! - `tx`, `reader`, `checkpoint`, `background`, `reopen`, `setup`, `retry`: one
//!   state machine, or one decision, for each activity.
//! - `driver`: the run itself.
//! - `script`, `scenario`: focused scenarios with exactly placed faults.
//! - `detio`, `crash_points`: what becomes of an I/O operation, and when the
//!   power goes out.
//! - `exec`, `rows`, `diff`, `report`, `log`, `stats`, `outcome`, `text`: statements
//!   and their answers, what is reported and how it is worded.
//!
//! What holds of all this, whatever the seed and the answers, stands beside it
//! and in modules of its own:
//!
//! - `tx_laws`, `workload_laws`: what a transaction and its statements do to the
//!   table.
//! - `oracle_laws`, `digest_laws`, `reading_laws`: what a database may show, what
//!   a digest tells apart, and what is read of a table.
//! - `driver_laws`, `course_laws`: what holds of every run, and its course.
//! - `script_laws`, `scenario_laws`, `io_laws`: which faults are placed where, and
//!   what becomes of them.
//! - `text_laws`, `view_laws`: how things are worded, and what they stand for.

pub mod background;
pub mod checkpoint;
pub mod config;
pub mod course_laws;
pub mod crash_points;
pub mod detio;
pub mod diff;
pub mod digest_laws;
pub mod driver;
pub mod driver_laws;
pub mod exec;
pub mod io_laws;
pub mod log;
pub mod model;
pub mod oracle_laws;
pub mod outcome;
pub mod prng;
pub mod reader;
pub mod reading_laws;
pub mod reopen;
pub mod report;
pub mod retry;
pub mod rows;
pub mod scenario;
pub mod scenario_laws;
pub mod script;
pub mod script_laws;
pub mod setup;
pub mod stats;
pub mod table;
pub mod text;
pub mod text_laws;
pub mod tx;
pub mod tx_laws;
pub mod view_laws;
pub mod workload;
pub mod workload_laws;
