//! Operations that outlive the program that started them: what is asked for, how far it
//! is, and how a client talks to the runner.
pub mod id;
pub mod order;
pub mod state;
pub mod state_law;
pub mod control;
pub mod runner;
pub mod runner_law;
