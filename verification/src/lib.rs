//! Orchestrates the trawler benchmark on two machines: a server, and a client that puts it under
//! load. The library decides; it performs nothing. [`setup::Setup`] tells how a machine is set up,
//! and [`campaign::Campaign`] tells what is done with both: each names the next action and takes in
//! how it went.
pub mod backend;
pub mod campaign;
pub mod clock;
pub mod command;
pub mod exchange;
pub mod laws;
pub mod names;
pub mod orders;
pub mod plan;
pub mod rates;
pub mod settings;
pub mod setup;
pub mod text;
pub mod trial;
