//! Beneficial-ownership investigations: the data model, the job pipeline's
//! decisions, and an in-memory store that keeps the pipeline's invariants.
pub mod bus;
pub mod checks;
pub mod company_house;
pub mod dates;
pub mod flags;
pub mod jobs;
pub mod models;
pub mod open_sanctions;
pub mod store;
pub mod text;
pub mod workers;
