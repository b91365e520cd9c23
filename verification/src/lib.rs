pub mod classify;
pub mod ids;
pub mod orchestrate;
pub mod paths;
pub mod registry;
pub mod responses;
pub mod status;
