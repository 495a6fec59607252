pub mod model;
pub mod matcher;
pub mod switches;
pub mod autoproxy;
pub mod registry;
pub mod relay;
pub mod orchestrator;
