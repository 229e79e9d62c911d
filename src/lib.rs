pub mod example;
pub mod measurement;
pub mod metrics;
pub mod pipeline;
pub mod plugin;
pub mod resources;
pub mod scheduler;
pub mod stages;
pub mod text;
