//! Distribution of changes to other systems.

pub mod channels;
pub mod config;
pub mod delivery_laws;
pub mod dispatcher;
pub mod envelope;
pub mod registry;
pub mod transform;
pub mod transform_laws;
