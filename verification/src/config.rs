//! Configuration: the recognized options and the validation rule that must
//! hold before any connection is attempted.
use vstd::prelude::*;

verus! {

/// The recognized configuration options: the serial source, the shared
/// target host, and the two consumer slots with their enabled flags and
/// ports.
pub struct Config {
    pub port: String,
    pub baud: u32,
    pub host: String,
    pub blender: bool,
    pub visualizer: bool,
    pub blender_port: u16,
    pub viz_port: u16,
}

/// Why a configuration is rejected.
#[derive(PartialEq, Eq, Structural, Clone, Copy, Debug)]
pub enum ConfigError {
    /// Both consumers are enabled but share one port.
    SamePorts,
    /// Neither consumer is enabled.
    NoConsumer,
}

impl ConfigError {
    /// The report the process prints for this rejection.
    pub fn message(&self) -> (r: &'static str)
        ensures
            *self is SamePorts ==> r@ == "Blender and Visualizer ports must be different"@,
            *self is NoConsumer ==> r@
                == "At least one of --blender or --visualizer must be specified"@,
    {
        match self {
            ConfigError::SamePorts => "Blender and Visualizer ports must be different",
            ConfigError::NoConsumer => "At least one of --blender or --visualizer must be specified",
        }
    }
}

/// The rule a configuration must pass before startup: at least one consumer
/// slot must be enabled, and if both are, their ports must differ. Exactly
/// the offending configurations are rejected, each with its own error.
pub fn validate_configuration(config: &Config) -> (r: Result<(), ConfigError>)
    ensures
        r matches Err(e) && e is SamePorts <==> config.blender && config.visualizer
            && config.blender_port == config.viz_port,
        r matches Err(e) && e is NoConsumer <==> !config.blender && !config.visualizer,
        r is Ok <==> (config.blender || config.visualizer) && !(config.blender
            && config.visualizer && config.blender_port == config.viz_port),
{
    if config.blender && config.visualizer && config.blender_port == config.viz_port {
        return Err(ConfigError::SamePorts);
    }
    if !config.blender && !config.visualizer {
        return Err(ConfigError::NoConsumer);
    }
    Ok(())
}

} // verus!
