//! The configuration of a session and its validation.

use vstd::prelude::*;
use crate::single::{divides, is_divisor};

verus! {

/// The word of the number 4, the default spawn-disc divisor.
pub const DEFAULT_DENSITY: u32 = 0x4080_0000;

/// The options that the library reads. The real-valued options that only the
/// compute stage reads (speeds, angles, weights, rates) travel beside this
/// value and never through it.
#[derive(Debug, Clone, Copy, PartialEq, Eq, Structural)]
pub struct Settings {
    /// Width of the field, in texels.
    pub width: u32,
    /// Height of the field, in texels.
    pub height: u32,
    /// Number of agents, fixed for the lifetime of the session.
    pub num_agents: u32,
    /// Simulation steps per rendered frame.
    pub steps_per_tick: u32,
    /// Seed of the pseudo-random generator that draws the agents.
    pub seed: u32,
    /// Side of the square of texels that one sensor averages.
    pub sensor_size: u32,
    /// Divisor of the radius of the disc on which the agents are spawned, as
    /// the word of a single-precision number.
    pub density: u32,
}

/// Why a configuration cannot start a session.
#[derive(Debug, Clone, Copy, PartialEq, Eq, Structural)]
pub enum ConfigError {
    /// The field has no texels: its width or its height is zero.
    InvalidDimensions,
    /// There are no agents.
    NoAgents,
    /// The spawn-disc divisor is zero, infinite or not a number.
    DegenerateDensity,
    /// The agent store does not hold `num_agents` agents.
    AgentCount,
}

impl Settings {
    /// The first reason, if any, for which this configuration is refused:
    /// the dimensions are looked at first, then the number of agents, then
    /// the spawn-disc divisor.
    pub open spec fn rejection(self) -> Option<ConfigError> {
        if self.width == 0 || self.height == 0 {
            Some(ConfigError::InvalidDimensions)
        } else if self.num_agents == 0 {
            Some(ConfigError::NoAgents)
        } else if !divides(self.density) {
            Some(ConfigError::DegenerateDensity)
        } else {
            None
        }
    }

    /// Whether this configuration can start a session.
    pub open spec fn valid(self) -> bool {
        self.rejection() is None
    }

    /// Accepts the configuration, or says why it is refused.
    pub fn validate(&self) -> (r: Result<(), ConfigError>)
        ensures
            r is Ok <==> self.valid(),
            r is Err ==> self.rejection() == Some(r->Err_0),
    {
        if self.width == 0 || self.height == 0 {
            Err(ConfigError::InvalidDimensions)
        } else if self.num_agents == 0 {
            Err(ConfigError::NoAgents)
        } else if !is_divisor(self.density) {
            Err(ConfigError::DegenerateDensity)
        } else {
            Ok(())
        }
    }
}

impl Default for Settings {
    /// A field of 256 by 256 texels, 100 agents, one step per frame, seed 0,
    /// sensors of one texel, spawn-disc divisor 4.
    fn default() -> (s: Settings)
        ensures
            s == (Settings {
                width: 256,
                height: 256,
                num_agents: 100,
                steps_per_tick: 1,
                seed: 0,
                sensor_size: 1,
                density: DEFAULT_DENSITY,
            }),
            s.valid(),
    {
        Settings {
            width: 256,
            height: 256,
            num_agents: 100,
            steps_per_tick: 1,
            seed: 0,
            sensor_size: 1,
            density: DEFAULT_DENSITY,
        }
    }
}

} // verus!
