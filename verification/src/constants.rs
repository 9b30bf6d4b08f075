//! The frame parameters: what is handed to both compute phases of one frame.

use vstd::prelude::*;
use crate::settings::Settings;

verus! {

/// The time from `from` to `to`, zero where `to` lies before `from`.
pub open spec fn elapsed(from: u64, to: u64) -> u64 {
    if to >= from {
        (to - from) as u64
    } else {
        0
    }
}

/// The part of the frame parameters that is made of whole numbers: the
/// options that are counts or sizes, and the two times. Times are in
/// nanoseconds. The caller adds the real-valued options, with its angles
/// turned into radians, and turns the times into seconds.
#[derive(Debug, Clone, Copy, PartialEq, Eq, Structural)]
pub struct Constants {
    /// Width of the field, in texels.
    pub width: u32,
    /// Height of the field, in texels.
    pub height: u32,
    pub num_agents: u32,
    pub steps_per_tick: u32,
    pub sensor_size: u32,
    /// Time since the simulation started.
    pub time: u64,
    /// Time since the previous rendered frame.
    pub delta_time: u64,
}

/// The frame parameters of the frame rendered at `current_time`, in a session
/// that started at `initial_time` and rendered its previous frame at
/// `last_frame_time`.
pub open spec fn frame_parameters(
    settings: Settings,
    initial_time: u64,
    last_frame_time: u64,
    current_time: u64,
) -> Constants {
    Constants {
        width: settings.width,
        height: settings.height,
        num_agents: settings.num_agents,
        steps_per_tick: settings.steps_per_tick,
        sensor_size: settings.sensor_size,
        time: elapsed(initial_time, current_time),
        delta_time: elapsed(last_frame_time, current_time),
    }
}

impl Constants {
    /// Builds the frame parameters. The three times are readings of one
    /// monotonic clock, in nanoseconds.
    pub fn new(
        settings: &Settings,
        initial_time: u64,
        last_frame_time: u64,
        current_time: u64,
    ) -> (c: Constants)
        ensures
            c == frame_parameters(*settings, initial_time, last_frame_time, current_time),
    {
        Constants {
            width: settings.width,
            height: settings.height,
            num_agents: settings.num_agents,
            steps_per_tick: settings.steps_per_tick,
            sensor_size: settings.sensor_size,
            time: since(initial_time, current_time),
            delta_time: since(last_frame_time, current_time),
        }
    }
}

/// The time from `from` to `to`, zero where `to` lies before `from`.
pub fn since(from: u64, to: u64) -> (d: u64)
    ensures
        d == elapsed(from, to),
{
    if to >= from {
        to - from
    } else {
        0
    }
}

/// The frame parameters are a function of their inputs: two snapshots built
/// from the same configuration and the same three times are the same.
pub proof fn lemma_same_inputs_same_parameters(
    settings: Settings,
    initial_time: u64,
    last_frame_time: u64,
    current_time: u64,
    first: Constants,
    second: Constants,
)
    requires
        first == frame_parameters(settings, initial_time, last_frame_time, current_time),
        second == frame_parameters(settings, initial_time, last_frame_time, current_time),
    ensures
        first == second,
{
}

/// No time has passed in a frame that is rendered at the time of the frame
/// before it; in particular the first frame of a session has no duration.
/// Where the clock does not run backwards, no frame is longer than the
/// session.
pub proof fn lemma_frame_times(
    settings: Settings,
    initial_time: u64,
    last_frame_time: u64,
    current_time: u64,
)
    ensures
        last_frame_time == current_time ==> frame_parameters(
            settings,
            initial_time,
            last_frame_time,
            current_time,
        ).delta_time == 0,
        initial_time <= last_frame_time <= current_time ==> frame_parameters(
            settings,
            initial_time,
            last_frame_time,
            current_time,
        ).delta_time <= frame_parameters(
            settings,
            initial_time,
            last_frame_time,
            current_time,
        ).time,
{
}

} // verus!
