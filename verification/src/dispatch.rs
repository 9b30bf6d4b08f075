//! How many thread groups a compute phase is dispatched over.
//!
//! The agents are advanced in groups of 32, the texels of the field are
//! decayed and diffused in square groups of 8 by 8. Each phase is dispatched
//! over one group more than the whole groups that its items fill, so that
//! every item falls into some group.

use vstd::prelude::*;

verus! {

/// Agents per thread group of the advance phase.
pub const AGENTS_PER_GROUP: u32 = 32;

/// Texels along one side of a thread group of the decay and diffuse phase.
pub const TEXELS_PER_GROUP_SIDE: u32 = 8;

/// The number of groups of `size` items over which `items` items are
/// dispatched.
pub open spec fn groups(items: u32, size: u32) -> int {
    items / size + 1
}

/// The number of thread groups over which the agents are advanced.
pub fn advance_groups(num_agents: u32) -> (g: u32)
    ensures
        g == groups(num_agents, AGENTS_PER_GROUP),
        g * AGENTS_PER_GROUP > num_agents,
        (g - 1) * AGENTS_PER_GROUP <= num_agents,
{
    num_agents / AGENTS_PER_GROUP + 1
}

/// The number of thread groups, across and down, over which the field is
/// decayed and diffused.
pub fn decay_groups(width: u32, height: u32) -> (g: (u32, u32))
    ensures
        g.0 == groups(width, TEXELS_PER_GROUP_SIDE),
        g.1 == groups(height, TEXELS_PER_GROUP_SIDE),
        g.0 * TEXELS_PER_GROUP_SIDE > width,
        g.1 * TEXELS_PER_GROUP_SIDE > height,
        (g.0 - 1) * TEXELS_PER_GROUP_SIDE <= width,
        (g.1 - 1) * TEXELS_PER_GROUP_SIDE <= height,
{
    (width / TEXELS_PER_GROUP_SIDE + 1, height / TEXELS_PER_GROUP_SIDE + 1)
}

} // verus!
