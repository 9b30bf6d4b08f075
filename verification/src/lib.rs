//! The core of a slime-mould trail simulation.
//!
//! A population of agents moves over a field, senses the trail that the
//! population has laid, steers towards it and lays more; the trail decays and
//! diffuses with every step. The arithmetic of one step runs in two compute
//! kernels, one thread per agent and one thread per texel, and is not part of
//! this library. The library is what stands around it: the records of the
//! agents, the order in which they are stored, the configuration and when it
//! is refused, the frame parameters, and the order in which the work of a
//! frame is carried out.

pub mod agent;
pub mod constants;
pub mod dispatch;
pub mod morton;
pub mod orchestrator;
pub mod order;
pub mod scene;
pub mod settings;
pub mod single;
