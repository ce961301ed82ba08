//! Execution-loop core of a real-time rendering demo: the reduction of a
//! frame's platform events, the loop's state machine shared by the
//! owning-thread and the host-driven drivers, and a fully specified
//! per-draw pipeline state with the order in which a draw applies it.

pub mod event;
pub mod framework;
pub mod pipeline;
pub mod scene;

pub use event::{classify, reduce_events, FrameEvent, FrameStep, Key, PlatformEvent};
pub use framework::DemoFramework;
