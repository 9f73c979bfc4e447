//! A fixed-cadence frame scheduler and the command pipeline it drives.
//!
//! The scheduler decides, once per loop iteration, whether a frame may run
//! or the caller has to sleep, and keeps a frames-per-second count. The
//! pipeline turns input events into commands, keeps them in a
//! last-in-first-out queue and applies one command per executed frame to a
//! movable quad. The logic is verified against a mathematical model of the
//! state it works on. The clock, the sleeping, the window and the drawing
//! are the caller's.

pub mod config;
pub mod graphics;
pub mod pipeline;
pub mod scheduler;

pub use config::{apply_session_overrides, parse_u32, with_overrides, Config};
pub use graphics::{fragment_shader, pixel_corners, vertex_shader, Quad, QuadState, STEP};
pub use pipeline::{
    can_dispatch, can_run_frame, get_event_command, get_keyboard_command, process_events, run_frame,
    update_and_keep_running, Command, Direction, FrameResult, InputEvent, Key, KeyState,
};
pub use scheduler::{
    ConstructionError, FrameThrottler, GameLoop, Iteration, Outcome, RunLog, SchedulerState, Tick,
    MILLIS_PER_SECOND, NANOS_PER_MILLI, NANOS_PER_SECOND,
};
