//! A terminal countdown and stopwatch engine: clock text, the countdown and
//! blink state machine, frame handling and an incremental screen painter.
pub mod clock;
pub mod countdown;
pub mod frame;
pub mod painter;
pub mod session;
pub mod numbers;
pub mod args;
