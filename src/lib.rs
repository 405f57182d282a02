//! A callback-driven event loop engine.
//!
//! The verified core holds the registry of live sources, the queue of idle
//! callbacks and the state machine of one dispatch cycle. The embedding code
//! performs the blocking wait and invokes the callbacks that the cycle names.

pub mod sys;
pub mod list;
pub mod idle;
pub mod loop_logic;
pub mod sources;

pub use sys::{Interest, Mode, Readiness, Token, WaitRetry, retry_after_interrupt};
pub use list::{InsertError, SourceList, registration_error};
pub use idle::{Idle, IdleQueue};
pub use loop_logic::{Cycle, Step};
pub use sources::EventDispatcher;
