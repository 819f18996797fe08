//! The logging sink: a logger that records the last message and its
//! severity. Actual console output is platform I/O and happens outside;
//! the lock around the shared logger slot lives there too, so every
//! function here takes the slot explicitly.

use vstd::prelude::*;

use crate::errors::LogError;

verus! {

/// The severity of a recorded message.
#[derive(Clone, Copy, Debug, PartialEq, Eq, Structural)]
pub enum LogLevel {
    Info,
    Warning,
    Error,
}

/// Records log messages; the platform layer prints what was recorded.
pub struct Logger {
    pub last_message: String,
    pub last_level: LogLevel,
}

impl Logger {
    /// A fresh logger with no recorded message.
    pub fn new() -> (r: Self)
        ensures
            r.last_message@ == Seq::<char>::empty(),
            r.last_level == LogLevel::Info,
    {
        Logger { last_message: String::new(), last_level: LogLevel::Info }
    }

    /// The last recorded message.
    pub fn last_message(&self) -> (r: String)
        ensures
            r@ == self.last_message@,
    {
        self.last_message.clone()
    }

    /// Records an informational message.
    pub fn log_info(&mut self, message: &str)
        ensures
            final (self).last_message@ == message@,
            final (self).last_level == LogLevel::Info,
    {
        self.last_message = message.to_owned();
        self.last_level = LogLevel::Info;
    }

    /// Records a warning.
    pub fn log_warn(&mut self, message: &str)
        ensures
            final (self).last_message@ == message@,
            final (self).last_level == LogLevel::Warning,
    {
        self.last_message = message.to_owned();
        self.last_level = LogLevel::Warning;
    }

    /// Records an error.
    pub fn log_error(&mut self, message: &str)
        ensures
            final (self).last_message@ == message@,
            final (self).last_level == LogLevel::Error,
    {
        self.last_message = message.to_owned();
        self.last_level = LogLevel::Error;
    }
}

/// Initializes the logger slot: creates a logger when the slot is empty
/// and leaves an already initialized one untouched.
pub fn init_log(slot: &mut Option<Logger>) -> (r: Result<(), LogError>)
    ensures
        r is Ok,
        (*old(slot)) is None ==> ((*final (slot)) matches Some(l) && l.last_message@
            == Seq::<char>::empty() && l.last_level == LogLevel::Info),
        (*old(slot)) matches Some(l) ==> ((*final (slot)) matches Some(l2) && l2.last_message@
            == l.last_message@ && l2.last_level == l.last_level),
{
    if slot.is_none() {
        *slot = Some(Logger::new());
    }
    Ok(())
}

/// Records an informational message in an initialized slot; an empty slot
/// is left untouched.
pub fn log_info(slot: &mut Option<Logger>, message: &str)
    ensures
        (*old(slot)) is None ==> (*final (slot)) is None,
        (*old(slot)) is Some ==> ((*final (slot)) matches Some(l) && l.last_message@ == message@
            && l.last_level == LogLevel::Info),
{
    match slot {
        Some(logger) => logger.log_info(message),
        None => (),
    }
}

/// Records a warning in an initialized slot; an empty slot is left
/// untouched.
pub fn log_warn(slot: &mut Option<Logger>, message: &str)
    ensures
        (*old(slot)) is None ==> (*final (slot)) is None,
        (*old(slot)) is Some ==> ((*final (slot)) matches Some(l) && l.last_message@ == message@
            && l.last_level == LogLevel::Warning),
{
    match slot {
        Some(logger) => logger.log_warn(message),
        None => (),
    }
}

/// Records an error in an initialized slot; an empty slot is left
/// untouched.
pub fn log_error(slot: &mut Option<Logger>, message: &str)
    ensures
        (*old(slot)) is None ==> (*final (slot)) is None,
        (*old(slot)) is Some ==> ((*final (slot)) matches Some(l) && l.last_message@ == message@
            && l.last_level == LogLevel::Error),
{
    match slot {
        Some(logger) => logger.log_error(message),
        None => (),
    }
}

/// The last message of an initialized slot; fails when the logger was
/// never initialized.
pub fn last_message(slot: &Option<Logger>) -> (r: Result<String, LogError>)
    ensures
        slot matches Some(l) ==> (r matches Ok(m) && m@ == l.last_message@),
        slot is None ==> (r matches Err(e) && e == LogError::NotInitialized),
{
    match slot {
        Some(logger) => Ok(logger.last_message()),
        None => Err(LogError::NotInitialized),
    }
}

} // verus!
