use vstd::prelude::*;

verus! {

/// Raw Vulkan bits of the message severities.
pub const SEVERITY_VERBOSE: u32 = 0x1;

pub const SEVERITY_INFO: u32 = 0x10;

pub const SEVERITY_WARNING: u32 = 0x100;

pub const SEVERITY_ERROR: u32 = 0x1000;

/// Raw Vulkan bits of the message types.
pub const MESSAGE_TYPE_GENERAL: u32 = 0x1;

pub const MESSAGE_TYPE_VALIDATION: u32 = 0x2;

pub const MESSAGE_TYPE_PERFORMANCE: u32 = 0x4;

/// The log level a driver message is emitted at.
#[derive(Clone, Copy, Debug, PartialEq, Eq, Structural)]
pub enum LogLevel {
    Debug,
    Info,
    Warn,
    Error,
}

/// Which driver messages the debug sink receives.
#[derive(Clone, Copy, Debug, PartialEq, Eq, Structural)]
pub struct DebugMessengerSettings {
    pub severity_mask: u32,
    pub type_mask: u32,
}

/// Verbose messages are logged as debug, info as info, warnings as warnings,
/// and anything else as an error.
pub open spec fn level_for(severity: u32) -> LogLevel {
    if severity == SEVERITY_VERBOSE {
        LogLevel::Debug
    } else if severity == SEVERITY_INFO {
        LogLevel::Info
    } else if severity == SEVERITY_WARNING {
        LogLevel::Warn
    } else {
        LogLevel::Error
    }
}

pub fn debug_message_level(severity: u32) -> (r: LogLevel)
    ensures
        r == level_for(severity),
{
    if severity == SEVERITY_VERBOSE {
        LogLevel::Debug
    } else if severity == SEVERITY_INFO {
        LogLevel::Info
    } else if severity == SEVERITY_WARNING {
        LogLevel::Warn
    } else {
        LogLevel::Error
    }
}

/// Errors, warnings and info (verbose messages are left out), of the
/// validation, general and performance types.
pub fn debug_messenger_settings() -> (r: DebugMessengerSettings)
    ensures
        r.severity_mask == SEVERITY_ERROR | SEVERITY_WARNING | SEVERITY_INFO,
        r.type_mask == MESSAGE_TYPE_VALIDATION | MESSAGE_TYPE_GENERAL | MESSAGE_TYPE_PERFORMANCE,
{
    DebugMessengerSettings {
        severity_mask: SEVERITY_ERROR | SEVERITY_WARNING | SEVERITY_INFO,
        type_mask: MESSAGE_TYPE_VALIDATION | MESSAGE_TYPE_GENERAL | MESSAGE_TYPE_PERFORMANCE,
    }
}

} // verus!
