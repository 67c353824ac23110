use vstd::prelude::*;

verus! {

/// A free-form error carrying a message.
#[derive(Debug)]
pub struct AppError {
    details: String,
}

impl AppError {
    /// The message this error carries.
    pub closed spec fn message(&self) -> Seq<char> {
        self.details@
    }

    pub fn new(msg: &str) -> (r: Self)
        ensures
            r.message() == msg@,
    {
        AppError { details: msg.to_string() }
    }

    pub fn description(&self) -> (r: &str)
        ensures
            r@ == self.message(),
    {
        self.details.as_str()
    }
}

} // verus!

verus! {

/// The candidate filter that left no accelerator standing.
#[derive(Clone, Copy, Debug, PartialEq, Eq, Structural)]
pub enum FilterStage {
    ExtensionSupport,
    PresentationAdequacy,
    QueueFamilySupport,
}

/// Why bringing up the rendering context failed. Driver status codes are
/// carried as their raw values.
#[derive(Debug)]
pub enum SetupError {
    /// Required layers or extensions that the driver does not offer, all of them.
    MissingCapability { missing: Vec<String> },
    ConnectionCreationFailed { code: i32 },
    NoDevicesFound,
    NoSuitableDevice { stage: FilterStage },
    LogicalDeviceCreationFailed { code: i32 },
    SwapChainCreationFailed { code: i32 },
    ImageViewCreationFailed { code: i32 },
    SurfaceBindingFailed { code: i32 },
    /// No window has been handed over yet; the worker polls again.
    WindowHandleUnavailable,
}

impl SetupError {
    /// Every error but a missing window ends the run.
    pub fn is_fatal(&self) -> (r: bool)
        ensures
            r == !(self is WindowHandleUnavailable),
    {
        match self {
            SetupError::WindowHandleUnavailable => false,
            _ => true,
        }
    }
}

} // verus!
