//! Messages passed between the frame's tasks.
//!
//! Paths are carried as `String`s. Wall-clock timestamps (`created_at`) are
//! nanoseconds since the UNIX epoch.
use vstd::prelude::*;

verus! {

/// Power state that an operator can request for the viewer.
#[derive(Debug, Clone, Copy, PartialEq, Eq, Structural)]
pub enum ViewerState {
    Asleep,
    Awake,
}

/// Which filesystem timestamp `created_at` came from.
#[derive(Debug, Clone, Copy, PartialEq, Eq, Structural)]
pub enum CreatedSource {
    /// Filesystem birth time: when the file was staged to the frame.
    Birthtime,
    /// Fallback: modification time.
    Mtime,
    /// Fallback: the current time (metadata unreadable).
    Now,
}

/// Stable lowercase name of a `CreatedSource`.
pub open spec fn created_source_name(source: CreatedSource) -> Seq<char> {
    match source {
        CreatedSource::Birthtime => "birthtime"@,
        CreatedSource::Mtime => "mtime"@,
        CreatedSource::Now => "now"@,
    }
}

impl CreatedSource {
    /// Stable lowercase name for metric logging.
    pub fn as_str(self) -> (r: &'static str)
        ensures
            r@ == created_source_name(self),
    {
        match self {
            CreatedSource::Birthtime => "birthtime",
            CreatedSource::Mtime => "mtime",
            CreatedSource::Now => "now",
        }
    }
}

/// A photo found in the library.
#[derive(Debug, Clone)]
pub struct PhotoInfo {
    pub path: String,
    /// Nanoseconds since the UNIX epoch.
    pub created_at: u64,
    pub created_source: CreatedSource,
    /// Discovered while the slideshow runs (as opposed to the startup scan).
    pub runtime_added: bool,
}

/// Change to the photo inventory.
#[derive(Debug)]
pub enum InventoryEvent {
    PhotoAdded(PhotoInfo),
    PhotoRemoved(String),
}

/// Request to decode one photo.
#[derive(Debug, Clone)]
pub struct LoadPhoto {
    pub path: String,
    pub priority: bool,
}

/// A decoded RGBA8 image.
#[derive(Debug, Clone)]
pub struct PreparedImageCpu {
    pub path: String,
    pub width: u32,
    pub height: u32,
    pub pixels: Vec<u8>,
}

/// A decoded photo on its way to the viewer.
#[derive(Debug, Clone)]
pub struct PhotoLoaded {
    pub prepared: PreparedImageCpu,
    pub priority: bool,
}

/// A photo that could not be decoded.
#[derive(Debug)]
pub struct InvalidPhoto(pub String);

/// Emitted by the viewer after a photo is shown.
#[derive(Debug)]
pub struct Displayed(pub String);

/// Command sent to the viewer over the control socket.
#[derive(Debug, Clone, Copy, PartialEq, Eq, Structural)]
pub enum ViewerCommand {
    SetState(ViewerState),
    ToggleState,
}

/// Who asked the viewer to sleep or wake.
#[derive(Debug, Clone, Copy, PartialEq, Eq, Structural)]
pub enum SleepCommandSource {
    Manual,
    Schedule,
}

} // verus!
