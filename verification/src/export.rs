//! Rules of the export of images and video.

use vstd::prelude::*;
use crate::text::same_text;

verus! {

/// Why a video was not made.
#[derive(Debug, Clone, Copy, PartialEq, Eq, Structural)]
pub enum ExportError {
    /// The frame rate is zero.
    ZeroFps,
    /// No slice could be turned into a frame.
    NoFrames,
}

impl ExportError {
    /// The text of the error.
    pub open spec fn message_chars(self) -> Seq<char> {
        match self {
            ExportError::ZeroFps => "FPS must be greater than 0"@,
            ExportError::NoFrames => "No frames were successfully processed for video creation"@,
        }
    }

    /// The text of the error.
    pub fn message(&self) -> (text: String)
        ensures
            text@ == self.message_chars(),
    {
        match self {
            ExportError::ZeroFps => String::from_str("FPS must be greater than 0"),
            ExportError::NoFrames => String::from_str(
                "No frames were successfully processed for video creation",
            ),
        }
    }
}

/// Accepts a frame rate above zero.
pub fn check_fps(fps: u32) -> (r: Result<(), ExportError>)
    ensures
        r is Ok <==> fps > 0,
        r is Err ==> r == Err::<(), ExportError>(ExportError::ZeroFps),
{
    if fps == 0 {
        Err(ExportError::ZeroFps)
    } else {
        Ok(())
    }
}

/// Accepts a number of prepared frames above zero.
pub fn check_frames(frames: usize) -> (r: Result<(), ExportError>)
    ensures
        r is Ok <==> frames > 0,
        r is Err ==> r == Err::<(), ExportError>(ExportError::NoFrames),
{
    if frames == 0 {
        Err(ExportError::NoFrames)
    } else {
        Ok(())
    }
}

/// Whether a frame of `width` by `height` must be resized to stand in a video
/// of `target_width` by `target_height`.
pub fn needs_resize(width: u32, height: u32, target_width: u32, target_height: u32) -> (r: bool)
    ensures
        r == (width != target_width || height != target_height),
{
    width != target_width || height != target_height
}

/// Whether an output path names a video file rather than a folder of images:
/// it does where its last part has an extension.
pub fn is_video_output(extension: Option<&str>) -> (r: bool)
    ensures
        r == extension is Some,
{
    extension.is_some()
}

/// Whether the extension of a video path is the one of the container that is
/// written, "mp4"; a path with another extension, or none, is given that one.
pub fn has_video_extension(extension: Option<&str>) -> (r: bool)
    ensures
        r == (extension matches Some(e) && e@ == "mp4"@),
{
    match extension {
        Some(e) => same_text(e, "mp4"),
        None => false,
    }
}

} // verus!
