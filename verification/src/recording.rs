//! The recording session: an append-only frame buffer shared between the
//! fixed-rate capture loop and the export side, plus the pure per-tick
//! decisions of that loop (the loop's waiting and I/O live with the caller).

use vstd::prelude::*;
use crate::frame::{Frame, Region, frame_eq};

verus! {

/// Why a recording could not start.
#[derive(Clone, Copy, PartialEq, Eq, Structural, Debug)]
pub enum RecordingError {
    AlreadyRecording,
    NoRegionSelected,
}

/// The notification published after every captured frame.
#[derive(Clone, PartialEq, Eq, Structural, Debug)]
pub struct RecordingState {
    pub is_recording: bool,
    pub frame_count: usize,
}

/// A summary of the captured material.
pub struct RecordingInfo {
    pub frame_count: usize,
    pub width: u32,
    pub height: u32,
    pub fps: u32,
    pub duration_ms: u64,
    pub has_frames: bool,
}

/// One recording session: the capture region, the frames in capture order,
/// and whether the loop should keep running.
pub struct RecordingSession {
    pub active: bool,
    pub region: Option<Region>,
    pub frames: Vec<Frame>,
    pub capture_fps: u32,
}

impl RecordingSession {
    /// Invariant: a real capture rate, a well-formed region when one is
    /// set, and well-formed frames of one common size.
    pub open spec fn wf(&self) -> bool {
        &&& self.capture_fps >= 1
        &&& (self.region matches Some(r) ==> r.wf())
        &&& (forall|i: int| 0 <= i < self.frames@.len() ==> (#[trigger] self.frames@[i]).wf())
        &&& (forall|i: int|
            0 <= i < self.frames@.len() ==> (#[trigger] self.frames@[i]).width
                == self.frames@[0].width && self.frames@[i].height == self.frames@[0].height)
    }

    /// A fresh, inactive session.
    pub fn new(capture_fps: u32) -> (r: RecordingSession)
        requires
            capture_fps >= 1,
        ensures
            r.wf(),
            !r.active,
            r.region is None,
            r.frames@.len() == 0,
            r.capture_fps == capture_fps,
    {
        RecordingSession { active: false, region: None, frames: Vec::new(), capture_fps }
    }

    /// Selects the capture region.
    pub fn set_region(&mut self, region: Region)
        requires
            old(self).wf(),
            region.wf(),
        ensures
            final(self).wf(),
            final(self).region matches Some(r2) && r2 == region,
            final(self).active == old(self).active,
            final(self).frames@ == old(self).frames@,
            final(self).capture_fps == old(self).capture_fps,
    {
        self.region = Some(region);
    }

    /// Starts recording: fails when already active or no region is set;
    /// otherwise clears the buffer atomically and returns the region the
    /// loop must capture.
    pub fn start(&mut self) -> (r: Result<Region, RecordingError>)
        requires
            old(self).wf(),
        ensures
            final(self).wf(),
            final(self).capture_fps == old(self).capture_fps,
            old(self).active ==> (r matches Err(e) && e == RecordingError::AlreadyRecording
                && *final(self) == *old(self)),
            !old(self).active && old(self).region is None ==> (r matches Err(e) && e
                == RecordingError::NoRegionSelected && *final(self) == *old(self)),
            !old(self).active ==> (old(self).region matches Some(reg) ==> (r matches Ok(r2) && r2
                == reg && final(self).active && final(self).frames@.len() == 0
                && final(self).region == old(self).region)),
    {
        if self.active {
            return Err(RecordingError::AlreadyRecording);
        }
        match &self.region {
            None => Err(RecordingError::NoRegionSelected),
            Some(region) => {
                let r = region.clone();
                self.active = true;
                self.frames = Vec::new();
                Ok(r)
            },
        }
    }

    /// Appends a captured frame, but only while the session is active: a
    /// frame whose capture outlived the stop request is dropped. Returns
    /// the notification to publish, if any.
    pub fn append_frame(&mut self, frame: Frame) -> (r: Option<RecordingState>)
        requires
            old(self).wf(),
            frame.wf(),
            old(self).frames@.len() > 0 ==> frame.width == old(self).frames@[0].width
                && frame.height == old(self).frames@[0].height,
        ensures
            final(self).wf(),
            final(self).active == old(self).active,
            final(self).capture_fps == old(self).capture_fps,
            final(self).region == old(self).region,
            old(self).active ==> (final(self).frames@.len() == old(self).frames@.len() + 1
                && (forall|i: int|
                0 <= i < old(self).frames@.len() ==> #[trigger] final(self).frames@[i] == old(
                    self,
                ).frames@[i]) && frame_eq(final(self).frames@.last(), frame) && (r matches Some(n)
                && n.is_recording && n.frame_count == final(self).frames@.len())),
            !old(self).active ==> final(self).frames@ == old(self).frames@ && r is None,
    {
        if !self.active {
            return None;
        }
        self.frames.push(frame);
        Some(RecordingState { is_recording: true, frame_count: self.frames.len() })
    }

    /// Requests the loop to stop; the loop observes this at its next tick.
    pub fn stop(&mut self)
        requires
            old(self).wf(),
        ensures
            final(self).wf(),
            !final(self).active,
            final(self).frames@ == old(self).frames@,
            final(self).region == old(self).region,
            final(self).capture_fps == old(self).capture_fps,
    {
        self.active = false;
    }

    /// Drops all captured material.
    pub fn discard(&mut self)
        requires
            old(self).wf(),
        ensures
            final(self).wf(),
            final(self).frames@.len() == 0,
            final(self).active == old(self).active,
            final(self).region == old(self).region,
            final(self).capture_fps == old(self).capture_fps,
    {
        self.frames = Vec::new();
    }

    /// A summary of the captured material: count, dimensions, and the
    /// duration at the capture rate.
    pub fn info(&self) -> (r: RecordingInfo)
        requires
            self.wf(),
            self.frames@.len() * 1000 <= u64::MAX,
        ensures
            r.frame_count == self.frames@.len(),
            r.fps == self.capture_fps,
            r.has_frames == (self.frames@.len() > 0),
            self.frames@.len() > 0 ==> r.width == self.frames@[0].width && r.height
                == self.frames@[0].height,
            self.frames@.len() == 0 ==> r.width == 0 && r.height == 0,
            r.duration_ms == self.frames@.len() as int * 1000int / self.capture_fps as int,
    {
        let (width, height): (u32, u32) = if self.frames.len() > 0 {
            (self.frames[0].width, self.frames[0].height)
        } else {
            (0, 0)
        };
        let duration_ms: u64 = (self.frames.len() as u64) * 1000 / (self.capture_fps as u64);
        RecordingInfo {
            frame_count: self.frames.len(),
            width,
            height,
            fps: self.capture_fps,
            duration_ms,
            has_frames: self.frames.len() > 0,
        }
    }
}

/// The capture loop's tick interval in milliseconds.
pub fn frame_interval_ms(capture_fps: u32) -> (r: u64)
    requires
        capture_fps >= 1,
    ensures
        r == 1000int / capture_fps as int,
{
    1000 / (capture_fps as u64)
}

/// How long the loop sleeps after a tick: the remainder of the interval,
/// or nothing when the capture already took longer.
pub fn sleep_after_tick_ms(interval_ms: u64, elapsed_ms: u64) -> (r: u64)
    ensures
        elapsed_ms < interval_ms ==> r == interval_ms - elapsed_ms,
        elapsed_ms >= interval_ms ==> r == 0,
{
    if elapsed_ms < interval_ms {
        interval_ms - elapsed_ms
    } else {
        0
    }
}

} // verus!
