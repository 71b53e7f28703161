use vstd::prelude::*;

verus! {

/// The size in pixels of the surface the frames are drawn into. Neither
/// side is ever zero: the GPU refuses a zero-sized surface.
#[derive(Clone, Copy, Debug, PartialEq, Eq, Structural)]
pub struct SurfaceSize {
    pub width: u32,
    pub height: u32,
}

impl SurfaceSize {
    /// Both sides are at least one pixel.
    pub open spec fn wf(self) -> bool {
        self.width >= 1 && self.height >= 1
    }

    /// The surface size for a window of the given inner size: each side
    /// is raised to at least one pixel.
    pub fn for_window(width: u32, height: u32) -> (s: SurfaceSize)
        ensures
            s.width == (if width == 0 { 1 } else { width }),
            s.height == (if height == 0 { 1 } else { height }),
            s.wf(),
    {
        SurfaceSize {
            width: if width == 0 { 1 } else { width },
            height: if height == 0 { 1 } else { height },
        }
    }

    /// Takes the new window size. A size with a zero side (a minimised
    /// window) is ignored and `false` returned; otherwise the surface takes
    /// the new size and `true` says it must be reconfigured.
    pub fn resize(&mut self, width: u32, height: u32) -> (changed: bool)
        ensures
            changed == (width != 0 && height != 0),
            changed ==> *final(self) == (SurfaceSize { width, height }),
            !changed ==> *final(self) == *old(self),
            old(self).wf() ==> final(self).wf(),
    {
        if width == 0 || height == 0 {
            return false;
        }
        self.width = width;
        self.height = height;
        true
    }
}

/// What acquiring the next frame's texture from the surface gave.
#[derive(Clone, Copy, Debug, PartialEq, Eq, Structural)]
pub enum SurfaceStatus {
    /// A texture that matches the surface.
    Success,
    /// A usable texture, but the surface no longer matches its settings.
    Suboptimal,
    /// No texture could be had in time.
    Timeout,
    /// The window is hidden or minimised.
    Occluded,
    /// The surface settings are out of date.
    Outdated,
    /// The surface was lost.
    Lost,
    /// A validation error was raised while acquiring.
    Validation,
}

/// How a frame proceeds after acquiring its texture.
#[derive(Clone, Copy, Debug, PartialEq, Eq, Structural)]
pub struct FrameAction {
    /// Reapply the surface settings.
    pub reconfigure: bool,
    /// Draw and present this frame; otherwise the frame is skipped.
    pub draw: bool,
    /// Report the validation error.
    pub report_error: bool,
}

/// The recovery for each outcome of acquiring a frame: a usable texture is
/// drawn (a suboptimal one after reconfiguring the surface); an outdated or
/// lost surface is reconfigured and the frame skipped; a hidden window or a
/// timeout skips the frame; a validation error is reported and the frame
/// skipped.
pub fn frame_action(status: SurfaceStatus) -> (a: FrameAction)
    ensures
        a.draw == (status == SurfaceStatus::Success || status == SurfaceStatus::Suboptimal),
        a.reconfigure == (status == SurfaceStatus::Suboptimal || status == SurfaceStatus::Outdated
            || status == SurfaceStatus::Lost),
        a.report_error == (status == SurfaceStatus::Validation),
{
    match status {
        SurfaceStatus::Success => FrameAction { reconfigure: false, draw: true, report_error: false },
        SurfaceStatus::Suboptimal => FrameAction { reconfigure: true, draw: true, report_error: false },
        SurfaceStatus::Outdated | SurfaceStatus::Lost => FrameAction {
            reconfigure: true,
            draw: false,
            report_error: false,
        },
        SurfaceStatus::Occluded | SurfaceStatus::Timeout => FrameAction {
            reconfigure: false,
            draw: false,
            report_error: false,
        },
        SurfaceStatus::Validation => FrameAction {
            reconfigure: false,
            draw: false,
            report_error: true,
        },
    }
}

/// The index of the first surface format that is sRGB, or 0 when none is.
pub open spec fn preferred_format(srgb: Seq<bool>) -> int {
    if exists|i: int| 0 <= i < srgb.len() && srgb[i] {
        choose|i: int| 0 <= i < srgb.len() && srgb[i] && forall|j: int| 0 <= j < i ==> !srgb[j]
    } else {
        0
    }
}

/// Picks the surface format among those the surface supports, given for
/// each whether it is sRGB: the first sRGB one, so that colors match what
/// tools assuming sRGB show, or else the first format listed.
pub fn pick_format(srgb: &Vec<bool>) -> (i: usize)
    requires
        srgb.len() > 0,
    ensures
        i < srgb.len(),
        i == preferred_format(srgb@),
        (exists|j: int| 0 <= j < srgb.len() && srgb@[j]) ==> srgb@[i as int] && forall|j: int|
            0 <= j < i ==> !srgb@[j],
        (forall|j: int| 0 <= j < srgb.len() ==> !srgb@[j]) ==> i == 0,
{
    let mut k: usize = 0;
    while k < srgb.len()
        invariant
            k <= srgb.len(),
            forall|j: int| 0 <= j < k ==> !srgb@[j],
        decreases srgb.len() - k,
    {
        if srgb[k] {
            assert(forall|m: int|
                0 <= m < srgb@.len() && srgb@[m] && (forall|j: int| 0 <= j < m ==> !srgb@[j])
                    ==> m == k);
            return k;
        }
        k = k + 1;
    }
    0
}

} // verus!
