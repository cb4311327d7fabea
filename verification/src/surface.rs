//! Surface configuration and lifecycle decisions.
//!
//! The device context owns the presentable surface. At startup it negotiates
//! a configuration from the adapter's advertised capabilities, preferring an
//! sRGB-capable format; at runtime it decides which present failures are
//! recoverable by reconfiguring and which frames must be skipped outright.

use vstd::prelude::*;

verus! {

/// One surface format the adapter advertises: an opaque backend code plus
/// whether the format is sRGB-capable.
#[derive(Clone, Copy, Debug, PartialEq, Eq, Structural)]
pub struct SurfaceFormat {
    /// Backend-defined identifier; the shell maps it back to the concrete
    /// format value.
    pub code: u32,
    /// Whether the format applies sRGB encoding.
    pub srgb: bool,
}

/// Surface configuration applied on creation and after every resize.
#[derive(Clone, Copy, Debug, PartialEq, Eq, Structural)]
pub struct SurfaceConfig {
    /// Negotiated surface format.
    pub format: SurfaceFormat,
    /// Surface width in pixels; always positive.
    pub width: u32,
    /// Surface height in pixels; always positive.
    pub height: u32,
    /// Backend code of the present mode in use.
    pub present_mode: u32,
    /// Backend code of the alpha compositing mode in use.
    pub alpha_mode: u32,
}

impl SurfaceConfig {
    /// A zero-size configuration is undefined behavior on most backends and
    /// must be rejected before reaching this layer.
    pub open spec fn wf(self) -> bool {
        self.width > 0 && self.height > 0
    }
}

/// Does any advertised format apply sRGB encoding?
pub open spec fn has_srgb(formats: Seq<SurfaceFormat>) -> bool {
    exists|i: int| 0 <= i < formats.len() && (#[trigger] formats[i]).srgb
}

/// Index of the first sRGB-capable format (meaningful only when one exists).
pub open spec fn first_srgb_index(formats: Seq<SurfaceFormat>) -> int
    decreases formats.len(),
{
    if formats.len() == 0 {
        0
    } else if formats[0].srgb {
        0
    } else {
        1 + first_srgb_index(formats.drop_first())
    }
}

/// The format the negotiation picks: the first sRGB-capable format, falling
/// back to the first advertised format when none is sRGB.
pub open spec fn preferred_format(formats: Seq<SurfaceFormat>) -> SurfaceFormat {
    if has_srgb(formats) {
        formats[first_srgb_index(formats)]
    } else {
        formats[0]
    }
}

/// If the formats before `i` are not sRGB and the one at `i` is, then `i` is
/// the first sRGB index.
proof fn lemma_first_srgb_index(formats: Seq<SurfaceFormat>, i: int)
    requires
        0 <= i < formats.len(),
        formats[i].srgb,
        forall|k: int| 0 <= k < i ==> !(#[trigger] formats[k]).srgb,
    ensures
        first_srgb_index(formats) == i,
    decreases i,
{
    if i > 0 {
        lemma_first_srgb_index(formats.drop_first(), i - 1);
    }
}

/// Pick the surface format: the first sRGB-capable one, else the first
/// advertised one.
pub fn choose_format(formats: &Vec<SurfaceFormat>) -> (r: SurfaceFormat)
    requires
        formats@.len() > 0,
    ensures
        r == preferred_format(formats@),
{
    let mut i: usize = 0;
    while i < formats.len()
        invariant
            0 <= i <= formats@.len(),
            forall|k: int| 0 <= k < i ==> !(#[trigger] formats@[k]).srgb,
        decreases formats@.len() - i,
    {
        if formats[i].srgb {
            proof {
                lemma_first_srgb_index(formats@, i as int);
            }
            return formats[i];
        }
        i = i + 1;
    }
    formats[0]
}

/// Negotiate the initial surface configuration from the adapter's
/// capability lists: sRGB-preferred format, the first advertised present
/// and alpha modes, and the window's pixel size.
pub fn negotiate_config(
    formats: &Vec<SurfaceFormat>,
    present_modes: &Vec<u32>,
    alpha_modes: &Vec<u32>,
    width: u32,
    height: u32,
) -> (c: SurfaceConfig)
    requires
        formats@.len() > 0,
        present_modes@.len() > 0,
        alpha_modes@.len() > 0,
        width > 0,
        height > 0,
    ensures
        c.wf(),
        c.format == preferred_format(formats@),
        c.width == width,
        c.height == height,
        c.present_mode == present_modes@[0],
        c.alpha_mode == alpha_modes@[0],
{
    SurfaceConfig {
        format: choose_format(formats),
        width,
        height,
        present_mode: present_modes[0],
        alpha_mode: alpha_modes[0],
    }
}

/// Failure reported when presenting an acquired frame.
#[derive(Clone, Copy, Debug, PartialEq, Eq, Structural)]
pub enum SurfaceError {
    /// The surface was lost and must be re-created.
    Lost,
    /// The surface no longer matches the window and must be reconfigured.
    Outdated,
    /// The device is out of memory.
    OutOfMemory,
    /// Acquiring the next frame timed out.
    Timeout,
    /// Any other backend failure.
    Other,
}

/// What the caller must do about a present failure.
#[derive(Clone, Copy, Debug, PartialEq, Eq, Structural)]
pub enum RecoveryAction {
    /// Reapply the surface configuration and retry on the next tick.
    Reconfigure,
    /// Report the failure upward; the frame is lost, no retry.
    Report,
}

/// The recovery a present failure calls for: lost and outdated surfaces are
/// recovered by reconfiguring, every other failure is reported upward.
pub open spec fn recovery_spec(e: SurfaceError) -> RecoveryAction {
    match e {
        SurfaceError::Lost => RecoveryAction::Reconfigure,
        SurfaceError::Outdated => RecoveryAction::Reconfigure,
        SurfaceError::OutOfMemory => RecoveryAction::Report,
        SurfaceError::Timeout => RecoveryAction::Report,
        SurfaceError::Other => RecoveryAction::Report,
    }
}

/// Decide how to handle a present failure.
pub fn present_recovery(e: SurfaceError) -> (r: RecoveryAction)
    ensures
        r == recovery_spec(e),
{
    match e {
        SurfaceError::Lost => RecoveryAction::Reconfigure,
        SurfaceError::Outdated => RecoveryAction::Reconfigure,
        SurfaceError::OutOfMemory => RecoveryAction::Report,
        SurfaceError::Timeout => RecoveryAction::Report,
        SurfaceError::Other => RecoveryAction::Report,
    }
}

/// Whether a render tick should run at all: a minimized or zero-size window
/// skips the whole tick, so a zero-dimension surface is never configured or
/// acquired.
pub fn should_render(minimized: bool, width: u32, height: u32) -> (r: bool)
    ensures
        r <==> (!minimized && width > 0 && height > 0),
{
    !minimized && width > 0 && height > 0
}

} // verus!
