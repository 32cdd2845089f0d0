//! The crosshair: when it shows, how it tightens when aiming, and how long
//! hit markers last.

use vstd::prelude::*;
use crate::input::CameraMode;

verus! {

/// The crosshair shows in first person only.
pub fn update_crosshair_visibility(mode: CameraMode) -> (visible: bool)
    ensures
        visible == (mode == CameraMode::FirstPerson),
{
    match mode {
        CameraMode::FirstPerson => true,
        CameraMode::ThirdPerson => false,
    }
}

/// The crosshair's shape in pixels.
#[derive(Clone, Copy, Debug, PartialEq, Eq, Structural)]
pub struct CrosshairLayout {
    /// Width and height of the centre dot.
    pub dot_size: u32,
    /// Distance of each line from the centre.
    pub line_offset: u32,
    /// Length of each line.
    pub line_length: u32,
    /// The reddish aiming colours instead of white.
    pub aiming_colors: bool,
}

/// The crosshair's shape from the hip or aiming down sights.
pub open spec fn crosshair_layout_spec(aiming: bool) -> CrosshairLayout {
    if aiming {
        CrosshairLayout { dot_size: 3, line_offset: 6, line_length: 6, aiming_colors: true }
    } else {
        CrosshairLayout { dot_size: 4, line_offset: 14, line_length: 8, aiming_colors: false }
    }
}

/// Aiming down sights draws a smaller, reddish dot and pulls the lines in
/// (6 px from the centre, 6 px long, against 14 and 8 from the hip).
pub fn update_crosshair_ads(aiming: bool) -> (l: CrosshairLayout)
    ensures
        l == crosshair_layout_spec(aiming),
{
    if aiming {
        CrosshairLayout { dot_size: 3, line_offset: 6, line_length: 6, aiming_colors: true }
    } else {
        CrosshairLayout { dot_size: 4, line_offset: 14, line_length: 8, aiming_colors: false }
    }
}

/// Aiming makes every part of the crosshair smaller and closer to the centre.
pub proof fn lemma_aiming_tightens()
    ensures
        crosshair_layout_spec(true).dot_size < crosshair_layout_spec(false).dot_size,
        crosshair_layout_spec(true).line_offset < crosshair_layout_spec(false).line_offset,
        crosshair_layout_spec(true).line_length < crosshair_layout_spec(false).line_length,
{
}

/// The aiming colours show exactly while aiming down sights.
pub proof fn lemma_aiming_colors_follow_aim(aiming: bool)
    ensures
        crosshair_layout_spec(aiming).aiming_colors == aiming,
{
}

} // verus!
