//! The editing tools and the crop settings with their aspect-ratio presets.

use vstd::prelude::*;

verus! {

/// The tool shown in the tool panel.
#[derive(Clone, Copy, Debug, PartialEq, Eq, Structural)]
pub enum ActiveTool {
    Convert,
    Trim,
    Crop,
    Concat,
    Filters,
}

impl ActiveTool {
    pub fn all() -> (r: Vec<ActiveTool>)
        ensures
            r@ == seq![ActiveTool::Convert, ActiveTool::Trim, ActiveTool::Crop, ActiveTool::Concat, ActiveTool::Filters],
    {
        vec![ActiveTool::Convert, ActiveTool::Trim, ActiveTool::Crop, ActiveTool::Concat, ActiveTool::Filters]
    }

    pub fn name(&self) -> (r: &'static str)
        ensures
            r@ == match self {
                ActiveTool::Convert => "Convert"@,
                ActiveTool::Trim => "Trim"@,
                ActiveTool::Crop => "Crop"@,
                ActiveTool::Concat => "Concat"@,
                ActiveTool::Filters => "Filters"@,
            },
    {
        match self {
            ActiveTool::Convert => "Convert",
            ActiveTool::Trim => "Trim",
            ActiveTool::Crop => "Crop",
            ActiveTool::Concat => "Concat",
            ActiveTool::Filters => "Filters",
        }
    }

    pub fn description(&self) -> (r: &'static str)
        ensures
            r@ == match self {
                ActiveTool::Convert => "Convert video/audio to different formats"@,
                ActiveTool::Trim => "Cut a segment from video"@,
                ActiveTool::Crop => "Crop video to a region"@,
                ActiveTool::Concat => "Join multiple files together"@,
                ActiveTool::Filters => "Apply video/audio filters"@,
            },
    {
        match self {
            ActiveTool::Convert => "Convert video/audio to different formats",
            ActiveTool::Trim => "Cut a segment from video",
            ActiveTool::Crop => "Crop video to a region",
            ActiveTool::Concat => "Join multiple files together",
            ActiveTool::Filters => "Apply video/audio filters",
        }
    }
}

/// Aspect ratio a crop is held to.
#[derive(Clone, Copy, Debug, PartialEq, Eq, Structural)]
pub enum CropPreset {
    Free,
    Ratio16x9,
    Ratio4x3,
    Ratio1x1,
    Ratio9x16,
}

impl CropPreset {
    pub fn all() -> (r: Vec<CropPreset>)
        ensures
            r@ == seq![
                CropPreset::Free,
                CropPreset::Ratio16x9,
                CropPreset::Ratio4x3,
                CropPreset::Ratio1x1,
                CropPreset::Ratio9x16,
            ],
    {
        vec![
            CropPreset::Free,
            CropPreset::Ratio16x9,
            CropPreset::Ratio4x3,
            CropPreset::Ratio1x1,
            CropPreset::Ratio9x16,
        ]
    }

    pub fn name(&self) -> (r: &'static str)
        ensures
            r@ == match self {
                CropPreset::Free => "Free"@,
                CropPreset::Ratio16x9 => "16:9"@,
                CropPreset::Ratio4x3 => "4:3"@,
                CropPreset::Ratio1x1 => "1:1"@,
                CropPreset::Ratio9x16 => "9:16"@,
            },
    {
        match self {
            CropPreset::Free => "Free",
            CropPreset::Ratio16x9 => "16:9",
            CropPreset::Ratio4x3 => "4:3",
            CropPreset::Ratio1x1 => "1:1",
            CropPreset::Ratio9x16 => "9:16",
        }
    }
}

/// A crop region of `width` x `height` pixels at `(x, y)`.
#[derive(Clone, Copy, Debug, PartialEq, Eq, Structural)]
pub struct CropSettings {
    pub x: u32,
    pub y: u32,
    pub width: u32,
    pub height: u32,
    pub preset: CropPreset,
}

/// The largest `(width, height)` of ratio `rw:rh` (rounded down) that fits
/// a `sw` x `sh` source, keeping the full height when the width allows it.
pub open spec fn fit_landscape(sw: int, sh: int, rw: int, rh: int) -> (int, int) {
    if sh * rw / rh <= sw {
        (sh * rw / rh, sh)
    } else {
        (sw, sw * rh / rw)
    }
}

/// Size of the largest centred region of the preset's ratio in a
/// `sw` x `sh` source.
pub open spec fn crop_target(preset: CropPreset, sw: int, sh: int) -> (int, int) {
    match preset {
        CropPreset::Free => (sw, sh),
        CropPreset::Ratio16x9 => fit_landscape(sw, sh, 16, 9),
        CropPreset::Ratio4x3 => fit_landscape(sw, sh, 4, 3),
        CropPreset::Ratio1x1 => if sw <= sh {
            (sw, sw)
        } else {
            (sh, sh)
        },
        CropPreset::Ratio9x16 => if sw * 16 / 9 <= sh {
            (sw, sw * 16 / 9)
        } else {
            (sh * 9 / 16, sh)
        },
    }
}

proof fn lemma_fit(sw: int, sh: int, rw: int, rh: int)
    requires
        sw >= 0,
        sh >= 0,
        rw > 0,
        rh > 0,
    ensures
        0 <= fit_landscape(sw, sh, rw, rh).0 <= sw,
        0 <= fit_landscape(sw, sh, rw, rh).1 <= sh,
{
    if sh * rw / rh > sw {
        assert(sw * rh / rw <= sh) by (nonlinear_arith)
            requires sh * rw / rh > sw, sw >= 0, sh >= 0, rw > 0, rh > 0;
        assert(sw * rh / rw >= 0) by (nonlinear_arith)
            requires sw >= 0, rw > 0, rh > 0;
    } else {
        assert(sh * rw / rh >= 0) by (nonlinear_arith)
            requires sh >= 0, rw > 0, rh > 0;
    }
}

fn fit(sw: u32, sh: u32, rw: u64, rh: u64) -> (r: (u32, u32))
    requires
        0 < rw <= 16,
        0 < rh <= 16,
    ensures
        r.0 == fit_landscape(sw as int, sh as int, rw as int, rh as int).0,
        r.1 == fit_landscape(sw as int, sh as int, rw as int, rh as int).1,
{
    proof {
        lemma_fit(sw as int, sh as int, rw as int, rh as int);
        let (a, b, c, d) = (sw as int, sh as int, rw as int, rh as int);
        assert(b * c <= 16 * u32::MAX) by (nonlinear_arith)
            requires 0 <= b <= u32::MAX, 0 < c <= 16;
        assert(a * d <= 16 * u32::MAX) by (nonlinear_arith)
            requires 0 <= a <= u32::MAX, 0 < d <= 16;
    }
    let w: u64 = sh as u64 * rw / rh;
    if w <= sw as u64 {
        (w as u32, sh)
    } else {
        (sw, (sw as u64 * rh / rw) as u32)
    }
}

impl Default for CropSettings {
    /// A free 1920 x 1080 region at the origin.
    fn default() -> (r: CropSettings)
        ensures
            r == (CropSettings { x: 0, y: 0, width: 1920, height: 1080, preset: CropPreset::Free }),
    {
        CropSettings { x: 0, y: 0, width: 1920, height: 1080, preset: CropPreset::Free }
    }
}

impl CropSettings {
    /// Records `preset` and, unless it is free, sets the region to the
    /// largest centred one of its ratio in a `source_width` x
    /// `source_height` source. Sizes are rounded down.
    pub fn apply_preset(&mut self, preset: CropPreset, source_width: u32, source_height: u32)
        ensures
            final(self).preset == preset,
            preset == CropPreset::Free ==> final(self).x == old(self).x && final(self).y == old(self).y
                && final(self).width == old(self).width && final(self).height == old(self).height,
            preset != CropPreset::Free ==> ({
                let (w, h) = crop_target(preset, source_width as int, source_height as int);
                &&& final(self).width == w
                &&& final(self).height == h
                &&& final(self).x == (source_width - w) / 2
                &&& final(self).y == (source_height - h) / 2
            }),
    {
        self.preset = preset;
        let (w, h): (u32, u32) = match preset {
            CropPreset::Free => {
                return;
            },
            CropPreset::Ratio16x9 => fit(source_width, source_height, 16, 9),
            CropPreset::Ratio4x3 => fit(source_width, source_height, 4, 3),
            CropPreset::Ratio1x1 => if source_width <= source_height {
                (source_width, source_width)
            } else {
                (source_height, source_height)
            },
            CropPreset::Ratio9x16 => {
                let (hh, ww) = fit(source_height, source_width, 16, 9);
                proof {
                    let (sw, sh) = (source_width as int, source_height as int);
                    assert(sw * 16 / 9 <= sh <==> fit_landscape(sh, sw, 16, 9).1 == sw);
                }
                (ww, hh)
            },
        };
        self.width = w;
        self.height = h;
        self.x = (source_width - w) / 2;
        self.y = (source_height - h) / 2;
    }
}

} // verus!
