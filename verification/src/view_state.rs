//! The two settings that the sliders of the window control.
//!
//! Both are fixed-point numbers in thousandths: a rotation of 90 degrees is
//! `90_000`, a scale factor of one is `1_000`. The settings are kept and
//! bounded here; no drawing reads them, so moving a slider changes the state
//! and leaves the frame as it was.

use vstd::prelude::*;

verus! {

/// How many units make one degree of rotation, or a scale factor of one.
pub const UNIT: i64 = 1_000;

/// The greatest rotation: 180 degrees.
pub const ROTATION_MAX: i64 = 180_000;

/// The greatest scale factor: 100.
pub const SCALE_MAX: i64 = 100_000;

/// Which of the two sliders.
#[derive(Clone, Copy, Debug, PartialEq, Eq, Structural)]
pub enum SliderKind {
    Rotation,
    Scale,
}

/// What a slider shows in one frame: its value between its two ends.
#[derive(Clone, Copy, Debug, PartialEq, Eq, Structural)]
pub struct Slider {
    pub kind: SliderKind,
    pub value: i64,
    pub min: i64,
    pub max: i64,
}

/// `value` brought into `min..=max`: values below go to `min`, values above
/// to `max`.
pub open spec fn clamped(value: int, min: int, max: int) -> int {
    if value < min {
        min
    } else if value > max {
        max
    } else {
        value
    }
}

/// A clamped value lies in the range, and a value in the range is left as it
/// is.
pub proof fn lemma_clamped_stays_in_range(value: int, min: int, max: int)
    requires
        min <= max,
    ensures
        min <= clamped(value, min, max) <= max,
        min <= value <= max ==> clamped(value, min, max) == value,
{
}

impl SliderKind {
    /// The greatest value of the slider; the least is 0 for both.
    pub open spec fn spec_upper(self) -> int {
        match self {
            SliderKind::Rotation => ROTATION_MAX as int,
            SliderKind::Scale => SCALE_MAX as int,
        }
    }

    /// The greatest value of the slider; the least is 0 for both.
    pub fn upper(self) -> (max: i64)
        ensures
            max == self.spec_upper(),
    {
        match self {
            SliderKind::Rotation => ROTATION_MAX,
            SliderKind::Scale => SCALE_MAX,
        }
    }

    /// The text shown on the slider.
    pub fn label(self) -> (text: &'static str)
        ensures
            text@ == match self {
                SliderKind::Rotation => "rotation"@,
                SliderKind::Scale => "scale"@,
            },
    {
        match self {
            SliderKind::Rotation => "rotation",
            SliderKind::Scale => "scale",
        }
    }
}

/// The rotation and the scale factor, each within the range of its slider.
#[derive(Clone, Copy, Debug, PartialEq, Eq)]
pub struct ViewState {
    rotation: i64,
    scale: i64,
}

impl ViewState {
    #[verifier::type_invariant]
    spec fn in_range(self) -> bool {
        &&& 0 <= self.rotation <= ROTATION_MAX
        &&& 0 <= self.scale <= SCALE_MAX
    }

    /// The rotation, in thousandths of a degree.
    pub closed spec fn rotation_value(self) -> int {
        self.rotation as int
    }

    /// The scale factor, in thousandths.
    pub closed spec fn scale_value(self) -> int {
        self.scale as int
    }

    /// The value that the slider of this kind stands for.
    pub open spec fn value_of(self, kind: SliderKind) -> int {
        match kind {
            SliderKind::Rotation => self.rotation_value(),
            SliderKind::Scale => self.scale_value(),
        }
    }

    /// The state at start: no rotation, a scale factor of one.
    pub fn new() -> (state: ViewState)
        ensures
            state.rotation_value() == 0,
            state.scale_value() == UNIT,
    {
        ViewState { rotation: 0, scale: UNIT }
    }

    /// The rotation, in thousandths of a degree: from 0 to 180 degrees.
    pub fn rotation(&self) -> (rotation: i64)
        ensures
            rotation == self.rotation_value(),
            0 <= rotation <= ROTATION_MAX,
    {
        proof {
            use_type_invariant(self);
        }
        self.rotation
    }

    /// The scale factor, in thousandths: from 0 to 100.
    pub fn scale(&self) -> (scale: i64)
        ensures
            scale == self.scale_value(),
            0 <= scale <= SCALE_MAX,
    {
        proof {
            use_type_invariant(self);
        }
        self.scale
    }

    /// What the slider of this kind shows: the current value, between 0 and
    /// the greatest value of the slider.
    pub fn slider(&self, kind: SliderKind) -> (slider: Slider)
        ensures
            slider.kind == kind,
            slider.value == self.value_of(kind),
            slider.min == 0,
            slider.max == kind.spec_upper(),
            slider.min <= slider.value <= slider.max,
    {
        let value: i64 = match kind {
            SliderKind::Rotation => self.rotation(),
            SliderKind::Scale => self.scale(),
        };
        Slider { kind, value, min: 0, max: kind.upper() }
    }

    /// Takes over the value that a slider reports. The value is written at
    /// once; one outside the slider's range is first brought to the nearer
    /// end. The other setting stays as it is.
    pub fn set(&mut self, kind: SliderKind, value: i64)
        ensures
            final(self).value_of(kind) == clamped(value as int, 0, kind.spec_upper()),
            kind == SliderKind::Rotation ==> final(self).scale_value() == old(self).scale_value(),
            kind == SliderKind::Scale ==> final(self).rotation_value() == old(
                self,
            ).rotation_value(),
    {
        proof {
            use_type_invariant(&*self);
        }
        let max: i64 = kind.upper();
        let bounded: i64 = if value < 0 {
            0
        } else if value > max {
            max
        } else {
            value
        };
        match kind {
            SliderKind::Rotation => {
                self.rotation = bounded;
            },
            SliderKind::Scale => {
                self.scale = bounded;
            },
        }
    }
}

} // verus!
