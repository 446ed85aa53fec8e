//! The bottom-line picker for a numeric setting. While it is open the
//! value moves within the setting's range and the screen previews it; only
//! a confirmed value reaches the settings.

use vstd::prelude::*;

use crate::config::{clamp, Config, ConfigView};

verus! {

/// The setting a slider adjusts.
#[derive(Debug, Clone, Copy, PartialEq, Eq, Structural)]
pub enum SliderTarget {
    FontSize,
    WordsPerLine,
}

impl SliderTarget {
    pub open spec fn spec_min(self) -> u8 {
        match self {
            SliderTarget::FontSize => 1,
            SliderTarget::WordsPerLine => 4,
        }
    }

    pub open spec fn spec_max(self) -> u8 {
        match self {
            SliderTarget::FontSize => 5,
            SliderTarget::WordsPerLine => 30,
        }
    }

    pub open spec fn spec_label(self) -> Seq<char> {
        match self {
            SliderTarget::FontSize => "font size"@,
            SliderTarget::WordsPerLine => "words per line"@,
        }
    }

    /// The setting's value in `c`.
    pub open spec fn current(self, c: ConfigView) -> u8 {
        match self {
            SliderTarget::FontSize => c.font_size,
            SliderTarget::WordsPerLine => c.words_per_line,
        }
    }

    /// `c` with the setting at `v`, kept in range.
    pub open spec fn applied(self, c: ConfigView, v: u8) -> ConfigView {
        match self {
            SliderTarget::FontSize => ConfigView { font_size: clamp(v, 1, 5), ..c },
            SliderTarget::WordsPerLine => ConfigView { words_per_line: clamp(v, 4, 30), ..c },
        }
    }

    /// The smallest value.
    pub fn min(self) -> (r: u8)
        ensures
            r == self.spec_min(),
    {
        match self {
            SliderTarget::FontSize => 1,
            SliderTarget::WordsPerLine => 4,
        }
    }

    /// The largest value.
    pub fn max(self) -> (r: u8)
        ensures
            r == self.spec_max(),
    {
        match self {
            SliderTarget::FontSize => 5,
            SliderTarget::WordsPerLine => 30,
        }
    }

    /// The name shown on the slider's line.
    pub fn label(self) -> (r: &'static str)
        ensures
            r@ == self.spec_label(),
    {
        match self {
            SliderTarget::FontSize => "font size",
            SliderTarget::WordsPerLine => "words per line",
        }
    }
}

/// An open slider: which setting and the value it shows.
#[derive(Debug, Clone, Copy, PartialEq, Eq, Structural)]
pub struct Slider {
    pub target: SliderTarget,
    pub value: u8,
}

/// The slider opened on `target` for the settings `c`: it starts at the
/// setting's value, brought into range.
pub open spec fn spec_opened(target: SliderTarget, c: ConfigView) -> Slider {
    Slider { target, value: clamp(target.current(c), target.spec_min(), target.spec_max()) }
}

/// The slider's value moved to `v`, kept in range.
pub open spec fn moved(s: Slider, v: int) -> Slider {
    Slider {
        target: s.target,
        value: if v < s.target.spec_min() {
            s.target.spec_min()
        } else if v > s.target.spec_max() {
            s.target.spec_max()
        } else {
            v as u8
        },
    }
}

impl Slider {
    /// The value lies in the setting's range.
    pub open spec fn wf(self) -> bool {
        self.target.spec_min() <= self.value <= self.target.spec_max()
    }

    /// A slider on `target` starting at the setting's value in `config`.
    pub fn open(target: SliderTarget, config: &Config) -> (s: Slider)
        ensures
            s == spec_opened(target, config@),
            s.wf(),
    {
        let cur = match target {
            SliderTarget::FontSize => config.font_size,
            SliderTarget::WordsPerLine => config.words_per_line,
        };
        let lo = target.min();
        let hi = target.max();
        let value = if cur < lo {
            lo
        } else if cur > hi {
            hi
        } else {
            cur
        };
        Slider { target, value }
    }

    pub fn min(&self) -> (r: u8)
        ensures
            r == self.target.spec_min(),
    {
        self.target.min()
    }

    pub fn max(&self) -> (r: u8)
        ensures
            r == self.target.spec_max(),
    {
        self.target.max()
    }

    /// One step down, stopping at the smallest value.
    pub fn dec(self) -> (r: Slider)
        ensures
            r == moved(self, self.value - 1),
    {
        let lo = self.target.min();
        let hi = self.target.max();
        let v = if self.value <= lo {
            lo
        } else if self.value - 1 > hi {
            hi
        } else {
            self.value - 1
        };
        Slider { target: self.target, value: v }
    }

    /// One step up, stopping at the largest value.
    pub fn inc(self) -> (r: Slider)
        ensures
            r == moved(self, self.value + 1),
    {
        let lo = self.target.min();
        let hi = self.target.max();
        let v = if self.value >= hi {
            hi
        } else if self.value + 1 < lo {
            lo
        } else {
            self.value + 1
        };
        Slider { target: self.target, value: v }
    }

    /// The settings with the slider's value applied.
    pub fn apply(self, config: &mut Config)
        ensures
            final(config)@ == self.target.applied(old(config)@, self.value),
    {
        match self.target {
            SliderTarget::FontSize => config.set_font_size(self.value),
            SliderTarget::WordsPerLine => config.set_words_per_line(self.value),
        }
    }
}

} // verus!
