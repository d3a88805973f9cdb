use vstd::prelude::*;

verus! {

/// Full scale of the ADC readings (millivolts at 11 dB attenuation); raw
/// samples lie in `0..=MAX_MV_ATTEN_11`.
pub const MAX_MV_ATTEN_11: u16 = 2450;

/// The sample lies strictly inside the middle tenth of the ADC range
/// (45% to 55% of full scale): close enough to the waveform's zero to start
/// counting crossings from it.
pub open spec fn in_settle_band(sample: u16) -> bool {
    45 * (MAX_MV_ATTEN_11 as int) < 100 * sample && 100 * sample < 55 * (MAX_MV_ATTEN_11 as int)
}

/// Whether `sample` lies in the settle band.
pub fn is_in_settle_band(sample: u16) -> (r: bool)
    ensures
        r == in_settle_band(sample),
{
    let s = sample as u32;
    let full = MAX_MV_ATTEN_11 as u32;
    45 * full < 100 * s && 100 * s < 55 * full
}

/// Where a sampling window stands.
#[derive(Clone, Copy, Debug, PartialEq, Eq, Structural)]
pub enum WindowPhase {
    /// Waiting for a voltage sample near the waveform's zero.
    Settling,
    /// Counting samples and zero crossings.
    Integrating,
}

/// The integer state of a sampling window.
#[derive(Clone, Copy, Debug, PartialEq, Eq, Structural)]
pub struct WindowState {
    pub phase: WindowPhase,
    /// Zero crossings to integrate over.
    pub target: u32,
    /// Voltage sample that crossings are counted against.
    pub start_v: u16,
    /// Latest current and voltage samples (a failed read keeps the previous).
    pub sample_i: u16,
    pub sample_v: u16,
    /// The latest voltage sample lies above `start_v`.
    pub above: bool,
    pub cross_count: u32,
    pub n_samples: u32,
    /// Extremes of the samples that were taken while the channel was quiet.
    pub min_i: u16,
    pub max_i: u16,
    pub min_v: u16,
    pub max_v: u16,
}

impl WindowState {
    /// A window never counts more crossings than samples.
    pub open spec fn wf(self) -> bool {
        self.cross_count <= self.n_samples
    }
}

/// The integer side of one sampling window of a phase unit: settling on a
/// start sample, then counting samples and zero crossings of the voltage
/// against it, keeping the latest samples and the extremes of the quiet
/// ones. The floating-point filtering runs beside it, on the samples that it
/// keeps.
pub struct SampleWindow {
    state: WindowState,
}

impl View for SampleWindow {
    type V = WindowState;

    closed spec fn view(&self) -> WindowState {
        self.state
    }
}

/// The value of a read that may have failed: a failed read keeps the
/// previous sample.
pub open spec fn sample_or(read: Option<u16>, previous: u16) -> u16 {
    match read {
        Some(s) => s,
        None => previous,
    }
}

impl SampleWindow {
    /// A window that integrates over `target` zero crossings, still settling,
    /// with no sample taken yet.
    pub fn new(target: u32) -> (r: SampleWindow)
        ensures
            r@.wf(),
            r@ == (WindowState {
                phase: WindowPhase::Settling,
                target,
                start_v: 0,
                sample_i: 0,
                sample_v: 0,
                above: false,
                cross_count: 0,
                n_samples: 0,
                min_i: MAX_MV_ATTEN_11,
                max_i: 0,
                min_v: MAX_MV_ATTEN_11,
                max_v: 0,
            }),
    {
        SampleWindow {
            state: WindowState {
                phase: WindowPhase::Settling,
                target,
                start_v: 0,
                sample_i: 0,
                sample_v: 0,
                above: false,
                cross_count: 0,
                n_samples: 0,
                min_i: MAX_MV_ATTEN_11,
                max_i: 0,
                min_v: MAX_MV_ATTEN_11,
                max_v: 0,
            },
        }
    }

    /// Whether the window has left the settle phase.
    pub fn is_settled(&self) -> (r: bool)
        ensures
            r == (self@.phase == WindowPhase::Integrating),
    {
        self.state.phase == WindowPhase::Integrating
    }

    /// One settle step with a voltage read (`None` where it failed) and
    /// whether the timeout has passed. The read, or the previous start
    /// sample where it failed, becomes the start sample; the window starts
    /// integrating once that sample is in the settle band, or once the
    /// timeout has passed, whatever was read.
    pub fn settle(&mut self, read_v: Option<u16>, timed_out: bool)
        requires
            old(self)@.phase == WindowPhase::Settling,
        ensures
            final(self)@ == (WindowState {
                start_v: sample_or(read_v, old(self)@.start_v),
                phase: if in_settle_band(sample_or(read_v, old(self)@.start_v)) || timed_out {
                    WindowPhase::Integrating
                } else {
                    WindowPhase::Settling
                },
                ..old(self)@
            }),
            timed_out ==> final(self)@.phase == WindowPhase::Integrating,
    {
        if let Some(s) = read_v {
            self.state.start_v = s;
        }
        if is_in_settle_band(self.state.start_v) || timed_out {
            self.state.phase = WindowPhase::Integrating;
        }
    }

    /// Whether to take another pair of samples: only while integrating, the
    /// crossing target is not reached, the timeout has not passed and the
    /// sample count can still grow. Once the timeout has passed the answer is
    /// no, so a window outlasts its timeout by at most one step.
    pub fn keeps_sampling(&self, timed_out: bool) -> (r: bool)
        ensures
            r == (self@.phase == WindowPhase::Integrating && self@.cross_count < self@.target
                && !timed_out && self@.n_samples < u32::MAX),
            timed_out ==> !r,
    {
        self.state.phase == WindowPhase::Integrating && self.state.cross_count < self.state.target
            && !timed_out && self.state.n_samples < u32::MAX
    }

    /// Takes one pair of reads (`None` where a read failed, which keeps the
    /// previous sample) and counts it. A crossing is counted where the
    /// voltage sample moves to the other side of the start sample; the
    /// first sample of the window never counts as one.
    pub fn take_samples(&mut self, read_i: Option<u16>, read_v: Option<u16>)
        requires
            old(self)@.wf(),
            old(self)@.n_samples < u32::MAX,
        ensures
            final(self)@.wf(),
            final(self)@ == (WindowState {
                sample_i: sample_or(read_i, old(self)@.sample_i),
                sample_v: sample_or(read_v, old(self)@.sample_v),
                above: sample_or(read_v, old(self)@.sample_v) > old(self)@.start_v,
                cross_count: if old(self)@.n_samples > 0 && old(self)@.above != (sample_or(
                    read_v,
                    old(self)@.sample_v,
                ) > old(self)@.start_v) {
                    (old(self)@.cross_count + 1) as u32
                } else {
                    old(self)@.cross_count
                },
                n_samples: (old(self)@.n_samples + 1) as u32,
                ..old(self)@
            }),
    {
        if let Some(s) = read_i {
            self.state.sample_i = s;
        }
        if let Some(s) = read_v {
            self.state.sample_v = s;
        }
        let above = self.state.sample_v > self.state.start_v;
        if self.state.n_samples > 0 && above != self.state.above {
            self.state.cross_count = self.state.cross_count + 1;
        }
        self.state.above = above;
        self.state.n_samples = self.state.n_samples + 1;
    }

    /// Widens each channel's extremes to its latest sample where that
    /// channel was quiet (its filtered value moved less than the noise
    /// threshold since the previous sample); a noisy sample leaves them.
    pub fn track_extremes(&mut self, quiet_i: bool, quiet_v: bool)
        ensures
            final(self)@ == (WindowState {
                min_i: if quiet_i && old(self)@.sample_i < old(self)@.min_i {
                    old(self)@.sample_i
                } else {
                    old(self)@.min_i
                },
                max_i: if quiet_i && old(self)@.sample_i > old(self)@.max_i {
                    old(self)@.sample_i
                } else {
                    old(self)@.max_i
                },
                min_v: if quiet_v && old(self)@.sample_v < old(self)@.min_v {
                    old(self)@.sample_v
                } else {
                    old(self)@.min_v
                },
                max_v: if quiet_v && old(self)@.sample_v > old(self)@.max_v {
                    old(self)@.sample_v
                } else {
                    old(self)@.max_v
                },
                ..old(self)@
            }),
    {
        if quiet_i {
            if self.state.sample_i < self.state.min_i {
                self.state.min_i = self.state.sample_i;
            }
            if self.state.sample_i > self.state.max_i {
                self.state.max_i = self.state.sample_i;
            }
        }
        if quiet_v {
            if self.state.sample_v < self.state.min_v {
                self.state.min_v = self.state.sample_v;
            }
            if self.state.sample_v > self.state.max_v {
                self.state.max_v = self.state.sample_v;
            }
        }
    }

    /// The window's integer state.
    pub fn state(&self) -> (r: WindowState)
        ensures
            r == self@,
    {
        self.state
    }

    /// Twice the midpoint of the current channel's quiet extremes.
    pub fn extremes_sum_i(&self) -> (r: u32)
        ensures
            r == self@.min_i + self@.max_i,
    {
        self.state.min_i as u32 + self.state.max_i as u32
    }

    /// Twice the midpoint of the voltage channel's quiet extremes.
    pub fn extremes_sum_v(&self) -> (r: u32)
        ensures
            r == self@.min_v + self@.max_v,
    {
        self.state.min_v as u32 + self.state.max_v as u32
    }
}

} // verus!
