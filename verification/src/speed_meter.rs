//! The throughput meter of a device: a sliding window over the most recent
//! batches, each kept as its size and the time it took.
//!
//! Times are milliseconds on a clock that the caller reads. The rate of a
//! sample is its size over its time; the meter keeps both numbers and leaves
//! the division to the caller.

use vstd::prelude::*;

verus! {

/// One completed batch.
#[derive(Debug, Clone, Copy, PartialEq, Eq, Structural)]
pub struct Sample {
    /// How many candidates the batch held.
    pub size: usize,
    /// How long the batch took, in milliseconds. Never 0 in a kept sample.
    pub elapsed_ms: u128,
}

/// What a meter holds.
pub struct SpeedMeterView {
    /// The most samples that the window keeps.
    pub sample_count: usize,
    /// When the last batch was logged, or the meter was reset.
    pub last_sample_ms: u128,
    /// The window, oldest sample first.
    pub samples: Seq<Sample>,
}

pub struct SpeedMeter {
    sample_count: usize,
    last_sample_ms: u128,
    samples: Vec<Sample>,
}

/// The window after `sample` came in: the sample is added at the end, and
/// the oldest one leaves where that makes more than `sample_count`.
pub open spec fn window_after(window: Seq<Sample>, sample_count: usize, sample: Sample) -> Seq<
    Sample,
> {
    let grown = window.push(sample);
    if grown.len() > sample_count {
        grown.drop_first()
    } else {
        grown
    }
}

/// The time between two readings of the clock; 0 where the clock went back.
pub open spec fn elapsed_between(earlier_ms: u128, later_ms: u128) -> u128 {
    if later_ms >= earlier_ms {
        (later_ms - earlier_ms) as u128
    } else {
        0
    }
}

impl View for SpeedMeter {
    type V = SpeedMeterView;

    closed spec fn view(&self) -> SpeedMeterView {
        SpeedMeterView {
            sample_count: self.sample_count,
            last_sample_ms: self.last_sample_ms,
            samples: self.samples@,
        }
    }
}

impl SpeedMeterView {
    /// The window holds no more than `sample_count` samples, and none that
    /// took no time.
    pub open spec fn wf(self) -> bool {
        &&& self.samples.len() <= self.sample_count
        &&& forall|i: int| 0 <= i < self.samples.len() ==> (#[trigger] self.samples[i]).elapsed_ms > 0
    }

    /// The meter after a batch of `size` candidates was completed at `now_ms`.
    pub open spec fn log(self, size: usize, now_ms: u128) -> SpeedMeterView {
        let elapsed = elapsed_between(self.last_sample_ms, now_ms);
        SpeedMeterView {
            sample_count: self.sample_count,
            last_sample_ms: now_ms,
            samples: if elapsed == 0 {
                self.samples
            } else {
                window_after(self.samples, self.sample_count, Sample { size, elapsed_ms: elapsed })
            },
        }
    }

    /// The meter after it was reset at `now_ms`.
    pub open spec fn reset(self, now_ms: u128) -> SpeedMeterView {
        SpeedMeterView {
            sample_count: self.sample_count,
            last_sample_ms: now_ms,
            samples: Seq::empty(),
        }
    }
}

impl SpeedMeter {
    /// A meter with an empty window of `sample_count` places, started at
    /// `now_ms`.
    pub fn new(sample_count: usize, now_ms: u128) -> (meter: Self)
        ensures
            meter@ == (SpeedMeterView { sample_count, last_sample_ms: now_ms, samples: Seq::empty() }),
            meter@.wf(),
    {
        SpeedMeter { sample_count, last_sample_ms: now_ms, samples: Vec::new() }
    }

    /// Empties the window and starts the clock of the next sample at `now_ms`.
    pub fn reset(&mut self, now_ms: u128)
        ensures
            final(self)@ == old(self)@.reset(now_ms),
            final(self)@.wf(),
    {
        self.last_sample_ms = now_ms;
        self.samples.clear();
    }

    /// Records that a batch of `size` candidates was completed at `now_ms`.
    /// The time since the last reading becomes the sample's time; a batch
    /// that took no measurable time leaves the window as it is.
    pub fn log(&mut self, size: usize, now_ms: u128)
        requires
            old(self)@.wf(),
        ensures
            final(self)@ == old(self)@.log(size, now_ms),
            final(self)@.wf(),
    {
        let elapsed: u128 = if now_ms >= self.last_sample_ms {
            now_ms - self.last_sample_ms
        } else {
            0
        };
        self.last_sample_ms = now_ms;
        if elapsed == 0 {
            return ;
        }
        self.samples.push(Sample { size, elapsed_ms: elapsed });
        if self.samples.len() > self.sample_count {
            self.samples.remove(0);
            proof {
                let grown = old(self).samples@.push(Sample { size, elapsed_ms: elapsed });
                assert(self.samples@ =~= grown.drop_first());
            }
        }
    }

    /// The samples in the window, oldest first.
    pub fn samples(&self) -> (samples: &Vec<Sample>)
        ensures
            samples@ == self@.samples,
    {
        &self.samples
    }

    /// The most samples that the window keeps.
    pub fn sample_count(&self) -> (count: usize)
        ensures
            count == self@.sample_count,
    {
        self.sample_count
    }
}

/// A meter stays sound when it takes a sample.
pub proof fn lemma_log_keeps_wf(meter: SpeedMeterView, size: usize, now_ms: u128)
    requires
        meter.wf(),
    ensures
        meter.log(size, now_ms).wf(),
{
    let elapsed = elapsed_between(meter.last_sample_ms, now_ms);
    if elapsed != 0 {
        let sample = Sample { size, elapsed_ms: elapsed };
        let grown = meter.samples.push(sample);
        let after = window_after(meter.samples, meter.sample_count, sample);
        assert forall|i: int| 0 <= i < after.len() implies (#[trigger] after[i]).elapsed_ms > 0 by {
            if grown.len() > meter.sample_count {
                assert(after[i] == grown[i + 1]);
            } else {
                assert(after[i] == grown[i]);
            }
        }
    }
}

} // verus!
