//! The pulse sampler: a two-state edge detector followed by a two-point
//! moving average over the intervals between accepted peaks.
//!
//! All times are microseconds read from a monotonic clock. The caller polls
//! the line at a fixed cadence and hands each sample to [`Sen0203::run`].

use vstd::prelude::*;
use crate::bpm::{float_bits, float_bits_of};

verus! {

/// Shortest plausible interval between two heartbeats, in microseconds
/// (300 beats per minute).
pub const MIN_INTERVAL_US: u64 = 200_000;

/// Longest plausible interval between two heartbeats, in microseconds
/// (30 beats per minute).
pub const MAX_INTERVAL_US: u64 = 2_000_000;

/// Microseconds per minute, times one thousand: dividing it by an interval
/// in microseconds gives thousandths of a beat per minute.
pub const MILLI_BPM_DIVIDEND: u64 = 60_000_000_000;

/// Where the edge detector stands.
#[derive(Clone, Copy, Debug, PartialEq, Eq, Structural)]
pub enum Phase {
    /// The line has not been seen low since the last peak (or since start).
    WaitingForLow,
    /// The line was low; the next high sample is a peak.
    WaitingForRisingEdge,
}

/// The sampler as a mathematical value.
pub ghost struct SamplerModel {
    pub phase: Phase,
    /// Time of the last accepted peak, if there was one.
    pub last_peak: Option<nat>,
    /// Smoothed interval, defined once one interval was accepted.
    pub avg: Option<nat>,
}

/// Whether an interval lies in the plausible range.
pub open spec fn plausible(interval: nat) -> bool {
    MIN_INTERVAL_US as nat <= interval <= MAX_INTERVAL_US as nat
}

/// Time elapsed from `last` to `now`; zero if the clock ran backwards.
pub open spec fn elapsed(last: nat, now: nat) -> nat {
    if now >= last {
        (now - last) as nat
    } else {
        0
    }
}

/// The two-point moving average: the first interval seeds it, every later
/// one is averaged with the previous estimate.
pub open spec fn smoothed(avg: Option<nat>, interval: nat) -> nat {
    match avg {
        None => interval,
        Some(a) => (a + interval) / 2,
    }
}

/// Thousandths of a beat per minute for a smoothed interval.
pub open spec fn milli_bpm_of(interval: nat) -> nat
    recommends
        interval > 0,
{
    MILLI_BPM_DIVIDEND as nat / interval
}

impl SamplerModel {
    /// A sampler that has seen nothing yet.
    pub open spec fn initial() -> SamplerModel {
        SamplerModel { phase: Phase::WaitingForLow, last_peak: None, avg: None }
    }

    /// The estimate is plausible, and exists only after a peak was accepted.
    pub open spec fn wf(self) -> bool {
        self.avg matches Some(a) ==> plausible(a) && self.last_peak is Some
    }

    /// The smoothing step, taken when a rising edge is captured at `now`.
    /// Gives the next state and the smoothed interval to emit, if any.
    ///
    /// The first peak only anchors the clock. A peak closer than the minimum
    /// to the last accepted one is noise and changes nothing. A peak further
    /// than the maximum anchors the clock again but records no interval.
    pub open spec fn on_peak(self, now: nat) -> (SamplerModel, Option<nat>) {
        match self.last_peak {
            None => (SamplerModel { last_peak: Some(now), ..self }, None),
            Some(last) => {
                let interval = elapsed(last, now);
                if interval < MIN_INTERVAL_US as nat {
                    (self, None)
                } else if interval > MAX_INTERVAL_US as nat {
                    (SamplerModel { last_peak: Some(now), ..self }, None)
                } else {
                    let a = smoothed(self.avg, interval);
                    (SamplerModel { last_peak: Some(now), avg: Some(a), ..self }, Some(a))
                }
            },
        }
    }

    /// One poll: the edge detector, and the smoothing step on a rising edge.
    pub open spec fn step(self, high: bool, now: nat) -> (SamplerModel, Option<nat>) {
        match self.phase {
            Phase::WaitingForRisingEdge => if high {
                SamplerModel { phase: Phase::WaitingForLow, ..self }.on_peak(now)
            } else {
                (self, None)
            },
            Phase::WaitingForLow => if high {
                (self, None)
            } else {
                (SamplerModel { phase: Phase::WaitingForRisingEdge, ..self }, None)
            },
        }
    }
}

/// A smoothed estimate, emitted on an accepted peak.
#[derive(Clone, Copy, Debug, PartialEq, Eq)]
pub struct Reading {
    interval_us: u64,
}

impl Reading {
    /// The smoothed interval between beats in microseconds.
    pub closed spec fn spec_interval_us(self) -> nat {
        self.interval_us as nat
    }

    /// Every reading carries a plausible interval.
    #[verifier::type_invariant]
    closed spec fn inv(self) -> bool {
        plausible(self.interval_us as nat)
    }

    /// The smoothed interval between beats in microseconds.
    pub fn interval_us(&self) -> (us: u64)
        ensures
            us as nat == self.spec_interval_us(),
            plausible(us as nat),
    {
        proof {
            use_type_invariant(self);
        }
        self.interval_us
    }

    /// The estimate in thousandths of a beat per minute: sixty seconds
    /// divided by the smoothed interval. It lies between 30 and 300 beats
    /// per minute, so it is never zero.
    pub fn milli_bpm(&self) -> (bpm: u64)
        ensures
            bpm as nat == milli_bpm_of(self.spec_interval_us()),
            30_000 <= bpm <= 300_000,
    {
        proof {
            use_type_invariant(self);
            lemma_milli_bpm_range(self.interval_us as nat);
        }
        MILLI_BPM_DIVIDEND / self.interval_us
    }

    /// The estimate in beats per minute as the bit pattern of the nearest
    /// 32-bit float.
    pub fn bpm_bits(&self) -> (bits: u32)
        ensures
            bits as nat == self.spec_bpm_bits(),
    {
        float_bits(self.milli_bpm())
    }

    /// The bit pattern that `bpm_bits` gives.
    pub open spec fn spec_bpm_bits(self) -> nat {
        float_bits_of(milli_bpm_of(self.spec_interval_us()))
    }
}

/// Sixty seconds over a plausible interval lies between 30 and 300 beats
/// per minute.
pub proof fn lemma_milli_bpm_range(interval: nat)
    requires
        plausible(interval),
    ensures
        30_000 <= milli_bpm_of(interval) <= 300_000,
{
    let q = 60_000_000_000nat / interval;
    assert(q * interval <= 60_000_000_000 < (q + 1) * interval) by (nonlinear_arith)
        requires
            q == 60_000_000_000nat / interval,
            interval > 0,
    ;
    assert(q <= 300_000) by (nonlinear_arith)
        requires
            q * interval <= 60_000_000_000,
            interval >= 200_000,
    ;
    assert(q >= 30_000) by (nonlinear_arith)
        requires
            60_000_000_000 < (q + 1) * interval,
            interval <= 2_000_000,
    ;
}

/// A longer interval never reads as a faster pulse.
pub proof fn lemma_milli_bpm_is_antitone(shorter: nat, longer: nat)
    requires
        0 < shorter <= longer,
    ensures
        milli_bpm_of(longer) <= milli_bpm_of(shorter),
{
    vstd::arithmetic::div_mod::lemma_div_is_ordered_by_denominator(
        MILLI_BPM_DIVIDEND as int,
        shorter as int,
        longer as int,
    );
}

/// The pulse sampler.
pub struct Sen0203 {
    phase: Phase,
    last_peak: Option<u64>,
    avg_interval_us: Option<u64>,
}

impl View for Sen0203 {
    type V = SamplerModel;

    closed spec fn view(&self) -> SamplerModel {
        SamplerModel {
            phase: self.phase,
            last_peak: match self.last_peak {
                Some(t) => Some(t as nat),
                None => None,
            },
            avg: match self.avg_interval_us {
                Some(a) => Some(a as nat),
                None => None,
            },
        }
    }
}

/// What a poll hands out for an emitted interval of the model.
pub open spec fn reading_matches(out: Option<Reading>, emitted: Option<nat>) -> bool {
    match emitted {
        None => out is None,
        Some(a) => out matches Some(r) && r.spec_interval_us() == a,
    }
}

impl Sen0203 {
    /// The sampler's invariant.
    pub open spec fn wf(&self) -> bool {
        self@.wf()
    }

    /// A sampler that waits for the line to go low and has no estimate.
    pub fn new() -> (s: Self)
        ensures
            s.wf(),
            s@ == SamplerModel::initial(),
    {
        Sen0203 { phase: Phase::WaitingForLow, last_peak: None, avg_interval_us: None }
    }

    /// Where the edge detector stands.
    pub fn phase(&self) -> (p: Phase)
        ensures
            p == self@.phase,
    {
        self.phase
    }

    /// The current smoothed estimate, if an interval was accepted yet.
    pub fn estimate(&self) -> (out: Option<Reading>)
        requires
            self.wf(),
        ensures
            reading_matches(out, self@.avg),
    {
        match self.avg_interval_us {
            Some(a) => Some(Reading { interval_us: a }),
            None => None,
        }
    }

    /// One poll of the line: `level_high` is the line's level and `now_us`
    /// the monotonic time of the sample. Returns a reading exactly when the
    /// sample is a rising edge whose interval since the last accepted peak
    /// is plausible.
    pub fn run(&mut self, level_high: bool, now_us: u64) -> (out: Option<Reading>)
        requires
            old(self).wf(),
        ensures
            final(self).wf(),
            final(self)@ == old(self)@.step(level_high, now_us as nat).0,
            reading_matches(out, old(self)@.step(level_high, now_us as nat).1),
    {
        match self.phase {
            Phase::WaitingForRisingEdge => {
                if level_high {
                    self.phase = Phase::WaitingForLow;
                    self.calculate_fake_avg(now_us)
                } else {
                    None
                }
            },
            Phase::WaitingForLow => {
                if !level_high {
                    self.phase = Phase::WaitingForRisingEdge;
                }
                None
            },
        }
    }

    /// The smoothing step for a peak captured at `now_us`. The first peak
    /// anchors the clock; a peak too close to the last accepted one is
    /// dropped without a trace; one too far away anchors the clock again;
    /// any other updates the two-point average and emits it.
    pub fn calculate_fake_avg(&mut self, now_us: u64) -> (out: Option<Reading>)
        requires
            old(self).wf(),
        ensures
            final(self).wf(),
            final(self)@ == old(self)@.on_peak(now_us as nat).0,
            reading_matches(out, old(self)@.on_peak(now_us as nat).1),
    {
        match self.last_peak {
            None => {
                self.last_peak = Some(now_us);
                None
            },
            Some(last) => {
                let interval: u64 = if now_us >= last {
                    now_us - last
                } else {
                    0
                };
                if interval < MIN_INTERVAL_US {
                    None
                } else if interval > MAX_INTERVAL_US {
                    self.last_peak = Some(now_us);
                    None
                } else {
                    let avg: u64 = match self.avg_interval_us {
                        None => interval,
                        Some(a) => (a + interval) / 2,
                    };
                    self.last_peak = Some(now_us);
                    self.avg_interval_us = Some(avg);
                    Some(Reading { interval_us: avg })
                }
            },
        }
    }
}

/// One poll of the line as a mathematical value: the level, and the time.
pub ghost struct Sample {
    pub high: bool,
    pub at: nat,
}

impl SamplerModel {
    /// The state after the peaks at the given times, in order.
    pub open spec fn after_peaks(self, peaks: Seq<nat>) -> SamplerModel
        decreases peaks.len(),
    {
        if peaks.len() == 0 {
            self
        } else {
            self.after_peaks(peaks.drop_last()).on_peak(peaks.last()).0
        }
    }

    /// What the last of the given peaks emits.
    pub open spec fn last_emission(self, peaks: Seq<nat>) -> Option<nat>
        recommends
            peaks.len() > 0,
    {
        self.after_peaks(peaks.drop_last()).on_peak(peaks.last()).1
    }

    /// The smoothed intervals emitted over the given peaks, in order.
    pub open spec fn emitted_by_peaks(self, peaks: Seq<nat>) -> Seq<nat>
        decreases peaks.len(),
    {
        if peaks.len() == 0 {
            Seq::empty()
        } else {
            let before = self.emitted_by_peaks(peaks.drop_last());
            match self.last_emission(peaks) {
                Some(a) => before.push(a),
                None => before,
            }
        }
    }

    /// The state after the given polls, in order.
    pub open spec fn after_samples(self, samples: Seq<Sample>) -> SamplerModel
        decreases samples.len(),
    {
        if samples.len() == 0 {
            self
        } else {
            let last = samples.last();
            self.after_samples(samples.drop_last()).step(last.high, last.at).0
        }
    }

    /// The smoothed intervals emitted over the given polls, in order.
    pub open spec fn emitted_by(self, samples: Seq<Sample>) -> Seq<nat>
        decreases samples.len(),
    {
        if samples.len() == 0 {
            Seq::empty()
        } else {
            let last = samples.last();
            let before = self.emitted_by(samples.drop_last());
            match self.after_samples(samples.drop_last()).step(last.high, last.at).1 {
                Some(a) => before.push(a),
                None => before,
            }
        }
    }
}

/// Every poll keeps the sampler well formed, and what it emits is the new
/// estimate, which is plausible: a reading is never zero, and never outside
/// 30 to 300 beats per minute.
pub proof fn lemma_emission_is_plausible(s: SamplerModel, high: bool, now: nat)
    requires
        s.wf(),
    ensures
        s.step(high, now).0.wf(),
        s.step(high, now).1 matches Some(a) ==> {
            &&& plausible(a)
            &&& s.step(high, now).0.avg == Some(a)
            &&& s.step(high, now).0.last_peak == Some(now)
            &&& 30_000 <= milli_bpm_of(a) <= 300_000
        },
        s.step(high, now).1 is None ==> s.step(high, now).0.avg == s.avg,
{
    if let Some(a) = s.step(high, now).1 {
        lemma_milli_bpm_range(a);
    }
}

/// A line that stays at one level emits nothing: over polls that all read
/// low, or that all read high on a sampler that is not waiting for a
/// rising edge, no reading is emitted and the estimate and the last
/// accepted peak stay as they were.
pub proof fn lemma_sustained_level_is_quiet(s: SamplerModel, samples: Seq<Sample>, high: bool)
    requires
        high ==> s.phase == Phase::WaitingForLow,
        forall|i: int| 0 <= i < samples.len() ==> (#[trigger] samples[i]).high == high,
    ensures
        s.emitted_by(samples) == Seq::<nat>::empty(),
        s.after_samples(samples).avg == s.avg,
        s.after_samples(samples).last_peak == s.last_peak,
        high ==> s.after_samples(samples).phase == Phase::WaitingForLow,
    decreases samples.len(),
{
    if samples.len() > 0 {
        let head = samples.drop_last();
        assert forall|i: int| 0 <= i < head.len() implies (#[trigger] head[i]).high == high by {
            assert(head[i] == samples[i]);
        }
        lemma_sustained_level_is_quiet(s, head, high);
        assert(samples.last() == samples[samples.len() - 1]);
    }
}

/// Where the edge detector stands after the given polls: it depends on
/// the level of the last poll alone.
pub open spec fn phase_after(phase: Phase, samples: Seq<Sample>) -> Phase {
    if samples.len() == 0 {
        phase
    } else if samples.last().high {
        Phase::WaitingForLow
    } else {
        Phase::WaitingForRisingEdge
    }
}

/// The times of the rising edges among the given polls: of each poll that
/// reads high while the edge detector waits for a rising edge.
pub open spec fn rising_edges(phase: Phase, samples: Seq<Sample>) -> Seq<nat>
    decreases samples.len(),
{
    if samples.len() == 0 {
        Seq::empty()
    } else {
        let head = samples.drop_last();
        let before = rising_edges(phase, head);
        if samples.last().high && phase_after(phase, head) == Phase::WaitingForRisingEdge {
            before.push(samples.last().at)
        } else {
            before
        }
    }
}

/// The sampler sees the line through its rising edges alone: after any
/// polls, its estimate and its last accepted peak are what the smoothing
/// step makes of the times of the rising edges, and it has emitted what
/// those peaks emit.
pub proof fn lemma_polls_count_by_rising_edges(s: SamplerModel, samples: Seq<Sample>)
    ensures
        s.after_samples(samples) == (SamplerModel {
            phase: phase_after(s.phase, samples),
            ..s.after_peaks(rising_edges(s.phase, samples))
        }),
        s.emitted_by(samples) == s.emitted_by_peaks(rising_edges(s.phase, samples)),
    decreases samples.len(),
{
    if samples.len() > 0 {
        let head = samples.drop_last();
        let last = samples.last();
        let edges = rising_edges(s.phase, head);
        lemma_polls_count_by_rising_edges(s, head);
        if last.high && phase_after(s.phase, head) == Phase::WaitingForRisingEdge {
            let all = edges.push(last.at);
            assert(all.drop_last() =~= edges);
            assert(all.last() == last.at);
        }
    }
}

/// Whether each peak follows the one before it by at least `lo` and at
/// most `hi`.
pub open spec fn spaced_within(peaks: Seq<nat>, lo: nat, hi: nat) -> bool {
    forall|i: int| 0 < i < peaks.len() ==> lo <= #[trigger] peaks[i] - peaks[i - 1] <= hi
}

/// Averaging an estimate with a new interval gives a value between the
/// two, at most half as far from the interval as the estimate was (but for
/// the rounding of the division).
pub proof fn lemma_average_halves_error(avg: nat, interval: nat)
    ensures
        avg <= interval ==> avg <= smoothed(Some(avg), interval) <= interval,
        avg >= interval ==> interval <= smoothed(Some(avg), interval) <= avg,
        avg <= interval ==> 2 * (interval - smoothed(Some(avg), interval)) <= interval - avg + 1,
        avg >= interval ==> 2 * (smoothed(Some(avg), interval) - interval) <= avg - interval,
{
}

/// While the peaks are spaced by intervals between `lo` and `hi`, both
/// plausible, the estimate stays between `lo` and `hi`: it exists from the
/// peak that closes the first interval on, and that peak and every later
/// one emits it.
pub proof fn lemma_estimate_stays_in_band(s: SamplerModel, peaks: Seq<nat>, lo: nat, hi: nat)
    requires
        s.wf(),
        plausible(lo),
        plausible(hi),
        lo <= hi,
        s.avg matches Some(a) ==> lo <= a <= hi,
        peaks.len() > 0,
        s.last_peak matches Some(t) ==> lo <= peaks[0] - t <= hi,
        spaced_within(peaks, lo, hi),
    ensures
        s.after_peaks(peaks).wf(),
        s.after_peaks(peaks).phase == s.phase,
        s.after_peaks(peaks).last_peak == Some(peaks.last()),
        s.after_peaks(peaks).avg matches Some(a) ==> lo <= a <= hi,
        peaks.len() >= 2 || s.last_peak is Some ==> {
            &&& s.after_peaks(peaks).avg is Some
            &&& s.last_emission(peaks) == s.after_peaks(peaks).avg
        },
    decreases peaks.len(),
{
    let head = peaks.drop_last();
    if head.len() == 0 {
        assert(s.after_peaks(head) == s);
        assert(peaks.last() == peaks[0]);
    } else {
        assert(head[0] == peaks[0]);
        assert forall|i: int| 0 < i < head.len() implies lo <= #[trigger] head[i] - head[i - 1]
            <= hi by {
            assert(head[i] == peaks[i]);
            assert(head[i - 1] == peaks[i - 1]);
        }
        lemma_estimate_stays_in_band(s, head, lo, hi);
        let n = peaks.len() as int;
        assert(head.last() == peaks[n - 2]);
        assert(lo <= peaks[n - 1] - peaks[n - 2] <= hi);
    }
}

/// A steady rhythm is measured exactly: when a sampler that has seen no
/// peak is given peaks that are all a plausible `interval` apart, the
/// second peak and every later one emits exactly `interval`.
pub proof fn lemma_steady_rhythm_is_exact(s: SamplerModel, peaks: Seq<nat>, interval: nat)
    requires
        s.last_peak is None,
        s.avg is None,
        plausible(interval),
        peaks.len() >= 2,
        forall|i: int| 0 < i < peaks.len() ==> #[trigger] peaks[i] - peaks[i - 1] == interval,
    ensures
        s.last_emission(peaks) == Some(interval),
        s.after_peaks(peaks).avg == Some(interval),
{
    lemma_estimate_stays_in_band(s, peaks, interval, interval);
}

/// Peaks too close to the last accepted one never change the estimate:
/// over polls that all fall within less than the minimum interval after a
/// time `from`, on a sampler whose last accepted peak, if any, is not
/// before `from`, nothing is emitted and the estimate stays as it was.
pub proof fn lemma_close_peaks_never_emit(s: SamplerModel, samples: Seq<Sample>, from: nat)
    requires
        s.wf(),
        s.last_peak matches Some(t) ==> t >= from,
        forall|i: int|
            0 <= i < samples.len() ==> from <= (#[trigger] samples[i]).at < from
                + MIN_INTERVAL_US as nat,
    ensures
        s.emitted_by(samples) == Seq::<nat>::empty(),
        s.after_samples(samples).avg == s.avg,
        s.after_samples(samples).wf(),
        s.after_samples(samples).last_peak matches Some(t) ==> t >= from,
    decreases samples.len(),
{
    if samples.len() > 0 {
        let head = samples.drop_last();
        assert forall|i: int| 0 <= i < head.len() implies from <= (#[trigger] head[i]).at < from
            + MIN_INTERVAL_US as nat by {
            assert(head[i] == samples[i]);
        }
        lemma_close_peaks_never_emit(s, head, from);
        let last = samples.last();
        assert(last == samples[samples.len() - 1]);
    }
}

} // verus!
