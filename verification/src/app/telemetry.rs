//! Channel error rates and throughput over time.
use vstd::prelude::*;
use vstd::string::*;

use super::drives::{opt_seq, DriveHealth};
use super::write_state::{ChannelTelemetrySample, SampleModel};
use crate::device::channel_error::{
    deltas, delta_spec, is_negative, worst_rate, worst_rate_spec, ChannelCounters, ChannelDelta,
    ChannelRate, RATE_BELOW_ZERO, RATE_NEGATIVE_INFINITY,
};
use crate::text::{clone_opt, opt_view, views};

verus! {

/// How often the channels are sampled.
pub const CHANNEL_SAMPLE_SECONDS: u64 = 5;

pub const CHANNEL_HISTORY_CAPACITY: usize = 120;

pub const CHANNEL_DEFAULT_VISIBLE_SAMPLES: usize = 60;

pub const PERFORMANCE_HISTORY_CAPACITY: usize = 600;

pub const PERFORMANCE_DEFAULT_VISIBLE_SAMPLES: usize = 300;

/// The first channel with the given rate.
pub open spec fn channel_with(rates: Seq<ChannelRate>, key: i64) -> Option<usize>
    decreases rates.len(),
{
    if rates.len() == 0 {
        None
    } else if rates[0].log10_bit_error_rate == Some(key) {
        Some(rates[0].channel)
    } else {
        channel_with(rates.drop_first(), key)
    }
}

fn find_channel(rates: &Vec<ChannelRate>, key: i64) -> (channel: Option<usize>)
    ensures
        channel == channel_with(rates@, key),
{
    let mut i: usize = 0;
    assert(rates@.subrange(0, rates@.len() as int) =~= rates@);
    while i < rates.len()
        invariant
            i <= rates@.len(),
            channel_with(rates@, key) == channel_with(
                rates@.subrange(i as int, rates@.len() as int),
                key,
            ),
        decreases rates@.len() - i,
    {
        let ghost rest = rates@.subrange(i as int, rates@.len() as int);
        assert(rest[0] == rates@[i as int]);
        assert(rest.drop_first() =~= rates@.subrange(i + 1, rates@.len() as int));
        match rates[i].log10_bit_error_rate {
            Some(k) => {
                if k == key {
                    return Some(rates[i].channel);
                }
            },
            None => {},
        }
        i = i + 1;
    }
    None
}

/// The channel that a worst rate below zero belongs to, with that rate.
pub open spec fn worst_channel(rates: Seq<ChannelRate>, worst: Option<i64>) -> Option<(usize, i64)> {
    match worst {
        Some(key) => if is_negative(key) {
            match channel_with(rates, key) {
                Some(channel) => Some((channel, key)),
                None => None,
            }
        } else {
            None
        },
        None => None,
    }
}

pub fn find_worst(rates: &Vec<ChannelRate>, worst: Option<i64>) -> (found: Option<(usize, i64)>)
    ensures
        found == worst_channel(rates@, worst),
{
    match worst {
        Some(key) => if RATE_NEGATIVE_INFINITY <= key && key <= RATE_BELOW_ZERO {
            match find_channel(rates, key) {
                Some(channel) => Some((channel, key)),
                None => None,
            }
        } else {
            None
        },
        None => None,
    }
}

// ---------------------------------------------------------------------------
// The frame that is shown
// ---------------------------------------------------------------------------

/// The channel error rates as they are shown; rates by their ordering keys.
#[derive(Debug, PartialEq, Eq)]
pub struct ChannelTelemetryFrame {
    pub rates: Vec<ChannelRate>,
    pub worst_now: Option<i64>,
    pub session_worst: Option<(usize, i64)>,
    pub last_success: Option<String>,
    pub stale: bool,
    pub last_error: Option<String>,
}

/// The model of a frame.
#[verifier::ext_equal]
pub struct FrameModel {
    pub rates: Seq<ChannelRate>,
    pub worst_now: Option<i64>,
    pub session_worst: Option<(usize, i64)>,
    pub last_success: Option<Seq<char>>,
    pub stale: bool,
    pub last_error: Option<Seq<char>>,
}

impl View for ChannelTelemetryFrame {
    type V = FrameModel;

    open spec fn view(&self) -> FrameModel {
        FrameModel {
            rates: self.rates@,
            worst_now: self.worst_now,
            session_worst: self.session_worst,
            last_success: opt_view(self.last_success),
            stale: self.stale,
            last_error: opt_view(self.last_error),
        }
    }
}

/// Nothing sampled yet.
pub open spec fn empty_frame() -> FrameModel {
    FrameModel {
        rates: Seq::empty(),
        worst_now: None,
        session_worst: None,
        last_success: None,
        stale: false,
        last_error: None,
    }
}

impl Default for ChannelTelemetryFrame {
    fn default() -> (frame: ChannelTelemetryFrame)
        ensures
            frame@ == empty_frame(),
    {
        ChannelTelemetryFrame {
            rates: Vec::new(),
            worst_now: None,
            session_worst: None,
            last_success: None,
            stale: false,
            last_error: None,
        }
    }
}

fn copy_rates(rates: &Vec<ChannelRate>) -> (copy: Vec<ChannelRate>)
    ensures
        copy@ == rates@,
{
    let mut copy: Vec<ChannelRate> = Vec::new();
    let mut i: usize = 0;
    while i < rates.len()
        invariant
            i <= rates@.len(),
            copy@ == rates@.subrange(0, i as int),
        decreases rates@.len() - i,
    {
        copy.push(rates[i]);
        i = i + 1;
        assert(copy@ =~= rates@.subrange(0, i as int));
    }
    assert(copy@ =~= rates@);
    copy
}

fn copy_counters(list: &Vec<ChannelCounters>) -> (copy: Vec<ChannelCounters>)
    ensures
        copy@ == list@,
{
    let mut copy: Vec<ChannelCounters> = Vec::new();
    let mut i: usize = 0;
    while i < list.len()
        invariant
            i <= list@.len(),
            copy@ == list@.subrange(0, i as int),
        decreases list@.len() - i,
    {
        copy.push(list[i]);
        i = i + 1;
        assert(copy@ =~= list@.subrange(0, i as int));
    }
    assert(copy@ =~= list@);
    copy
}

impl Clone for ChannelTelemetryFrame {
    fn clone(&self) -> (copy: ChannelTelemetryFrame)
        ensures
            copy@ == self@,
    {
        ChannelTelemetryFrame {
            rates: copy_rates(&self.rates),
            worst_now: self.worst_now,
            session_worst: self.session_worst,
            last_success: clone_opt(&self.last_success),
            stale: self.stale,
            last_error: clone_opt(&self.last_error),
        }
    }
}

/// A tracker of the write channels from sample to sample.
#[derive(Debug)]
pub struct ChannelTelemetryTracker {
    previous: Option<Vec<ChannelCounters>>,
    frame: ChannelTelemetryFrame,
}

impl Default for ChannelTelemetryTracker {
    fn default() -> (tracker: ChannelTelemetryTracker)
        ensures
            tracker.previous_spec() is None,
            tracker.frame_spec() == empty_frame(),
    {
        ChannelTelemetryTracker { previous: None, frame: ChannelTelemetryFrame::default() }
    }
}

/// The counters of the write channels in a health report.
pub open spec fn write_channels(health: Option<&DriveHealth>) -> Option<Seq<ChannelCounters>> {
    match health {
        Some(h) => opt_seq(h.write_channels),
        None => None,
    }
}

/// The frame behind a sample with its rates. A worst rate of the session is replaced only
/// by a higher one.
pub open spec fn frame_with_rates(f: FrameModel, rates: Seq<ChannelRate>, timestamp: Seq<char>) -> FrameModel {
    let worst = worst_rate_spec(rates);
    let found = worst_channel(rates, worst);
    FrameModel {
        rates,
        worst_now: worst,
        session_worst: match (found, f.session_worst) {
            (Some(new), Some(old_one)) => if new.1 > old_one.1 {
                found
            } else {
                f.session_worst
            },
            (Some(_), None) => found,
            (None, _) => f.session_worst,
        },
        last_success: Some(timestamp),
        stale: false,
        last_error: None,
    }
}

impl ChannelTelemetryTracker {
    /// The counters of the last sample.
    pub closed spec fn previous_spec(&self) -> Option<Seq<ChannelCounters>> {
        opt_seq(self.previous)
    }

    /// The frame.
    pub closed spec fn frame_spec(&self) -> FrameModel {
        self.frame@
    }

    /// What happened on the channels since the last sample; `None` where either sample is
    /// missing. The rates for `observe` are computed from it.
    pub fn pending(&self, health: Option<&DriveHealth>) -> (list: Option<Vec<ChannelDelta>>)
        ensures
            match (self.previous_spec(), write_channels(health)) {
                (Some(b), Some(a)) => list is Some && list->0@.len() == (if b.len() < a.len() {
                    b.len()
                } else {
                    a.len()
                }) && forall|i: int|
                    0 <= i < list->0@.len() ==> #[trigger] list->0@[i] == delta_spec(
                        i as usize,
                        b[i],
                        a[i],
                    ),
                _ => list is None,
            },
    {
        match (&self.previous, health) {
            (Some(before), Some(h)) => match &h.write_channels {
                Some(after) => Some(deltas(before, after)),
                None => None,
            },
            _ => None,
        }
    }

    /// Takes a health report, and the rates since the last one. Without channel counters
    /// what is shown goes stale; the first sample only sets the base.
    pub fn observe(
        &mut self,
        health: Option<&DriveHealth>,
        rates: Vec<ChannelRate>,
        timestamp: &str,
    ) -> (frame: ChannelTelemetryFrame)
        ensures
            frame@ == final(self).frame_spec(),
            match write_channels(health) {
                None => final(self).previous_spec() == old(self).previous_spec()
                    && final(self).frame_spec() == (FrameModel {
                    stale: old(self).frame_spec().rates.len() > 0,
                    last_error: Some("write channel diagnostic unavailable"@),
                    ..old(self).frame_spec()
                }),
                Some(counters) => final(self).previous_spec() == Some(counters)
                    && final(self).frame_spec() == (if old(self).previous_spec() is Some {
                    frame_with_rates(old(self).frame_spec(), rates@, timestamp@)
                } else {
                    FrameModel { stale: false, last_error: None, ..old(self).frame_spec() }
                }),
            },
    {
        let counters = match health {
            Some(h) => match &h.write_channels {
                Some(list) => Some(copy_counters(list)),
                None => None,
            },
            None => None,
        };
        match counters {
            None => {
                self.frame.stale = self.frame.rates.len() > 0;
                self.frame.last_error = Some("write channel diagnostic unavailable".to_owned());
                self.frame.clone()
            },
            Some(list) => {
                let known = self.previous.is_some();
                self.previous = Some(list);
                if known {
                    let worst = worst_rate(rates.as_slice());
                    let found = find_worst(&rates, worst);
                    self.frame.rates = rates;
                    self.frame.worst_now = worst;
                    match found {
                        Some((channel, key)) => {
                            let higher = match self.frame.session_worst {
                                Some((_, current)) => key > current,
                                None => true,
                            };
                            if higher {
                                self.frame.session_worst = Some((channel, key));
                            }
                        },
                        None => {},
                    }
                    self.frame.last_success = Some(timestamp.to_owned());
                }
                self.frame.stale = false;
                self.frame.last_error = None;
                self.frame.clone()
            },
        }
    }

    /// The channels could not be sampled.
    pub fn mark_error(&mut self, error: &str) -> (frame: ChannelTelemetryFrame)
        ensures
            frame@ == final(self).frame_spec(),
            final(self).previous_spec() == old(self).previous_spec(),
            final(self).frame_spec() == (FrameModel {
                stale: true,
                last_error: Some(error@),
                ..old(self).frame_spec()
            }),
    {
        self.frame.stale = true;
        self.frame.last_error = Some(error.to_owned());
        self.frame.clone()
    }
}

/// The worst rate of a session never falls.
pub proof fn session_worst_never_falls(f: FrameModel, rates: Seq<ChannelRate>, timestamp: Seq<char>)
    requires
        f.session_worst is Some,
    ensures
        frame_with_rates(f, rates, timestamp).session_worst is Some,
        ({
            let now = frame_with_rates(f, rates, timestamp).session_worst->0;
            let before = f.session_worst->0;
            now.1 >= before.1
        }),
{
}

// ---------------------------------------------------------------------------
// The history of a write
// ---------------------------------------------------------------------------

/// The worst rate of a write, and where it was met.
#[derive(Debug, PartialEq, Eq)]
pub struct SessionWorstChannelRate {
    pub rate: i64,
    pub channel: usize,
    pub elapsed_millis: u64,
    pub timestamp: String,
    pub partition: u8,
    pub logical_block: u64,
}

/// The model of a worst rate.
#[verifier::ext_equal]
pub struct WorstModel {
    pub rate: i64,
    pub channel: usize,
    pub elapsed_millis: u64,
    pub timestamp: Seq<char>,
    pub partition: u8,
    pub logical_block: u64,
}

impl View for SessionWorstChannelRate {
    type V = WorstModel;

    open spec fn view(&self) -> WorstModel {
        WorstModel {
            rate: self.rate,
            channel: self.channel,
            elapsed_millis: self.elapsed_millis,
            timestamp: self.timestamp@,
            partition: self.partition,
            logical_block: self.logical_block,
        }
    }
}

pub open spec fn opt_worst(w: Option<SessionWorstChannelRate>) -> Option<WorstModel> {
    match w {
        Some(worst) => Some(worst@),
        None => None,
    }
}

/// The last `capacity` values of a list.
pub open spec fn recent<T>(list: Seq<T>, capacity: nat) -> Seq<T> {
    if list.len() <= capacity {
        list
    } else {
        list.subrange(list.len() - capacity, list.len() as int)
    }
}

/// The samples of a write, as far back as they are kept, and the worst of them.
pub struct ChannelTelemetryState {
    previous: Option<Vec<ChannelCounters>>,
    history: Vec<ChannelTelemetrySample>,
    session_worst: Option<SessionWorstChannelRate>,
    warnings: Vec<String>,
}

pub open spec fn sample_models(list: Seq<ChannelTelemetrySample>) -> Seq<SampleModel> {
    list.map_values(|s: ChannelTelemetrySample| s@)
}

/// The worst rate with a sample taken into account.
pub open spec fn worst_with(worst: Option<WorstModel>, s: SampleModel) -> Option<WorstModel> {
    match worst_channel(s.channel_rates, s.worst_rate) {
        Some((channel, key)) => if worst is None || key > worst->0.rate {
            Some(
                WorstModel {
                    rate: key,
                    channel,
                    elapsed_millis: s.elapsed_millis,
                    timestamp: s.timestamp,
                    partition: s.partition,
                    logical_block: s.logical_block,
                },
            )
        } else {
            worst
        },
        None => worst,
    }
}

impl ChannelTelemetryState {
    pub closed spec fn history_spec(&self) -> Seq<SampleModel> {
        sample_models(self.history@)
    }

    pub closed spec fn worst_spec(&self) -> Option<WorstModel> {
        opt_worst(self.session_worst)
    }

    pub closed spec fn warnings_spec(&self) -> Seq<Seq<char>> {
        views(self.warnings@)
    }

    pub closed spec fn previous_spec(&self) -> Option<Seq<ChannelCounters>> {
        opt_seq(self.previous)
    }

    /// No more samples are kept than there is room for.
    pub open spec fn wf(&self) -> bool {
        self.history_spec().len() <= CHANNEL_HISTORY_CAPACITY
    }

    /// A history that begins with the counters before the write.
    pub fn new(previous: Option<Vec<ChannelCounters>>) -> (state: ChannelTelemetryState)
        ensures
            state.wf(),
            state.history_spec() == Seq::<SampleModel>::empty(),
            state.worst_spec() is None,
            state.warnings_spec() == Seq::<Seq<char>>::empty(),
            state.previous_spec() == opt_seq(previous),
    {
        let state = ChannelTelemetryState {
            previous,
            history: Vec::new(),
            session_worst: None,
            warnings: Vec::new(),
        };
        proof {
            assert(state.history_spec() =~= Seq::<SampleModel>::empty());
            assert(state.warnings_spec() =~= Seq::<Seq<char>>::empty());
        }
        state
    }

    /// Takes the counters of a new sample and says what happened since the last one;
    /// `None` for the first.
    pub fn take_counters(&mut self, current: Vec<ChannelCounters>) -> (list: Option<
        Vec<ChannelDelta>,
    >)
        ensures
            final(self).history_spec() == old(self).history_spec(),
            final(self).worst_spec() == old(self).worst_spec(),
            final(self).warnings_spec() == old(self).warnings_spec(),
            final(self).previous_spec() == Some(current@),
            match old(self).previous_spec() {
                Some(b) => list is Some && list->0@.len() == (if b.len() < current@.len() {
                    b.len()
                } else {
                    current@.len()
                }) && forall|i: int|
                    0 <= i < list->0@.len() ==> #[trigger] list->0@[i] == delta_spec(
                        i as usize,
                        b[i],
                        current@[i],
                    ),
                None => list is None,
            },
    {
        let list = match &self.previous {
            Some(before) => Some(deltas(before, &current)),
            None => None,
        };
        self.previous = Some(current);
        list
    }

    /// A sample could not be taken.
    pub fn warn(&mut self, message: String)
        ensures
            final(self).history_spec() == old(self).history_spec(),
            final(self).worst_spec() == old(self).worst_spec(),
            final(self).previous_spec() == old(self).previous_spec(),
            final(self).warnings_spec() == old(self).warnings_spec().push(message@),
    {
        let ghost before = self.warnings@;
        self.warnings.push(message);
        assert(views(self.warnings@) =~= views(before).push(message@));
    }

    /// Keeps a sample; the oldest makes room for it.
    pub fn record_sample(&mut self, sample: ChannelTelemetrySample)
        requires
            old(self).wf(),
        ensures
            final(self).wf(),
            final(self).history_spec() == recent(
                old(self).history_spec().push(sample@),
                CHANNEL_HISTORY_CAPACITY as nat,
            ),
            final(self).worst_spec() == worst_with(old(self).worst_spec(), sample@),
            final(self).warnings_spec() == old(self).warnings_spec(),
            final(self).previous_spec() == old(self).previous_spec(),
    {
        match find_worst(&sample.channel_rates, sample.worst_rate) {
            Some((channel, key)) => {
                let higher = match &self.session_worst {
                    Some(current) => key > current.rate,
                    None => true,
                };
                if higher {
                    self.session_worst = Some(
                        SessionWorstChannelRate {
                            rate: key,
                            channel,
                            elapsed_millis: sample.elapsed_millis,
                            timestamp: sample.timestamp.clone(),
                            partition: sample.partition,
                            logical_block: sample.logical_block,
                        },
                    );
                }
            },
            None => {},
        }
        let ghost before = self.history@;
        assert(sample_models(before).len() == before.len());
        if self.history.len() == CHANNEL_HISTORY_CAPACITY {
            let _ = self.history.remove(0);
        }
        self.history.push(sample);
        assert(sample_models(self.history@) =~= recent(
            sample_models(before).push(sample@),
            CHANNEL_HISTORY_CAPACITY as nat,
        ));
    }

    /// The samples, the worst of them, and the warnings.
    pub fn finish(self) -> (result: (
        Vec<ChannelTelemetrySample>,
        Option<SessionWorstChannelRate>,
        Vec<String>,
    ))
        ensures
            sample_models(result.0@) == self.history_spec(),
            opt_worst(result.1) == self.worst_spec(),
            views(result.2@) == self.warnings_spec(),
    {
        (self.history, self.session_worst, self.warnings)
    }
}

// ---------------------------------------------------------------------------
// Throughput
// ---------------------------------------------------------------------------

/// When the channels are sampled, and how much was written between two samples.
#[derive(Debug, Clone, Copy, PartialEq, Eq, Structural)]
pub struct ChannelClock {
    pub started_millis: u64,
    pub last_sample_millis: u64,
    pub last_throughput_millis: u64,
    pub last_throughput_bytes: u64,
}

impl ChannelClock {
    /// The clock at the moment at which data begins to be written.
    pub fn begin_data(now_millis: u64) -> (clock: ChannelClock)
        ensures
            clock == (ChannelClock {
                started_millis: now_millis,
                last_sample_millis: now_millis,
                last_throughput_millis: now_millis,
                last_throughput_bytes: 0,
            }),
    {
        ChannelClock {
            started_millis: now_millis,
            last_sample_millis: now_millis,
            last_throughput_millis: now_millis,
            last_throughput_bytes: 0,
        }
    }

    /// Whether a sample is due; if so, the next is counted from now.
    pub fn due(&mut self, now_millis: u64) -> (yes: bool)
        ensures
            yes == (difference(now_millis, old(self).last_sample_millis) >= CHANNEL_SAMPLE_SECONDS
                * 1000),
            *final(self) == (ChannelClock {
                last_sample_millis: if yes {
                    now_millis
                } else {
                    old(self).last_sample_millis
                },
                ..*old(self)
            }),
    {
        if now_millis.saturating_sub(self.last_sample_millis) < CHANNEL_SAMPLE_SECONDS * 1000 {
            return false;
        }
        self.last_sample_millis = now_millis;
        true
    }

    /// How much was written since the last sample, and in which time; and how long data
    /// has been written.
    pub fn measure(&mut self, now_millis: u64, bytes_written: u64) -> (result: (u64, u64, u64))
        ensures
            result.0 == difference(bytes_written, old(self).last_throughput_bytes),
            result.1 == difference(now_millis, old(self).last_throughput_millis),
            result.2 == difference(now_millis, old(self).started_millis),
            *final(self) == (ChannelClock {
                last_throughput_millis: now_millis,
                last_throughput_bytes: bytes_written,
                ..*old(self)
            }),
    {
        let bytes: u64 = bytes_written.saturating_sub(self.last_throughput_bytes);
        let elapsed: u64 = now_millis.saturating_sub(self.last_throughput_millis);
        let total: u64 = now_millis.saturating_sub(self.started_millis);
        self.last_throughput_millis = now_millis;
        self.last_throughput_bytes = bytes_written;
        (bytes, elapsed, total)
    }
}

/// What the reader of the source and the writer of the tape are at.
#[derive(Debug, Clone, Copy, PartialEq, Eq, Structural)]
pub struct SourcePipelineSnapshot {
    pub bytes_read: u64,
    pub queued_bytes: u64,
    pub capacity_bytes: u64,
    pub reader_waiting: bool,
    pub writer_waiting: bool,
}

/// How many bytes came and went in a span of time.
#[derive(Debug, Clone, Copy, PartialEq, Eq, Structural)]
pub struct PerformanceDelta {
    pub source_bytes: u64,
    pub tape_bytes: u64,
    pub elapsed_millis: u64,
}

/// A meter of throughput, at most once a second.
#[derive(Debug, Clone, Copy, PartialEq, Eq, Structural)]
pub struct WritePerformanceState {
    pub last_sample_millis: u64,
    pub last_source_bytes: u64,
    pub last_tape_bytes: u64,
}

/// `a - b`, at least zero.
pub open spec fn difference(a: u64, b: u64) -> u64 {
    if a >= b {
        (a - b) as u64
    } else {
        0
    }
}

impl WritePerformanceState {
    pub fn new(now_millis: u64) -> (state: WritePerformanceState)
        ensures
            state == (WritePerformanceState {
                last_sample_millis: now_millis,
                last_source_bytes: 0,
                last_tape_bytes: 0,
            }),
    {
        WritePerformanceState {
            last_sample_millis: now_millis,
            last_source_bytes: 0,
            last_tape_bytes: 0,
        }
    }

    /// A sample, where a second has passed or one is asked for.
    pub fn sample(
        &mut self,
        pipeline: SourcePipelineSnapshot,
        tape_bytes: u64,
        now_millis: u64,
        force: bool,
    ) -> (delta: Option<PerformanceDelta>)
        ensures
            ({
                let elapsed = difference(now_millis, old(self).last_sample_millis);
                if !force && elapsed < 1000 {
                    delta is None && *final(self) == *old(self)
                } else {
                    delta == Some(
                        PerformanceDelta {
                            source_bytes: difference(
                                pipeline.bytes_read,
                                old(self).last_source_bytes,
                            ),
                            tape_bytes: difference(tape_bytes, old(self).last_tape_bytes),
                            elapsed_millis: elapsed,
                        },
                    ) && *final(self) == (WritePerformanceState {
                        last_sample_millis: now_millis,
                        last_source_bytes: pipeline.bytes_read,
                        last_tape_bytes: tape_bytes,
                    })
                }
            }),
    {
        let elapsed: u64 = now_millis.saturating_sub(self.last_sample_millis);
        if !force && elapsed < 1000 {
            return None;
        }
        let delta = PerformanceDelta {
            source_bytes: pipeline.bytes_read.saturating_sub(self.last_source_bytes),
            tape_bytes: tape_bytes.saturating_sub(self.last_tape_bytes),
            elapsed_millis: elapsed,
        };
        self.last_sample_millis = now_millis;
        self.last_source_bytes = pipeline.bytes_read;
        self.last_tape_bytes = tape_bytes;
        Some(delta)
    }
}

} // verus!
