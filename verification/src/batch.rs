//! Batching: bounded accumulation of events per partition, flushing on
//! event-count, byte-size, or timeout thresholds, with oversized events
//! emitted as singleton batches rather than dropped.

use vstd::prelude::*;

verus! {

/// Resolved batch thresholds. At least one event always fits; an emitted
/// batch is never empty.
pub struct BatchSettings {
    pub max_events: usize,
    pub max_bytes: u64,
    pub timeout_secs: u64,
}

impl BatchSettings {
    pub open spec fn wf(&self) -> bool {
        self.max_events >= 1
    }
}

/// User-facing overrides for the batch thresholds.
pub struct BatchConfig {
    pub max_events: Option<usize>,
    pub max_bytes: Option<u64>,
    pub timeout_secs: Option<u64>,
}

impl BatchConfig {
    pub fn unspecified() -> (r: BatchConfig)
        ensures
            r.max_events is None,
            r.max_bytes is None,
            r.timeout_secs is None,
    {
        BatchConfig { max_events: None, max_bytes: None, timeout_secs: None }
    }

    /// Fills unset fields from the given defaults.
    pub fn resolve(&self, defaults: &BatchSettings) -> (r: BatchSettings)
        ensures
            r.max_events == if self.max_events is Some {
                self.max_events->0
            } else {
                defaults.max_events
            },
            r.max_bytes == if self.max_bytes is Some {
                self.max_bytes->0
            } else {
                defaults.max_bytes
            },
            r.timeout_secs == if self.timeout_secs is Some {
                self.timeout_secs->0
            } else {
                defaults.timeout_secs
            },
    {
        BatchSettings {
            max_events: match self.max_events {
                Some(v) => v,
                None => defaults.max_events,
            },
            max_bytes: match self.max_bytes {
                Some(v) => v,
                None => defaults.max_bytes,
            },
            timeout_secs: match self.timeout_secs {
                Some(v) => v,
                None => defaults.timeout_secs,
            },
        }
    }
}

/// The archives path batches at 25,000 events, 100 MB, or 900 seconds.
pub fn archives_default_batch() -> (r: BatchSettings)
    ensures
        r.max_events == 25_000usize,
        r.max_bytes == 100_000_000u64,
        r.timeout_secs == 900u64,
{
    BatchSettings { max_events: 25_000, max_bytes: 100_000_000, timeout_secs: 900 }
}

/// The metrics path batches at 100,000 events or 2 seconds, with no byte
/// ceiling of its own.
pub fn metrics_default_batch() -> (r: BatchSettings)
    ensures
        r.max_events == 100_000usize,
        r.max_bytes == u64::MAX,
        r.timeout_secs == 2u64,
{
    BatchSettings { max_events: 100_000, max_bytes: 0xffff_ffff_ffff_ffff, timeout_secs: 2 }
}

/// What to do with a candidate event, decided before admission so that a
/// batch never overshoots its bounds.
#[derive(PartialEq, Eq, Structural, Clone, Copy, Debug)]
pub enum AdmitDecision {
    /// The event fits in the open batch.
    Admit,
    /// The open batch must flush first; the event then starts a new batch.
    FlushFirst,
    /// The event alone exceeds the byte ceiling: it is emitted as a
    /// singleton batch, never dropped silently.
    Singleton,
}

/// The open-batch accumulator for one partition.
pub struct BatchAccumulator {
    pub settings: BatchSettings,
    pub count: usize,
    pub bytes: u64,
}

/// The bounds every open batch observes.
pub open spec fn acc_wf(a: BatchAccumulator) -> bool {
    &&& a.settings.wf()
    &&& a.count <= a.settings.max_events
    &&& a.bytes <= a.settings.max_bytes
    &&& (a.count == 0 ==> a.bytes == 0)
}

/// The decision the accumulator takes for an event of the given size.
pub open spec fn spec_admit_decision(a: BatchAccumulator, event_bytes: u64) -> AdmitDecision {
    if event_bytes > a.settings.max_bytes {
        AdmitDecision::Singleton
    } else if a.count + 1 <= a.settings.max_events && a.bytes + event_bytes
        <= a.settings.max_bytes {
        AdmitDecision::Admit
    } else {
        AdmitDecision::FlushFirst
    }
}

impl BatchAccumulator {
    pub fn new(settings: BatchSettings) -> (r: BatchAccumulator)
        requires
            settings.wf(),
        ensures
            acc_wf(r),
            r.count == 0,
            r.bytes == 0,
            r.settings == settings,
    {
        BatchAccumulator { settings, count: 0, bytes: 0 }
    }

    /// Inspects the candidate's size before admission.
    pub fn plan_admit(&self, event_bytes: u64) -> (r: AdmitDecision)
        ensures
            r == spec_admit_decision(*self, event_bytes),
    {
        if event_bytes > self.settings.max_bytes {
            AdmitDecision::Singleton
        } else if self.count < self.settings.max_events && self.bytes
            <= self.settings.max_bytes - event_bytes {
            AdmitDecision::Admit
        } else {
            AdmitDecision::FlushFirst
        }
    }

    /// Accepts an event the plan accepted; the bounds are preserved.
    pub fn accept_event(&mut self, event_bytes: u64)
        requires
            acc_wf(*old(self)),
            spec_admit_decision(*old(self), event_bytes) == AdmitDecision::Admit,
        ensures
            acc_wf(*final(self)),
            final(self).settings == old(self).settings,
            final(self).count == old(self).count + 1,
            final(self).bytes == old(self).bytes + event_bytes,
    {
        self.count = self.count + 1;
        self.bytes = self.bytes + event_bytes;
    }

    /// Closes the open batch, if non-empty, and resets the accumulator.
    pub fn flush(&mut self) -> (r: Option<(usize, u64)>)
        requires
            acc_wf(*old(self)),
        ensures
            acc_wf(*final(self)),
            final(self).settings == old(self).settings,
            final(self).count == 0,
            final(self).bytes == 0,
            r == if old(self).count == 0 {
                Option::<(usize, u64)>::None
            } else {
                Some((old(self).count, old(self).bytes))
            },
            r matches Some(t) ==> t.0 >= 1,
    {
        if self.count == 0 {
            None
        } else {
            let out = (self.count, self.bytes);
            self.count = 0;
            self.bytes = 0;
            Some(out)
        }
    }
}

/// One admission step at the specification level: sizes above the byte
/// ceiling bypass the accumulator as singletons; an event that does not
/// fit flushes the open batch first.
pub open spec fn spec_batch_step(a: BatchAccumulator, event_bytes: u64) -> BatchAccumulator {
    match spec_admit_decision(a, event_bytes) {
        AdmitDecision::Singleton => a,
        AdmitDecision::Admit => BatchAccumulator {
            count: (a.count + 1) as usize,
            bytes: (a.bytes + event_bytes) as u64,
            ..a
        },
        AdmitDecision::FlushFirst => BatchAccumulator {
            count: 1usize,
            bytes: event_bytes,
            ..a
        },
    }
}

/// The accumulator state after a whole arrival sequence.
pub open spec fn spec_batch_run(a: BatchAccumulator, sizes: Seq<u64>) -> BatchAccumulator
    decreases sizes.len(),
{
    if sizes.len() == 0 {
        a
    } else {
        spec_batch_step(spec_batch_run(a, sizes.drop_last()), sizes.last())
    }
}

/// For every partition and every arrival sequence, the open batch holds at
/// most `max_events` events and at most `max_bytes` bytes.
pub proof fn lemma_batch_bounds(a: BatchAccumulator, sizes: Seq<u64>)
    requires
        acc_wf(a),
    ensures
        acc_wf(spec_batch_run(a, sizes)),
        spec_batch_run(a, sizes).count <= a.settings.max_events,
        spec_batch_run(a, sizes).bytes <= a.settings.max_bytes,
        spec_batch_run(a, sizes).settings == a.settings,
    decreases sizes.len(),
{
    if sizes.len() > 0 {
        lemma_batch_bounds(a, sizes.drop_last());
    }
}

} // verus!
