//! Histogram-based automatic exposure metering.
//!
//! Each frame, a camera's rendered HDR image is reduced to a single adapted
//! log-luminance value: every pixel's log-luminance is binned into a 256-bucket
//! histogram (optionally weighted by a metering mask), the histogram is
//! collapsed to one trimmed weighted mean, and that instantaneous measurement
//! is folded into a per-camera exposure state with asymmetric exponential
//! smoothing.
//!
//! Log-luminance values, adaptation rates, and elapsed time are carried as
//! fixed-point integers in units of `1 / FP_ONE`, so that every step of the
//! metering arithmetic is exact and verified.

use vstd::prelude::*;

pub mod fixed;
pub mod histogram;
pub mod average;
pub mod adapt;
pub mod pipeline;
pub mod node;

pub use histogram::Histogram;
pub use histogram::Sample;
pub use adapt::ExposureState;

pub use fixed::FP_ONE;
pub use fixed::LOG_BOUND;
pub use fixed::RATE_BOUND;
pub use fixed::clamp_fixed;
pub use fixed::spec_clamp;
pub use adapt::CompensationCurve;

verus! {

/// Per-camera exposure configuration, immutable within a frame.
///
/// `min`, `max`, `correction`, `speed_up` and `speed_down` are fixed-point
/// log-luminance values and rates in units of `1 / FP_ONE`.
pub struct AutoExposure {
    /// Lower end of the log-luminance range the histogram covers.
    pub min: i64,
    /// Upper end of the log-luminance range the histogram covers.
    pub max: i64,
    /// Global additive exposure correction, applied after metering.
    pub correction: i64,
    /// Percentage of the darkest samples excluded from the average.
    pub low_percent: u32,
    /// Percentage of the brightest samples excluded from the average.
    pub high_percent: u32,
    /// Adaptation rate (per second) toward brighter targets.
    pub speed_up: i64,
    /// Adaptation rate (per second) toward darker targets.
    pub speed_down: i64,
    /// Identity of the metering mask image; absence means uniform weight.
    pub metering_mask: Option<u64>,
    /// Optional curve mapping metered log-luminance to an extra correction.
    pub compensation_curve: Option<CompensationCurve>,
}

/// Why a configuration was rejected.
#[derive(PartialEq, Eq, Structural, Clone, Copy, Debug)]
pub enum ConfigError {
    /// `min >= max`: the histogram would cover an empty range.
    EmptyRange,
    /// `low_percent >= high_percent` or `high_percent > 100`.
    InvalidPercentiles,
    /// `speed_up < 0` or `speed_down < 0`.
    NegativeRate,
    /// A magnitude exceeds what the fixed-point arithmetic admits.
    OutOfRange,
    /// The compensation curve is not strictly increasing, or not bounded.
    InvalidCurve,
}

impl AutoExposure {
    /// The histogram covers a non-empty range.
    pub open spec fn spec_range_ok(self) -> bool {
        self.min < self.max
    }

    /// The percentile pair is ordered and within a hundred.
    pub open spec fn spec_percentiles_ok(self) -> bool {
        self.low_percent < self.high_percent <= 100
    }

    /// Neither adaptation rate is negative.
    pub open spec fn spec_rates_ok(self) -> bool {
        self.speed_up >= 0 && self.speed_down >= 0
    }

    /// Every magnitude fits the fixed-point arithmetic.
    pub open spec fn spec_bounds_ok(self) -> bool {
        &&& -LOG_BOUND <= self.min
        &&& self.max <= LOG_BOUND
        &&& self.speed_up <= RATE_BOUND
        &&& self.speed_down <= RATE_BOUND
        &&& -LOG_BOUND <= self.correction <= LOG_BOUND
    }

    /// The compensation curve, if any, is well-formed.
    pub open spec fn spec_curve_ok(self) -> bool {
        self.compensation_curve matches Some(c) ==> c.wf()
    }

    /// A well-formed configuration: non-empty range, ordered percentiles,
    /// non-negative rates, magnitudes within the fixed-point bounds, and a
    /// well-formed compensation curve if one is given.
    pub open spec fn valid(self) -> bool {
        &&& self.spec_range_ok()
        &&& self.spec_percentiles_ok()
        &&& self.spec_rates_ok()
        &&& self.spec_bounds_ok()
        &&& self.spec_curve_ok()
    }

    /// Rejects a malformed configuration instead of repairing it.
    ///
    /// Returns `Ok(())` exactly when the configuration is valid; the error
    /// names the first violated rule, checked in the order: empty range,
    /// percentiles, negative rate, magnitude bounds, compensation curve.
    pub fn validate(&self) -> (r: Result<(), ConfigError>)
        ensures
            r is Ok <==> self.valid(),
            !self.spec_range_ok() ==> r == Result::<(), ConfigError>::Err(ConfigError::EmptyRange),
            self.spec_range_ok() && !self.spec_percentiles_ok() ==> r == Result::<
                (),
                ConfigError,
            >::Err(ConfigError::InvalidPercentiles),
            self.spec_range_ok() && self.spec_percentiles_ok() && !self.spec_rates_ok() ==> r
                == Result::<(), ConfigError>::Err(ConfigError::NegativeRate),
            self.spec_range_ok() && self.spec_percentiles_ok() && self.spec_rates_ok()
                && !self.spec_bounds_ok() ==> r == Result::<(), ConfigError>::Err(
                ConfigError::OutOfRange),
            self.spec_range_ok() && self.spec_percentiles_ok() && self.spec_rates_ok()
                && self.spec_bounds_ok() && !self.spec_curve_ok() ==> r == Result::<
                (),
                ConfigError,
            >::Err(ConfigError::InvalidCurve),
    {
        if self.min >= self.max {
            Err(ConfigError::EmptyRange)
        } else if self.low_percent >= self.high_percent || self.high_percent > 100 {
            Err(ConfigError::InvalidPercentiles)
        } else if self.speed_up < 0 || self.speed_down < 0 {
            Err(ConfigError::NegativeRate)
        } else if self.min < -LOG_BOUND || self.max > LOG_BOUND || self.speed_up > RATE_BOUND
            || self.speed_down > RATE_BOUND || self.correction < -LOG_BOUND || self.correction
            > LOG_BOUND {
            Err(ConfigError::OutOfRange)
        } else {
            match &self.compensation_curve {
                Some(curve) => {
                    if curve.validate() {
                        Ok(())
                    } else {
                        Err(ConfigError::InvalidCurve)
                    }
                },
                None => Ok(()),
            }
        }
    }
}

impl Default for AutoExposure {
    /// The conventional defaults: a [-8, 8] stop range, the darkest 60% and
    /// brightest 5% of samples trimmed, brightening three times as fast as
    /// darkening, and no mask.
    fn default() -> (r: Self)
        ensures
            r.min == -8 * FP_ONE,
            r.max == 8 * FP_ONE,
            r.correction == 0,
            r.low_percent == 60,
            r.high_percent == 95,
            r.speed_up == 3 * FP_ONE,
            r.speed_down == FP_ONE,
            r.metering_mask is None,
            r.valid(),
    {
        AutoExposure {
            min: -8 * FP_ONE,
            max: 8 * FP_ONE,
            correction: 0,
            low_percent: 60,
            high_percent: 95,
            speed_up: 3 * FP_ONE,
            speed_down: FP_ONE,
            metering_mask: None,
            compensation_curve: None,
        }
    }
}

/// The state a camera's buffer starts with: the zero of a zero-initialized
/// buffer.
pub open spec fn spec_zero_state() -> ExposureState {
    ExposureState { current_log_luminance: 0 }
}

/// Looks a camera's state up in a run of registry entries: the first entry
/// carrying the key.
pub open spec fn spec_lookup(entries: Seq<(u64, ExposureState)>, k: u64) -> Option<ExposureState>
    decreases entries.len(),
{
    if entries.len() == 0 {
        None
    } else if entries[0].0 == k {
        Some(entries[0].1)
    } else {
        spec_lookup(entries.subrange(1, entries.len() as int), k)
    }
}

/// Registry entries carry pairwise distinct camera keys.
pub open spec fn spec_unique_keys(entries: Seq<(u64, ExposureState)>) -> bool {
    forall|i: int, j: int|
        0 <= i < j < entries.len() ==> (#[trigger] entries[i]).0 != (#[trigger] entries[j]).0
}

/// A key that occurs in no entry looks up to nothing.
proof fn lemma_lookup_absent(entries: Seq<(u64, ExposureState)>, k: u64)
    requires
        forall|i: int| 0 <= i < entries.len() ==> (#[trigger] entries[i]).0 != k,
    ensures
        spec_lookup(entries, k) is None,
    decreases entries.len(),
{
    if entries.len() > 0 {
        let tail: Seq<(u64, ExposureState)> = entries.subrange(1, entries.len() as int);
        assert forall|i: int| 0 <= i < tail.len() implies (#[trigger] tail[i]).0 != k by {
            assert(tail[i] == entries[i + 1]);
        }
        lemma_lookup_absent(tail, k);
    }
}

/// With unique keys, a key found at any index looks up to that entry.
proof fn lemma_lookup_found(entries: Seq<(u64, ExposureState)>, i: int, k: u64)
    requires
        spec_unique_keys(entries),
        0 <= i < entries.len(),
        entries[i].0 == k,
    ensures
        spec_lookup(entries, k) == Some(entries[i].1),
    decreases i,
{
    if i > 0 {
        let tail: Seq<(u64, ExposureState)> = entries.subrange(1, entries.len() as int);
        assert forall|a: int, b: int|
            0 <= a < b < tail.len() implies (#[trigger] tail[a]).0 != (#[trigger] tail[b]).0 by {
            assert(tail[a] == entries[a + 1]);
            assert(tail[b] == entries[b + 1]);
        }
        assert(tail[i - 1] == entries[i]);
        lemma_lookup_found(tail, i - 1, k);
    }
}

/// The per-camera exposure-state buffers, owned by the resource cache and
/// keyed by camera identity: created when a camera first gains exposure
/// configuration, destroyed when it loses it.
pub struct AutoExposureBuffers {
    /// The registry entries, one per camera, keys pairwise distinct.
    pub entries: Vec<(u64, ExposureState)>,
}

impl AutoExposureBuffers {
    /// Keys are pairwise distinct.
    pub open spec fn wf(&self) -> bool {
        spec_unique_keys(self.entries@)
    }

    /// The state registered for a camera, if any.
    pub open spec fn spec_get(&self, k: u64) -> Option<ExposureState> {
        spec_lookup(self.entries@, k)
    }

    /// An empty registry.
    pub fn new() -> (b: AutoExposureBuffers)
        ensures
            b.wf(),
            forall|k: u64| b.spec_get(k) is None,
    {
        AutoExposureBuffers { entries: Vec::new() }
    }

    /// Finds the index of a camera's entry.
    fn find(&self, k: u64) -> (r: Option<usize>)
        ensures
            r matches Some(i) ==> i < self.entries@.len() && self.entries@[i as int].0 == k,
            r is None ==> forall|j: int|
                0 <= j < self.entries@.len() ==> (#[trigger] self.entries@[j]).0 != k,
    {
        let n: usize = self.entries.len();
        let mut i: usize = 0;
        while i < n
            invariant
                n == self.entries@.len(),
                i <= n,
                forall|j: int| 0 <= j < i ==> (#[trigger] self.entries@[j]).0 != k,
            decreases n - i,
        {
            if self.entries[i].0 == k {
                return Some(i);
            }
            i = i + 1;
        }
        None
    }

    /// Whether a camera has a registered state buffer.
    pub fn contains(&self, entity: u64) -> (r: bool)
        requires
            self.wf(),
        ensures
            r <==> self.spec_get(entity) is Some,
    {
        match self.find(entity) {
            Some(i) => {
                proof {
                    lemma_lookup_found(self.entries@, i as int, entity);
                }
                true
            },
            None => {
                proof {
                    lemma_lookup_absent(self.entries@, entity);
                }
                false
            },
        }
    }

    /// A copy of a camera's registered state.
    pub fn get_state(&self, entity: u64) -> (r: Option<ExposureState>)
        requires
            self.wf(),
        ensures
            r == self.spec_get(entity),
    {
        match self.find(entity) {
            Some(i) => {
                proof {
                    lemma_lookup_found(self.entries@, i as int, entity);
                }
                Some(self.entries[i].1)
            },
            None => {
                proof {
                    lemma_lookup_absent(self.entries@, entity);
                }
                None
            },
        }
    }

    /// Writes a camera's state back; a camera never seen stays unregistered.
    pub fn set_state(&mut self, entity: u64, state: ExposureState) -> (found: bool)
        requires
            old(self).wf(),
        ensures
            final(self).wf(),
            found <==> old(self).spec_get(entity) is Some,
            found ==> final(self).spec_get(entity) == Some(state),
            !found ==> *final(self) == *old(self),
            forall|k: u64| k != entity ==> final(self).spec_get(k) == old(self).spec_get(k),
    {
        match self.find(entity) {
            Some(i) => {
                proof {
                    lemma_lookup_found(self.entries@, i as int, entity);
                }
                self.entries.set(i, (entity, state));
                proof {
                    lemma_replaced_entry(old(self).entries@, self.entries@, i as int, entity);
                    lemma_lookup_found(self.entries@, i as int, entity);
                }
                true
            },
            None => {
                proof {
                    lemma_lookup_absent(self.entries@, entity);
                }
                false
            },
        }
    }

    /// Registers a camera on first sight, keeping an existing state as it
    /// is: the lazily-creating path of the resource cache.
    pub fn ensure_entry(&mut self, entity: u64)
        requires
            old(self).wf(),
        ensures
            final(self).wf(),
            old(self).spec_get(entity) is Some ==> *final(self) == *old(self),
            old(self).spec_get(entity) is None ==> final(self).spec_get(entity) == Some(
                spec_zero_state(),
            ),
            forall|k: u64| k != entity ==> final(self).spec_get(k) == old(self).spec_get(k),
    {
        match self.find(entity) {
            Some(i) => {
                proof {
                    lemma_lookup_found(self.entries@, i as int, entity);
                }
            },
            None => {
                proof {
                    lemma_lookup_absent(self.entries@, entity);
                }
                self.entries.push((entity, ExposureState { current_log_luminance: 0 }));
                proof {
                    lemma_pushed_entry(
                        old(self).entries@,
                        self.entries@,
                        entity,
                        ExposureState { current_log_luminance: 0 },
                    );
                }
            },
        }
    }

    /// Registers a camera with a fresh zeroed state, replacing any state it
    /// had: a camera whose exposure configuration was just added starts
    /// over.
    pub fn insert_fresh(&mut self, entity: u64)
        requires
            old(self).wf(),
        ensures
            final(self).wf(),
            final(self).spec_get(entity) == Some(spec_zero_state()),
            forall|k: u64| k != entity ==> final(self).spec_get(k) == old(self).spec_get(k),
    {
        match self.find(entity) {
            Some(i) => {
                self.entries.set(i, (entity, ExposureState { current_log_luminance: 0 }));
                proof {
                    lemma_replaced_entry(old(self).entries@, self.entries@, i as int, entity);
                    lemma_lookup_found(self.entries@, i as int, entity);
                }
            },
            None => {
                proof {
                    lemma_lookup_absent(self.entries@, entity);
                }
                self.entries.push((entity, ExposureState { current_log_luminance: 0 }));
                proof {
                    lemma_pushed_entry(
                        old(self).entries@,
                        self.entries@,
                        entity,
                        ExposureState { current_log_luminance: 0 },
                    );
                }
            },
        }
    }

    /// Tears a camera's state buffer down when its exposure configuration is
    /// removed.
    pub fn remove(&mut self, entity: u64)
        requires
            old(self).wf(),
        ensures
            final(self).wf(),
            final(self).spec_get(entity) is None,
            forall|k: u64| k != entity ==> final(self).spec_get(k) == old(self).spec_get(k),
    {
        match self.find(entity) {
            Some(i) => {
                self.entries.remove(i);
                proof {
                    lemma_removed_entry(old(self).entries@, self.entries@, i as int, entity);
                    lemma_lookup_absent(self.entries@, entity);
                }
            },
            None => {
                proof {
                    lemma_lookup_absent(self.entries@, entity);
                }
            },
        }
    }
}

/// Replacing the entry at `i` with one carrying the same key changes no
/// other key's lookup and keeps the keys unique.
proof fn lemma_replaced_entry(
    before: Seq<(u64, ExposureState)>,
    after: Seq<(u64, ExposureState)>,
    i: int,
    entity: u64,
)
    requires
        spec_unique_keys(before),
        0 <= i < before.len(),
        before[i].0 == entity,
        after.len() == before.len(),
        after[i].0 == entity,
        forall|j: int| 0 <= j < before.len() && j != i ==> after[j] == before[j],
    ensures
        spec_unique_keys(after),
        forall|k: u64| k != entity ==> spec_lookup(after, k) == spec_lookup(before, k),
{
    assert forall|a: int, b: int|
        0 <= a < b < after.len() implies (#[trigger] after[a]).0 != (#[trigger] after[b]).0 by {
        assert(before[a].0 != before[b].0);
        assert(a == i || after[a] == before[a]);
        assert(b == i || after[b] == before[b]);
    }
    assert forall|k: u64| k != entity implies spec_lookup(after, k) == spec_lookup(before, k) by {
        if exists|j: int| 0 <= j < before.len() && (#[trigger] before[j]).0 == k {
            let j: int = choose|j: int| 0 <= j < before.len() && (#[trigger] before[j]).0 == k;
            assert(j != i);
            lemma_lookup_found(before, j, k);
            lemma_lookup_found(after, j, k);
        } else {
            lemma_lookup_absent(before, k);
            lemma_lookup_absent(after, k);
        }
    }
}

/// Appending an entry whose key was absent changes no other key's lookup
/// and keeps the keys unique.
proof fn lemma_pushed_entry(
    before: Seq<(u64, ExposureState)>,
    after: Seq<(u64, ExposureState)>,
    entity: u64,
    state: ExposureState,
)
    requires
        spec_unique_keys(before),
        forall|j: int| 0 <= j < before.len() ==> (#[trigger] before[j]).0 != entity,
        after == before.push((entity, state)),
    ensures
        spec_unique_keys(after),
        spec_lookup(after, entity) == Some(state),
        forall|k: u64| k != entity ==> spec_lookup(after, k) == spec_lookup(before, k),
{
    assert forall|a: int, b: int|
        0 <= a < b < after.len() implies (#[trigger] after[a]).0 != (#[trigger] after[b]).0 by {
        if b < after.len() - 1 {
            assert(after[a] == before[a]);
            assert(after[b] == before[b]);
        } else {
            assert(after[a] == before[a]);
        }
    }
    assert(after[after.len() - 1] == (entity, state));
    lemma_lookup_found(after, after.len() - 1, entity);
    assert forall|k: u64| k != entity implies spec_lookup(after, k) == spec_lookup(before, k) by {
        if exists|j: int| 0 <= j < before.len() && (#[trigger] before[j]).0 == k {
            let j: int = choose|j: int| 0 <= j < before.len() && (#[trigger] before[j]).0 == k;
            assert(after[j] == before[j]);
            lemma_lookup_found(before, j, k);
            lemma_lookup_found(after, j, k);
        } else {
            lemma_lookup_absent(before, k);
            assert forall|j: int| 0 <= j < after.len() implies (#[trigger] after[j]).0 != k by {
                if j < after.len() - 1 {
                    assert(after[j] == before[j]);
                }
            }
            lemma_lookup_absent(after, k);
        }
    }
}

/// Removing the entry at `i` erases exactly that key from the registry.
proof fn lemma_removed_entry(
    before: Seq<(u64, ExposureState)>,
    after: Seq<(u64, ExposureState)>,
    i: int,
    entity: u64,
)
    requires
        spec_unique_keys(before),
        0 <= i < before.len(),
        before[i].0 == entity,
        after == before.remove(i),
    ensures
        spec_unique_keys(after),
        forall|j: int| 0 <= j < after.len() ==> (#[trigger] after[j]).0 != entity,
        forall|k: u64| k != entity ==> spec_lookup(after, k) == spec_lookup(before, k),
{
    assert forall|a: int, b: int|
        0 <= a < b < after.len() implies (#[trigger] after[a]).0 != (#[trigger] after[b]).0 by {
        assert(after[a] == (if a < i { before[a] } else { before[a + 1] }));
        assert(after[b] == (if b < i { before[b] } else { before[b + 1] }));
    }
    assert forall|j: int| 0 <= j < after.len() implies (#[trigger] after[j]).0 != entity by {
        assert(after[j] == (if j < i { before[j] } else { before[j + 1] }));
    }
    assert forall|k: u64| k != entity implies spec_lookup(after, k) == spec_lookup(before, k) by {
        if exists|j: int| 0 <= j < before.len() && (#[trigger] before[j]).0 == k {
            let j: int = choose|j: int| 0 <= j < before.len() && (#[trigger] before[j]).0 == k;
            assert(j != i);
            lemma_lookup_found(before, j, k);
            if j < i {
                assert(after[j] == before[j]);
                lemma_lookup_found(after, j, k);
            } else {
                assert(after[j - 1] == before[j]);
                lemma_lookup_found(after, j - 1, k);
            }
        } else {
            lemma_lookup_absent(before, k);
            assert forall|j: int| 0 <= j < after.len() implies (#[trigger] after[j]).0 != k by {
                assert(after[j] == (if j < i { before[j] } else { before[j + 1] }));
            }
            lemma_lookup_absent(after, k);
        }
    }
}

/// The camera lifecycle events gathered from the host this frame: cameras
/// whose exposure configuration appeared, and cameras whose configuration
/// was removed.
pub struct ExtractedAutoExposureBuffers {
    /// Cameras that gained exposure configuration this frame.
    pub changed: Vec<u64>,
    /// Cameras whose exposure configuration was removed this frame.
    pub removed: Vec<u64>,
}

/// The resources shared by all cameras: the histogram buffer both kernel
/// passes read and write, reset at the start of every frame.
pub struct AutoExposureResources {
    /// The 256-bucket histogram buffer.
    pub histogram: Histogram,
}

impl AutoExposureResources {
    /// A zeroed histogram buffer, created once.
    pub fn new() -> (r: AutoExposureResources)
        ensures
            r.histogram.wf(),
            forall|b: int| 0 <= b < 256 ==> r.histogram.count(b) == 0,
    {
        AutoExposureResources { histogram: Histogram::new() }
    }
}

/// Applies this frame's camera lifecycle events to the registry: every
/// camera that gained exposure configuration gets a fresh zeroed state
/// buffer, then every camera whose configuration was removed loses its
/// buffer; all other cameras keep theirs.
pub fn prepare_auto_exposure_buffers(
    buffers: &mut AutoExposureBuffers,
    extracted: &ExtractedAutoExposureBuffers,
)
    requires
        old(buffers).wf(),
    ensures
        final(buffers).wf(),
        forall|k: u64|
            final(buffers).spec_get(k) == (if extracted.removed@.contains(k) {
                Option::<ExposureState>::None
            } else if extracted.changed@.contains(k) {
                Some(spec_zero_state())
            } else {
                old(buffers).spec_get(k)
            }),
{
    let ghost orig: AutoExposureBuffers = *old(buffers);
    let n_changed: usize = extracted.changed.len();
    let mut i: usize = 0;
    while i < n_changed
        invariant
            n_changed == extracted.changed@.len(),
            i <= n_changed,
            buffers.wf(),
            forall|k: u64|
                buffers.spec_get(k) == (if extracted.changed@.subrange(0, i as int).contains(k) {
                    Some(spec_zero_state())
                } else {
                    orig.spec_get(k)
                }),
        decreases n_changed - i,
    {
        buffers.insert_fresh(extracted.changed[i]);
        proof {
            lemma_contains_one_more(extracted.changed@, i as int);
        }
        i = i + 1;
    }
    proof {
        assert(extracted.changed@.subrange(0, n_changed as int) =~= extracted.changed@);
    }
    let ghost mid: AutoExposureBuffers = *buffers;
    let n_removed: usize = extracted.removed.len();
    let mut j: usize = 0;
    while j < n_removed
        invariant
            n_removed == extracted.removed@.len(),
            j <= n_removed,
            buffers.wf(),
            forall|k: u64|
                buffers.spec_get(k) == (if extracted.removed@.subrange(0, j as int).contains(k) {
                    Option::<ExposureState>::None
                } else {
                    mid.spec_get(k)
                }),
        decreases n_removed - j,
    {
        buffers.remove(extracted.removed[j]);
        proof {
            lemma_contains_one_more(extracted.removed@, j as int);
        }
        j = j + 1;
    }
    proof {
        assert(extracted.removed@.subrange(0, n_removed as int) =~= extracted.removed@);
    }
}

/// Extending a prefix by one element extends what it contains by exactly
/// that element.
proof fn lemma_contains_one_more(s: Seq<u64>, i: int)
    requires
        0 <= i < s.len(),
    ensures
        forall|k: u64|
            s.subrange(0, i + 1).contains(k) <==> s.subrange(0, i).contains(k) || s[i] == k,
{
    assert forall|k: u64|
        s.subrange(0, i + 1).contains(k) <==> s.subrange(0, i).contains(k) || s[i] == k by {
        if s.subrange(0, i + 1).contains(k) {
            let j: int = choose|j: int| 0 <= j < i + 1 && #[trigger] s.subrange(0, i + 1)[j] == k;
            if j < i {
                assert(s.subrange(0, i)[j] == k);
            }
        }
        if s.subrange(0, i).contains(k) {
            let j: int = choose|j: int| 0 <= j < i && #[trigger] s.subrange(0, i)[j] == k;
            assert(s.subrange(0, i + 1)[j] == k);
        }
        if s[i] == k {
            assert(s.subrange(0, i + 1)[i] == k);
        }
    }
}

/// Prepares one camera's metering for this frame: both kernel variants are
/// taken from the cache (compiled on first request, reused afterwards and
/// never shared between the two passes), the camera's state buffer is
/// created on first sight and kept otherwise, and the kernel parameters are
/// bundled with the mask identity for the dispatches.
pub fn queue_view_auto_exposure_pipelines(
    compute_pipelines: &mut pipeline::SpecializedComputePipelines,
    buffers: &mut AutoExposureBuffers,
    entity: u64,
    auto_exposure: &AutoExposure,
    params: pipeline::AutoExposureParams,
) -> (view: pipeline::ViewAutoExposurePipeline)
    requires
        old(compute_pipelines).wf(),
        old(compute_pipelines).next_id + 2 <= u32::MAX,
        old(buffers).wf(),
    ensures
        final(compute_pipelines).wf(),
        final(buffers).wf(),
        final(compute_pipelines).spec_get(pipeline::Pass::Histogram) == Some(
            view.histogram_pipeline,
        ),
        final(compute_pipelines).spec_get(pipeline::Pass::Average) == Some(
            view.mean_luminance_pipeline,
        ),
        view.histogram_pipeline != view.mean_luminance_pipeline,
        old(buffers).spec_get(entity) is Some ==> final(buffers).spec_get(entity) == old(
            buffers,
        ).spec_get(entity),
        old(buffers).spec_get(entity) is None ==> final(buffers).spec_get(entity) == Some(
            spec_zero_state(),
        ),
        forall|k: u64| k != entity ==> final(buffers).spec_get(k) == old(buffers).spec_get(k),
        view.state == entity,
        view.params == params,
        view.metering_mask == auto_exposure.metering_mask,
{
    let histogram_pipeline: u32 = compute_pipelines.specialize(pipeline::Pass::Histogram);
    let mean_luminance_pipeline: u32 = compute_pipelines.specialize(pipeline::Pass::Average);
    buffers.ensure_entry(entity);
    pipeline::ViewAutoExposurePipeline {
        histogram_pipeline,
        mean_luminance_pipeline,
        state: entity,
        params,
        metering_mask: auto_exposure.metering_mask,
    }
}

} // verus!
