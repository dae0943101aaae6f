use vstd::prelude::*;

verus! {

/// Whether an observation is a delta since the last one or a snapshot.
#[derive(Clone, Copy, Debug, PartialEq, Eq, Structural)]
pub enum MetricKind {
    Incremental,
    Absolute,
}

/// Which statistic a distribution is meant to be reported as.
#[derive(Clone, Copy, Debug, PartialEq, Eq, Structural)]
pub enum StatisticKind {
    Histogram,
    Summary,
}

/// One observed value, seen `rate` times.
#[derive(Clone, Copy, Debug, PartialEq, Eq, Structural)]
pub struct Sample {
    pub value: i64,
    pub rate: u32,
}

/// One bucket of a pre-aggregated histogram.
#[derive(Clone, Copy, Debug, PartialEq, Eq, Structural)]
pub struct Bucket {
    pub upper_limit: i64,
    pub count: u64,
}

/// One quantile of a pre-aggregated summary; `quantile` is in parts per million.
#[derive(Clone, Copy, Debug, PartialEq, Eq, Structural)]
pub struct Quantile {
    pub quantile: u32,
    pub value: i64,
}

/// The representation of one measurement.
#[derive(Clone, Debug, PartialEq, Eq)]
pub enum MetricValue {
    Counter { value: i64 },
    Gauge { value: i64 },
    DistinctSet { values: Vec<String> },
    Distribution { samples: Vec<Sample>, statistic: StatisticKind },
    AggregatedHistogram { buckets: Vec<Bucket>, count: u64, sum: i64 },
    AggregatedSummary { quantiles: Vec<Quantile>, count: u64, sum: i64 },
    Sketch { payload: Vec<u8> },
}

/// The mathematical content of a `MetricValue`: a set holds its strings as a set.
pub enum MetricValueView {
    Counter { value: int },
    Gauge { value: int },
    DistinctSet { values: Set<Seq<char>> },
    Distribution { samples: Seq<Sample>, statistic: StatisticKind },
    AggregatedHistogram { buckets: Seq<Bucket>, count: u64, sum: i64 },
    AggregatedSummary { quantiles: Seq<Quantile>, count: u64, sum: i64 },
    Sketch { payload: Seq<u8> },
}

pub open spec fn string_set(v: Seq<String>) -> Set<Seq<char>> {
    v.map_values(|s: String| s@).to_set()
}

pub open spec fn distinct_strings(v: Seq<String>) -> bool {
    forall|i: int, j: int| 0 <= i < j < v.len() ==> v[i]@ != v[j]@
}

pub open spec fn fits_i64(x: int) -> bool {
    i64::MIN <= x <= i64::MAX
}

impl View for MetricValue {
    type V = MetricValueView;

    open spec fn view(&self) -> MetricValueView {
        match self {
            MetricValue::Counter { value } => MetricValueView::Counter { value: *value as int },
            MetricValue::Gauge { value } => MetricValueView::Gauge { value: *value as int },
            MetricValue::DistinctSet { values } => MetricValueView::DistinctSet { values: string_set(values@) },
            MetricValue::Distribution { samples, statistic } => MetricValueView::Distribution {
                samples: samples@,
                statistic: *statistic,
            },
            MetricValue::AggregatedHistogram { buckets, count, sum } =>
                MetricValueView::AggregatedHistogram { buckets: buckets@, count: *count, sum: *sum },
            MetricValue::AggregatedSummary { quantiles, count, sum } =>
                MetricValueView::AggregatedSummary {
                    quantiles: quantiles@,
                    count: *count,
                    sum: *sum,
                },
            MetricValue::Sketch { payload } => MetricValueView::Sketch { payload: payload@ },
        }
    }
}

/// Whether two values are of the same variant.
pub open spec fn same_variant(a: MetricValueView, b: MetricValueView) -> bool {
    match (a, b) {
        (MetricValueView::Counter { .. }, MetricValueView::Counter { .. }) => true,
        (MetricValueView::Gauge { .. }, MetricValueView::Gauge { .. }) => true,
        (MetricValueView::DistinctSet { .. }, MetricValueView::DistinctSet { .. }) => true,
        (MetricValueView::Distribution { .. }, MetricValueView::Distribution { .. }) => true,
        (MetricValueView::AggregatedHistogram { .. }, MetricValueView::AggregatedHistogram { .. }) => true,
        (MetricValueView::AggregatedSummary { .. }, MetricValueView::AggregatedSummary { .. }) => true,
        (MetricValueView::Sketch { .. }, MetricValueView::Sketch { .. }) => true,
        _ => false,
    }
}

/// Whether the generic merge has no rule for this variant.
pub open spec fn is_pre_aggregated(v: MetricValueView) -> bool {
    ||| v is AggregatedHistogram
    ||| v is AggregatedSummary
    ||| v is Sketch
}

/// The result of merging `incoming` into `existing` under `kind`, or `None` where the
/// merge fails: different variants, different statistics, a variant without a merge
/// rule, or a sum that leaves the range of `i64`.
pub open spec fn merge_values(
    existing: MetricValueView,
    kind: MetricKind,
    incoming: MetricValueView,
) -> Option<MetricValueView> {
    match (existing, incoming) {
        (MetricValueView::Counter { value: a }, MetricValueView::Counter { value: b }) => {
            if fits_i64(a + b) {
                Some(MetricValueView::Counter { value: a + b })
            } else {
                None
            }
        },
        (MetricValueView::Gauge { value: a }, MetricValueView::Gauge { value: b }) => {
            if kind == MetricKind::Absolute {
                Some(MetricValueView::Gauge { value: b })
            } else if fits_i64(a + b) {
                Some(MetricValueView::Gauge { value: a + b })
            } else {
                None
            }
        },
        (MetricValueView::DistinctSet { values: a }, MetricValueView::DistinctSet { values: b }) => {
            Some(MetricValueView::DistinctSet { values: a.union(b) })
        },
        (
            MetricValueView::Distribution { samples: a, statistic: s },
            MetricValueView::Distribution { samples: b, statistic: t },
        ) => {
            if s == t {
                Some(MetricValueView::Distribution { samples: a + b, statistic: s })
            } else {
                None
            }
        },
        _ => None,
    }
}

impl MetricValue {
    /// Well-formed: a set holds no string twice, and every sample has a rate of at least one.
    pub open spec fn wf(&self) -> bool {
        match self {
            MetricValue::DistinctSet { values } => distinct_strings(values@),
            MetricValue::Distribution { samples, .. } => forall|i: int|
                0 <= i < samples@.len() ==> #[trigger] samples@[i].rate >= 1,
            _ => true,
        }
    }

    /// Merges `other` into `self` under `kind`. On failure `self` is left as it was.
    pub fn add(&mut self, other: &MetricValue, kind: MetricKind) -> (r: bool)
        ensures
            r == merge_values(old(self)@, kind, other@) is Some,
            r ==> final(self)@ == merge_values(old(self)@, kind, other@)->Some_0,
            !r ==> *final(self) == *old(self),
            old(self).wf() && other.wf() ==> final(self).wf(),
    {
        match other {
            MetricValue::Counter { value: b } => match self {
                MetricValue::Counter { value } => match value.checked_add(*b) {
                    Some(sum) => {
                        *value = sum;
                        true
                    },
                    None => false,
                },
                _ => false,
            },
            MetricValue::Gauge { value: b } => match self {
                MetricValue::Gauge { value } => {
                    if kind == MetricKind::Absolute {
                        *value = *b;
                        true
                    } else {
                        match value.checked_add(*b) {
                            Some(sum) => {
                                *value = sum;
                                true
                            },
                            None => false,
                        }
                    }
                },
                _ => false,
            },
            MetricValue::DistinctSet { values: b } => match self {
                MetricValue::DistinctSet { values } => {
                    union_into(values, b);
                    true
                },
                _ => false,
            },
            MetricValue::Distribution { samples: b, statistic: t } => match self {
                MetricValue::Distribution { samples, statistic } => {
                    if *statistic == *t {
                        append_samples(samples, b);
                        true
                    } else {
                        false
                    }
                },
                _ => false,
            },
            _ => false,
        }
    }
}

/// A value together with the kind and time of its observation.
#[derive(Clone, Debug, PartialEq, Eq)]
pub struct MetricData {
    pub kind: MetricKind,
    /// Nanoseconds since the Unix epoch, where known.
    pub timestamp: Option<i64>,
    pub value: MetricValue,
}

pub struct MetricDataView {
    pub kind: MetricKind,
    pub timestamp: Option<i64>,
    pub value: MetricValueView,
}

impl View for MetricData {
    type V = MetricDataView;

    open spec fn view(&self) -> MetricDataView {
        MetricDataView { kind: self.kind, timestamp: self.timestamp, value: self.value@ }
    }
}

/// The result of merging observation `incoming` into `existing`: it needs equal kinds and a
/// successful merge of the values, and takes the incoming timestamp.
pub open spec fn merge_data(existing: MetricDataView, incoming: MetricDataView) -> Option<
    MetricDataView,
> {
    if existing.kind != incoming.kind {
        None
    } else {
        match merge_values(existing.value, existing.kind, incoming.value) {
            Some(v) => Some(
                MetricDataView { kind: existing.kind, timestamp: incoming.timestamp, value: v },
            ),
            None => None,
        }
    }
}

impl MetricData {
    /// Merges observation `other` into `self`. On failure `self` is left as it was.
    pub fn add(&mut self, other: &MetricData) -> (r: bool)
        ensures
            r == merge_data(old(self)@, other@) is Some,
            r ==> final(self)@ == merge_data(old(self)@, other@)->Some_0,
            !r ==> *final(self) == *old(self),
            old(self).value.wf() && other.value.wf() ==> final(self).value.wf(),
    {
        if self.kind != other.kind {
            return false;
        }
        let kind = self.kind;
        if self.value.add(&other.value, kind) {
            self.timestamp = other.timestamp;
            true
        } else {
            false
        }
    }
}

/// A key and value attached to a metric series.
#[derive(Clone, Debug, PartialEq, Eq)]
pub struct Tag {
    pub key: String,
    pub value: String,
}

/// A named, tagged measurement.
#[derive(Clone, Debug, PartialEq, Eq)]
pub struct Metric {
    pub name: String,
    pub tags: Vec<Tag>,
    pub data: MetricData,
}

impl Metric {
    pub fn new(name: String, kind: MetricKind, value: MetricValue) -> (r: Metric)
        ensures
            r.name == name,
            r.tags@.len() == 0,
            r.data.kind == kind,
            r.data.timestamp is None,
            r.data.value == value,
    {
        Metric { name, tags: Vec::new(), data: MetricData { kind, timestamp: None, value } }
    }

    pub fn with_timestamp(self, timestamp: Option<i64>) -> (r: Metric)
        ensures
            r.name == self.name,
            r.tags == self.tags,
            r.data.kind == self.data.kind,
            r.data.value == self.data.value,
            r.data.timestamp == timestamp,
    {
        let Metric { name, tags, data } = self;
        Metric { name, tags, data: MetricData { kind: data.kind, timestamp, value: data.value } }
    }

    pub fn with_tags(self, tags: Vec<Tag>) -> (r: Metric)
        ensures
            r.name == self.name,
            r.tags == tags,
            r.data == self.data,
    {
        Metric { name: self.name, tags, data: self.data }
    }

    pub fn value(&self) -> (r: &MetricValue)
        ensures
            *r == self.data.value,
    {
        &self.data.value
    }

    pub fn kind(&self) -> (r: MetricKind)
        ensures
            r == self.data.kind,
    {
        self.data.kind
    }

    pub fn timestamp(&self) -> (r: Option<i64>)
        ensures
            r == self.data.timestamp,
    {
        self.data.timestamp
    }

    /// Merges observation `other` into this metric; name and tags never change.
    pub fn add(&mut self, other: &MetricData) -> (r: bool)
        ensures
            final(self).name == old(self).name,
            final(self).tags == old(self).tags,
            r == merge_data(old(self).data@, other@) is Some,
            r ==> final(self).data@ == merge_data(old(self).data@, other@)->Some_0,
            !r ==> *final(self) == *old(self),
            old(self).data.value.wf() && other.value.wf() ==> final(self).data.value.wf(),
    {
        self.data.add(other)
    }
}

/// Merges `a` and then `b` into `existing`, failing where either step fails.
pub open spec fn merge_values_twice(
    existing: MetricValueView,
    kind: MetricKind,
    a: MetricValueView,
    b: MetricValueView,
) -> Option<MetricValueView> {
    match merge_values(existing, kind, a) {
        Some(m) => merge_values(m, kind, b),
        None => None,
    }
}

/// A successful merge keeps the variant of the existing value.
pub proof fn lemma_merge_keeps_variant(
    existing: MetricDataView,
    incoming: MetricDataView,
)
    ensures
        merge_data(existing, incoming) is Some ==> same_variant(
            merge_data(existing, incoming)->Some_0.value,
            existing.value,
        ),
{
}

/// Values of different variants, or observations of different kinds, never merge.
pub proof fn lemma_merge_mismatch_fails(existing: MetricDataView, incoming: MetricDataView)
    requires
        !same_variant(existing.value, incoming.value) || existing.kind != incoming.kind,
    ensures
        merge_data(existing, incoming) is None,
{
}

/// Pre-aggregated histograms, summaries and sketches never merge, whatever comes in.
pub proof fn lemma_pre_aggregated_never_merges(
    existing: MetricDataView,
    incoming: MetricDataView,
)
    requires
        is_pre_aggregated(existing.value),
    ensures
        merge_data(existing, incoming) is None,
{
}

/// Merging three counter increments into a zero counter yields their sum, in whichever
/// order they come, as long as no partial sum leaves the range of `i64`.
pub proof fn lemma_counter_increments_sum(kind: MetricKind, x: int, y: int, z: int)
    requires
        fits_i64(x),
        fits_i64(y),
        fits_i64(z),
        fits_i64(x + y),
        fits_i64(x + y + z),
    ensures
        ({
            let zero = MetricValueView::Counter { value: 0 };
            match merge_values_twice(
                zero,
                kind,
                MetricValueView::Counter { value: x },
                MetricValueView::Counter { value: y },
            ) {
                Some(m) => merge_values(m, kind, MetricValueView::Counter { value: z }) == Some(
                    MetricValueView::Counter { value: x + y + z },
                ),
                None => false,
            }
        }),
{
}

/// Merging two batches of samples into a distribution appends them in order, with no
/// reordering and no deduplication.
pub proof fn lemma_distribution_merge_concatenates(
    kind: MetricKind,
    statistic: StatisticKind,
    s0: Seq<Sample>,
    s1: Seq<Sample>,
    s2: Seq<Sample>,
)
    ensures
        merge_values_twice(
            MetricValueView::Distribution { samples: s0, statistic },
            kind,
            MetricValueView::Distribution { samples: s1, statistic },
            MetricValueView::Distribution { samples: s2, statistic },
        ) == Some(MetricValueView::Distribution { samples: s0 + s1 + s2, statistic }),
{
}

/// Set merges commute, and merging the same set a second time changes nothing.
pub proof fn lemma_set_merge_commutes_and_is_idempotent(
    kind: MetricKind,
    s: Set<Seq<char>>,
    a: Set<Seq<char>>,
    b: Set<Seq<char>>,
)
    ensures
        merge_values_twice(
            MetricValueView::DistinctSet { values: s },
            kind,
            MetricValueView::DistinctSet { values: a },
            MetricValueView::DistinctSet { values: b },
        ) == merge_values_twice(
            MetricValueView::DistinctSet { values: s },
            kind,
            MetricValueView::DistinctSet { values: b },
            MetricValueView::DistinctSet { values: a },
        ),
        merge_values_twice(
            MetricValueView::DistinctSet { values: s },
            kind,
            MetricValueView::DistinctSet { values: a },
            MetricValueView::DistinctSet { values: a },
        ) == merge_values(
            MetricValueView::DistinctSet { values: s },
            kind,
            MetricValueView::DistinctSet { values: a },
        ),
{
    assert(s.union(a).union(b) =~= s.union(b).union(a));
    assert(s.union(a).union(a) =~= s.union(a));
}

/// Whether `v` holds a string equal to `s`.
pub fn contains_string(v: &Vec<String>, s: &String) -> (r: bool)
    ensures
        r == exists|i: int| 0 <= i < v@.len() && v@[i]@ == s@,
{
    let mut i: usize = 0;
    while i < v.len()
        invariant
            i <= v@.len(),
            forall|j: int| 0 <= j < i ==> v@[j]@ != s@,
        decreases v@.len() - i,
    {
        if v[i] == *s {
            return true;
        }
        i += 1;
    }
    false
}

/// Adds to `values` each string of `other` that it does not hold yet, in order.
fn union_into(values: &mut Vec<String>, other: &Vec<String>)
    ensures
        string_set(final(values)@) == string_set(old(values)@).union(string_set(other@)),
        distinct_strings(old(values)@) && distinct_strings(other@) ==> distinct_strings(
            final(values)@,
        ),
{
    let ghost start = values@;
    let mut i: usize = 0;
    while i < other.len()
        invariant
            i <= other@.len(),
            string_set(values@) == string_set(start).union(string_set(other@.take(i as int))),
            distinct_strings(start) && distinct_strings(other@) ==> distinct_strings(values@),
        decreases other@.len() - i,
    {
        let ghost before = values@;
        let s = &other[i];
        assert(other@.take(i + 1) == other@.take(i as int).push(other@[i as int]));
        if !contains_string(values, s) {
            values.push(s.clone());
            assert(values@ == before.push(other@[i as int]));
            proof {
                lemma_string_set_push(before, other@[i as int]);
            }
        } else {
            let ghost k = choose|k: int| 0 <= k < before.len() && before[k]@ == s@;
            assert(string_set(before).contains(s@)) by {
                assert(before.map_values(|t: String| t@)[k] == s@);
            }
        }
        proof {
            lemma_string_set_push(other@.take(i as int), other@[i as int]);
        }
        assert(string_set(values@) == string_set(start).union(
            string_set(other@.take(i + 1)),
        ));
        i += 1;
    }
    assert(other@.take(other@.len() as int) == other@);
}

proof fn lemma_string_set_push(v: Seq<String>, s: String)
    ensures
        string_set(v.push(s)) == string_set(v).insert(s@),
{
    assert(v.push(s).map_values(|t: String| t@) == v.map_values(|t: String| t@).push(s@));
    v.map_values(|t: String| t@).lemma_push_to_set_commute(s@);
}

/// Appends the samples of `other` to `samples`, in order.
fn append_samples(samples: &mut Vec<Sample>, other: &Vec<Sample>)
    ensures
        final(samples)@ == old(samples)@ + other@,
{
    let ghost start = samples@;
    let mut i: usize = 0;
    while i < other.len()
        invariant
            i <= other@.len(),
            samples@ == start + other@.take(i as int),
        decreases other@.len() - i,
    {
        samples.push(other[i]);
        assert(other@.take(i + 1) == other@.take(i as int).push(other@[i as int]));
        i += 1;
    }
    assert(other@.take(other@.len() as int) == other@);
}

} // verus!
