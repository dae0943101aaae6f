use vstd::prelude::*;
use vstd::string::*;

use crate::metric::{
    merge_data, string_set, Metric, MetricData, MetricDataView, MetricValue, MetricValueView,
    Sample,
};
use crate::value::{has_key, inserted, key_index, render, render_text, Object, Value};

verus! {

/// One record flowing through a pipeline. Logs and traces carry their fields as an object.
#[derive(Debug, PartialEq, Eq)]
pub enum Event {
    Log(Object),
    Metric(Metric),
    Trace(Object),
}

impl Event {
    pub open spec fn wf(&self) -> bool {
        match self {
            Event::Log(fields) => fields.wf(),
            Event::Trace(fields) => fields.wf(),
            Event::Metric(_) => true,
        }
    }
}

/// The events produced by one invocation of a stage, in the order they were pushed.
#[derive(Debug)]
pub struct OutputBuffer {
    events: Vec<Event>,
}

impl OutputBuffer {
    pub closed spec fn events(&self) -> Seq<Event> {
        self.events@
    }

    pub fn new() -> (r: OutputBuffer)
        ensures
            r.events().len() == 0,
    {
        OutputBuffer { events: Vec::new() }
    }

    pub fn push(&mut self, event: Event)
        ensures
            final(self).events() == old(self).events().push(event),
    {
        self.events.push(event);
    }

    pub fn len(&self) -> (r: usize)
        ensures
            r == self.events().len(),
    {
        self.events.len()
    }

    /// Hands out the buffered events in order and leaves the buffer empty.
    pub fn drain(&mut self) -> (r: Vec<Event>)
        ensures
            r@ == old(self).events(),
            final(self).events().len() == 0,
    {
        let mut out = Vec::new();
        std::mem::swap(&mut out, &mut self.events);
        out
    }
}

/// Which kinds of event a stage takes or produces.
#[derive(Clone, Copy, Debug, PartialEq, Eq, Structural)]
pub struct DataType {
    pub log: bool,
    pub metric: bool,
    pub trace: bool,
}

impl DataType {
    pub fn all() -> (r: DataType)
        ensures
            r.log && r.metric && r.trace,
    {
        DataType { log: true, metric: true, trace: true }
    }
}

/// What a stage accepts.
#[derive(Clone, Copy, Debug, PartialEq, Eq, Structural)]
pub struct Input {
    pub types: DataType,
}

/// One output port of a stage; the default port has no name.
#[derive(Clone, Debug)]
pub struct Output {
    pub port: Option<String>,
    pub types: DataType,
}

/// Where log and trace records keep their fields of note.
#[derive(Clone, Debug)]
pub struct LogSchema {
    message_key: String,
}

impl LogSchema {
    pub closed spec fn message_key_view(&self) -> String {
        self.message_key
    }

    pub fn new(message_key: String) -> (r: LogSchema)
        ensures
            r.message_key_view() == message_key,
    {
        LogSchema { message_key }
    }

    /// The schema whose message field is `message`.
    pub fn standard() -> (r: LogSchema)
        ensures
            r.message_key_view()@ == seq!['m', 'e', 's', 's', 'a', 'g', 'e'],
    {
        proof {
            reveal_strlit("message");
        }
        LogSchema { message_key: String::from_str("message") }
    }

    pub fn message_key(&self) -> (r: &String)
        ensures
            *r == self.message_key_view(),
    {
        &self.message_key
    }
}

/// The shared facilities a stage is built with.
#[derive(Clone, Debug)]
pub struct TransformContext {
    pub log_schema: LogSchema,
}

/// Why one event could not be processed.
#[derive(Clone, Copy, Debug, PartialEq, Eq, Structural)]
pub enum TransformError {
    /// The record lacks the message field.
    MissingField,
}

/// The options of the basic stage: a suffix for text and sets, an increment for numbers.
#[derive(Clone, Debug)]
pub struct BasicTransformConfig {
    suffix: String,
    increase: i64,
}

impl BasicTransformConfig {
    pub closed spec fn suffix_view(&self) -> String {
        self.suffix
    }

    pub closed spec fn increase_view(&self) -> i64 {
        self.increase
    }

    pub fn new(suffix: String, increase: i64) -> (r: BasicTransformConfig)
        ensures
            r.suffix_view() == suffix,
            r.increase_view() == increase,
    {
        BasicTransformConfig { suffix, increase }
    }

    pub fn suffix(&self) -> (r: &String)
        ensures
            *r == self.suffix_view(),
    {
        &self.suffix
    }

    pub fn increase(&self) -> (r: i64)
        ensures
            r == self.increase_view(),
    {
        self.increase
    }

    /// Builds the stage; the message field comes from the context's log schema.
    pub fn build(&self, context: &TransformContext) -> (r: BasicTransform)
        ensures
            r.suffix_view() == self.suffix_view(),
            r.increase_view() == self.increase_view(),
            r.message_key_view() == context.log_schema.message_key_view(),
    {
        BasicTransform {
            suffix: self.suffix.clone(),
            increase: self.increase,
            message_key: context.log_schema.message_key().clone(),
        }
    }

    /// The stage takes every kind of event.
    pub fn input(&self) -> (r: Input)
        ensures
            r.types.log && r.types.metric && r.types.trace,
    {
        Input { types: DataType::all() }
    }

    /// One unnamed output that may carry every kind of event.
    pub fn outputs(&self) -> (r: Vec<Output>)
        ensures
            r@.len() == 1,
            r@[0].port is None,
            r@[0].types.log && r@[0].types.metric && r@[0].types.trace,
    {
        let mut v = Vec::new();
        v.push(Output { port: None, types: DataType::all() });
        v
    }

    pub fn transform_type(&self) -> (r: &'static str)
        ensures
            r@ == seq!['b', 'a', 's', 'i', 'c', '_', 't', 'r', 'a', 'n', 's', 'f', 'o', 'r', 'm'],
    {
        proof {
            reveal_strlit("basic_transform");
        }
        "basic_transform"
    }
}

/// The increment that the basic stage merges into a metric of the given shape, if any.
pub open spec fn increment_for(
    current: MetricValueView,
    increase: i64,
    suffix: Seq<char>,
) -> Option<MetricValueView> {
    match current {
        MetricValueView::Counter { .. } => Some(MetricValueView::Counter { value: increase as int }),
        MetricValueView::Gauge { .. } => Some(MetricValueView::Gauge { value: increase as int }),
        MetricValueView::Distribution { statistic, .. } => Some(
            MetricValueView::Distribution {
                samples: seq![Sample { value: increase, rate: 1 }],
                statistic,
            },
        ),
        MetricValueView::DistinctSet { .. } => Some(
            MetricValueView::DistinctSet { values: set![suffix] },
        ),
        _ => None,
    }
}

/// The metric data after the basic stage: the increment merged in where there is one and the
/// merge succeeds, else unchanged.
pub open spec fn metric_after(data: MetricDataView, increase: i64, suffix: Seq<char>) -> MetricDataView {
    match increment_for(data.value, increase, suffix) {
        Some(inc) => match merge_data(
            data,
            MetricDataView { kind: data.kind, timestamp: data.timestamp, value: inc },
        ) {
            Some(merged) => merged,
            None => data,
        },
        None => data,
    }
}

/// Whether `after` is `before` with the text of field `key` extended by `suffix`, in place.
pub open spec fn message_appended(
    before: Object,
    after: Object,
    key: String,
    suffix: Seq<char>,
) -> bool {
    &&& has_key(before.entries(), key@)
    &&& exists|t: String|
        #![trigger t@]
        t@ == render(before.entries()[key_index(before.entries(), key@)].1) + suffix
            && after.entries() == inserted(before.entries(), key, Value::Bytes(t))
}

/// Whether `after` is what the basic stage makes of `before`, given that it succeeded.
pub open spec fn rewritten(
    before: Event,
    after: Event,
    key: String,
    increase: i64,
    suffix: Seq<char>,
) -> bool {
    match (before, after) {
        (Event::Log(a), Event::Log(b)) => message_appended(a, b, key, suffix),
        (Event::Trace(a), Event::Trace(b)) => message_appended(a, b, key, suffix),
        (Event::Metric(a), Event::Metric(b)) => {
            &&& b.name == a.name
            &&& b.tags == a.tags
            &&& b.data@ == metric_after(a.data@, increase, suffix)
        },
        _ => false,
    }
}

/// Whether the basic stage finds no message field in `e`.
pub open spec fn lacks_message(e: Event, key: Seq<char>) -> bool {
    match e {
        Event::Log(fields) => !has_key(fields.entries(), key),
        Event::Trace(fields) => !has_key(fields.entries(), key),
        Event::Metric(_) => false,
    }
}

/// A stage that appends a suffix to the message of logs and traces, and merges an increment
/// into metrics.
#[derive(Clone, Debug)]
pub struct BasicTransform {
    suffix: String,
    increase: i64,
    message_key: String,
}

impl BasicTransform {
    pub closed spec fn suffix_view(&self) -> String {
        self.suffix
    }

    pub closed spec fn increase_view(&self) -> i64 {
        self.increase
    }

    pub closed spec fn message_key_view(&self) -> String {
        self.message_key
    }

    /// The increment for a metric whose current value is `current`.
    fn increment(&self, current: &MetricValue) -> (r: Option<MetricValue>)
        ensures
            r is Some == increment_for(current@, self.increase, self.suffix@) is Some,
            r is Some ==> r->Some_0@ == increment_for(current@, self.increase, self.suffix@)->Some_0,
    {
        match current {
            MetricValue::Counter { .. } => Some(MetricValue::Counter { value: self.increase }),
            MetricValue::Gauge { .. } => Some(MetricValue::Gauge { value: self.increase }),
            MetricValue::Distribution { statistic, .. } => {
                let mut samples = Vec::new();
                samples.push(Sample { value: self.increase, rate: 1 });
                proof {
                    assert(samples@ =~= seq![Sample { value: self.increase, rate: 1 }]);
                }
                Some(MetricValue::Distribution { samples, statistic: *statistic })
            },
            MetricValue::DistinctSet { .. } => {
                let mut values = Vec::new();
                values.push(self.suffix.clone());
                proof {
                    assert(values@ =~= seq![self.suffix]);
                    assert(values@.map_values(|s: String| s@) =~= seq![self.suffix@]);
                    let one = seq![self.suffix@];
                    assert(one.to_set() =~= set![self.suffix@]) by {
                        assert(one[0] == self.suffix@);
                        assert(one.contains(self.suffix@));
                    }
                    assert(string_set(values@) =~= set![self.suffix@]);
                }
                Some(MetricValue::DistinctSet { values })
            },
            _ => None,
        }
    }

    /// Appends the suffix to the text of the message field, where there is one.
    fn append_to_message(&self, fields: &mut Object) -> (r: bool)
        requires
            old(fields).wf(),
        ensures
            final(fields).wf(),
            r == has_key(old(fields).entries(), self.message_key@),
            r ==> message_appended(*old(fields), *final(fields), self.message_key, self.suffix@),
            !r ==> *final(fields) == *old(fields),
    {
        let mut text = match fields.get(&self.message_key) {
            Some(v) => render_text(v),
            None => {
                return false;
            },
        };
        text.append(self.suffix.as_str());
        let ghost t = text;
        let ghost before = *fields;
        fields.insert(self.message_key.clone(), Value::Bytes(text));
        proof {
            assert(t@ == render(before.entries()[key_index(before.entries(), self.message_key@)].1)
                + self.suffix@);
        }
        true
    }

    /// Processes one event and pushes the result to `output`. Logs and traces get the suffix
    /// appended to their message; a record without one is passed on unchanged and reported.
    /// Metrics get the increment merged in; where there is none, or it does not merge, the
    /// metric is passed on unchanged.
    pub fn transform(&mut self, output: &mut OutputBuffer, event: Event) -> (r: Result<
        (),
        TransformError,
    >)
        requires
            event.wf(),
        ensures
            *final(self) == *old(self),
            final(output).events().len() == old(output).events().len() + 1,
            final(output).events().take(old(output).events().len() as int) == old(
                output,
            ).events(),
            final(output).events().last().wf(),
            r is Err <==> lacks_message(event, old(self).message_key_view()@),
            r is Err ==> r->Err_0 == TransformError::MissingField && final(output).events().last()
                == event,
            r is Ok ==> rewritten(
                event,
                final(output).events().last(),
                old(self).message_key_view(),
                old(self).increase_view(),
                old(self).suffix_view()@,
            ),
    {
        let ghost n = output.events().len();
        let (result, out) = match event {
            Event::Log(mut fields) => {
                let ok = self.append_to_message(&mut fields);
                (if ok {
                    Ok(())
                } else {
                    Err(TransformError::MissingField)
                }, Event::Log(fields))
            },
            Event::Trace(mut fields) => {
                let ok = self.append_to_message(&mut fields);
                (if ok {
                    Ok(())
                } else {
                    Err(TransformError::MissingField)
                }, Event::Trace(fields))
            },
            Event::Metric(mut metric) => {
                match self.increment(metric.value()) {
                    Some(value) => {
                        let data = MetricData {
                            kind: metric.kind(),
                            timestamp: metric.timestamp(),
                            value,
                        };
                        let _ = metric.add(&data);
                    },
                    None => {},
                }
                (Ok(()), Event::Metric(metric))
            },
        };
        output.push(out);
        proof {
            assert(output.events().take(n as int) =~= old(output).events());
        }
        result
    }
}

} // verus!
