//! The exporter crate and the append-only vector, as far as the metrics are
//! built with them. Nothing in this file is proved: each contract says what
//! the called code does.

use vstd::prelude::*;
use append_only_vec::AppendOnlyVec;
use prometheus_exporter_base::{MetricType, PrometheusInstance, PrometheusMetric, Yes};
use crate::exposition::{decimal, instance_text, metric_text};

verus! {

/// `PrometheusMetric`: a metric family with the instances that were
/// appended to it.
#[verifier::external_type_specification]
#[verifier::external_body]
pub struct ExPrometheusMetric<'a>(PrometheusMetric<'a>);

/// `AppendOnlyVec`: a vector whose items stay where they were pushed.
#[verifier::external_type_specification]
#[verifier::external_body]
#[verifier::reject_recursive_types(T)]
pub struct ExAppendOnlyVec<T>(AppendOnlyVec<T>);

/// A `PrometheusInstance` with a value of 64 bits. The crate bounds the
/// value's type by a trait of the `num` crate, so the instance is held in a
/// struct of this library rather than declared by its own name.
#[verifier::external_body]
pub struct Instance<'a> {
    inner: PrometheusInstance<'a, u64, Yes>,
}

/// The kinds of metric that are exported.
#[derive(Copy, Clone, Debug, PartialEq, Eq, Structural)]
pub enum MetricKind {
    Counter,
    Gauge,
}

/// The name of the kind, as it stands on a family's `TYPE` line.
pub open spec fn kind_text(kind: MetricKind) -> Seq<char> {
    match kind {
        MetricKind::Counter => "counter"@,
        MetricKind::Gauge => "gauge"@,
    }
}

/// What a metric holds: its name, its help text, the name of its kind, and
/// the instances that were appended to it, rendered, in order.
pub struct MetricView {
    pub name: Seq<char>,
    pub help: Seq<char>,
    pub kind: Seq<char>,
    pub instances: Seq<Seq<char>>,
}

/// What an instance holds: its labels in the order in which they were
/// attached, its value, and its timestamp in milliseconds.
pub struct InstanceView {
    pub labels: Seq<(Seq<char>, Seq<char>)>,
    pub value: u64,
    pub timestamp: Option<u128>,
}

/// What a metric holds.
pub uninterp spec fn metric_view(metric: PrometheusMetric<'_>) -> MetricView;

/// What an instance holds.
pub uninterp spec fn instance_view(instance: Instance<'_>) -> InstanceView;

/// What an append-only vector holds, in the order of the pushes.
pub uninterp spec fn held_items(items: AppendOnlyVec<String>) -> Seq<Seq<char>>;

/// The timestamp as it stands on a sample's line.
pub open spec fn timestamp_text(timestamp: Option<u128>) -> Option<Seq<char>> {
    match timestamp {
        Some(t) => Some(decimal(t as nat)),
        None => None,
    }
}

/// An instance as it stands on a sample's line, after the metric's name.
pub open spec fn rendered_instance(instance: InstanceView) -> Seq<char> {
    instance_text(
        instance.labels,
        decimal(instance.value as nat),
        timestamp_text(instance.timestamp),
    )
}

/// `PrometheusMetric::build()` with `with_name`, `with_metric_type` and
/// `with_help`, then `build()`: the builder stores the three and starts
/// with no instance.
#[verifier::external_body]
pub(crate) fn new_metric<'a>(name: &'a str, kind: MetricKind, help: &'a str) -> (metric:
    PrometheusMetric<'a>)
    ensures
        metric_view(metric) == (MetricView {
            name: name@,
            help: help@,
            kind: kind_text(kind),
            instances: Seq::empty(),
        }),
{
    let metric_type = match kind {
        MetricKind::Counter => MetricType::Counter,
        MetricKind::Gauge => MetricType::Gauge,
    };
    PrometheusMetric::build().with_name(name).with_metric_type(metric_type).with_help(help).build()
}

/// `PrometheusInstance::new()` and `with_value`: an instance with the
/// value, no label and no timestamp.
#[verifier::external_body]
pub(crate) fn new_instance<'a>(value: u64) -> (instance: Instance<'a>)
    ensures
        instance_view(instance) == (InstanceView {
            labels: Seq::empty(),
            value,
            timestamp: None,
        }),
{
    Instance { inner: PrometheusInstance::new().with_value(value) }
}

/// `PrometheusInstance::with_label`: the label goes after those that the
/// instance has; nothing else changes.
#[verifier::external_body]
pub(crate) fn with_label<'a>(instance: Instance<'a>, key: &'a str, value: &'a str) -> (out:
    Instance<'a>)
    ensures
        instance_view(out) == (InstanceView {
            labels: instance_view(instance).labels.push((key@, value@)),
            ..instance_view(instance)
        }),
{
    Instance { inner: instance.inner.with_label(key, value) }
}

/// `PrometheusInstance::with_timestamp`: the timestamp is set; nothing
/// else changes.
#[verifier::external_body]
pub(crate) fn with_timestamp<'a>(instance: Instance<'a>, timestamp: u128) -> (out: Instance<'a>)
    ensures
        instance_view(out) == (InstanceView {
            timestamp: Some(timestamp),
            ..instance_view(instance)
        }),
{
    Instance { inner: instance.inner.with_timestamp(timestamp) }
}

/// `PrometheusMetric::render_and_append_instance`: the instance is
/// rendered at once (its labels between braces, its value, its timestamp)
/// and the text goes after the instances that the metric has.
#[verifier::external_body]
pub(crate) fn append_instance(metric: &mut PrometheusMetric<'_>, instance: &Instance<'_>)
    ensures
        metric_view(*final(metric)) == (MetricView {
            instances: metric_view(*old(metric)).instances.push(
                rendered_instance(instance_view(*instance)),
            ),
            ..metric_view(*old(metric))
        }),
{
    metric.render_and_append_instance(&instance.inner);
}

/// `PrometheusMetric::render`: the `HELP` and `TYPE` lines, then one line
/// for each instance, the metric's name before it.
#[verifier::external_body]
pub(crate) fn render_metric(metric: &PrometheusMetric<'_>) -> (text: String)
    ensures
        text@ == metric_text(
            metric_view(*metric).name,
            metric_view(*metric).help,
            metric_view(*metric).kind,
            metric_view(*metric).instances,
        ),
{
    metric.render()
}

/// `AppendOnlyVec::new`: an empty vector.
#[verifier::external_body]
pub(crate) fn new_items() -> (items: AppendOnlyVec<String>)
    ensures
        held_items(items) == Seq::<Seq<char>>::empty(),
{
    AppendOnlyVec::new()
}

/// `AppendOnlyVec::push_mut`: the item goes to the end, and the index at
/// which it stands is returned (the length before the push, as the code
/// has it).
#[verifier::external_body]
pub(crate) fn push_item(items: &mut AppendOnlyVec<String>, item: String) -> (index: usize)
    ensures
        held_items(*final(items)) == held_items(*old(items)).push(item@),
        index == held_items(*old(items)).len(),
{
    items.push_mut(item)
}

/// Indexing an `AppendOnlyVec`: the item that was pushed at `index`. An
/// index that no push has returned is left out: there the index panics.
#[verifier::external_body]
pub(crate) fn item_at(items: &AppendOnlyVec<String>, index: usize) -> (item: &String)
    requires
        index < held_items(*items).len(),
    ensures
        item@ == held_items(*items)[index as int],
{
    &items[index]
}

} // verus!
