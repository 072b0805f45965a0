//! A handle on the installed metrics recorder that keeps a record of the
//! describe calls made through it.
//!
//! The record is private to this module: outside it, it grows only by the
//! describe calls themselves.
use vstd::prelude::*;
use crate::observability::metrics::{MetricDescriptionView, MetricKind, MetricUnit};

verus! {

/// The describe calls made through a handle on the installed metrics
/// recorder, in the order in which they were made.
pub struct DescribeCalls {
    made: Ghost<Seq<MetricDescriptionView>>,
}

impl View for DescribeCalls {
    type V = Seq<MetricDescriptionView>;

    closed spec fn view(&self) -> Seq<MetricDescriptionView> {
        self.made@
    }
}

impl DescribeCalls {
    /// A handle through which no call has been made yet.
    pub(crate) fn new() -> (calls: DescribeCalls)
        ensures
            calls@ == Seq::<MetricDescriptionView>::empty(),
    {
        DescribeCalls { made: Ghost(Seq::empty()) }
    }
}

/// Describes the counter `name` to the installed metrics recorder, without a
/// unit.
///
/// Calls `metrics::with_recorder` with a closure that hands the name (as a
/// `KeyName`), no unit and the description (as a `SharedString`) to the
/// recorder's `describe_counter`, as the crate's `describe_counter!` macro
/// does. The contract records that call in `calls`; what the recorder does
/// with it is the recorder's own state, which no clause states.
#[verifier::external_body]
pub(crate) fn describe_counter(calls: &mut DescribeCalls, name: &'static str, description: &'static str)
    ensures
        final(calls)@ == old(calls)@.push(
            (MetricDescriptionView { kind: MetricKind::Counter, name: name@, description: description@ }),
        ),
{
    ::metrics::with_recorder(
        |recorder| recorder.describe_counter(name.into(), None, description.into()),
    );
}

/// Describes the gauge `name`, measured in `unit`, to the installed metrics
/// recorder.
///
/// Calls `metrics::with_recorder` with a closure that hands the name, the
/// unit (as the `metrics::Unit` of the same name) and the description to the
/// recorder's `describe_gauge`, as the `describe_gauge!` macro does. The
/// contract records that call in `calls`; what the recorder does with it is
/// the recorder's own state, which no clause states.
#[verifier::external_body]
pub(crate) fn describe_gauge(
    calls: &mut DescribeCalls,
    name: &'static str,
    unit: MetricUnit,
    description: &'static str,
)
    ensures
        final(calls)@ == old(calls)@.push(
            (MetricDescriptionView { kind: MetricKind::Gauge(unit), name: name@, description: description@ }),
        ),
{
    let unit = match unit {
        MetricUnit::Count => ::metrics::Unit::Count,
        MetricUnit::Seconds => ::metrics::Unit::Seconds,
        MetricUnit::Bytes => ::metrics::Unit::Bytes,
    };
    ::metrics::with_recorder(
        |recorder| recorder.describe_gauge(name.into(), Some(unit), description.into()),
    );
}

/// Describes the histogram `name`, measured in `unit`, to the installed
/// metrics recorder.
///
/// Calls `metrics::with_recorder` with a closure that hands the name, the
/// unit (as the `metrics::Unit` of the same name) and the description to the
/// recorder's `describe_histogram`, as the `describe_histogram!` macro does.
/// The contract records that call in `calls`; what the recorder does with it
/// is the recorder's own state, which no clause states.
#[verifier::external_body]
pub(crate) fn describe_histogram(
    calls: &mut DescribeCalls,
    name: &'static str,
    unit: MetricUnit,
    description: &'static str,
)
    ensures
        final(calls)@ == old(calls)@.push(
            (MetricDescriptionView { kind: MetricKind::Histogram(unit), name: name@, description: description@ }),
        ),
{
    let unit = match unit {
        MetricUnit::Count => ::metrics::Unit::Count,
        MetricUnit::Seconds => ::metrics::Unit::Seconds,
        MetricUnit::Bytes => ::metrics::Unit::Bytes,
    };
    ::metrics::with_recorder(
        |recorder| recorder.describe_histogram(name.into(), Some(unit), description.into()),
    );
}

} // verus!
