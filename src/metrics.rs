//! The scheduler's counters and gauges: their names, and the order in which
//! they are registered for export.
use vstd::prelude::*;

verus! {

/// One of the scheduler's metrics.
#[derive(Clone, Copy, Debug, PartialEq, Eq, Structural)]
pub enum MetricKind {
    /// Counter of schedule requests.
    ScheduledTasks,
    /// Counter of cancel requests.
    CancelledTasks,
    /// Counter of get requests.
    GetTasks,
    /// Counter of tasks handed to the message bus.
    ProcessedTasks,
    /// Counter of tasks that the bus accepted.
    SuccessfulTasks,
    /// Counter of tasks that the bus refused.
    FailedTasks,
    /// Gauge of the tasks pending in the store.
    TotalTasks,
    /// Gauge of requests for many tasks at once.
    BulkTaskRequests,
}

/// The metrics registered for export in this process, in order of
/// registration. Like prometheus' registry, it refuses a metric registered
/// before.
pub struct NameRegistry {
    names: Vec<MetricKind>,
}

impl NameRegistry {
    /// The metrics registered so far, in order.
    pub closed spec fn registered(&self) -> Seq<MetricKind> {
        self.names@
    }

    /// A registry with nothing registered.
    pub fn new() -> (r: NameRegistry)
        ensures
            r.registered() == Seq::<MetricKind>::empty(),
    {
        NameRegistry { names: Vec::new() }
    }

    /// Whether `metric` is registered.
    pub fn contains(&self, metric: MetricKind) -> (r: bool)
        ensures
            r == self.registered().contains(metric),
    {
        let mut i: usize = 0;
        while i < self.names.len()
            invariant
                i <= self.names@.len(),
                forall|j: int| 0 <= j < i ==> self.names@[j] != metric,
            decreases self.names@.len() - i,
        {
            if self.names[i] == metric {
                assert(self.names@[i as int] == metric);
                return true;
            }
            i = i + 1;
        }
        false
    }

    /// The number of metrics registered.
    pub fn len(&self) -> (r: usize)
        ensures
            r == self.registered().len(),
    {
        self.names.len()
    }

    /// Registers `metric`, unless it is registered already; says whether it
    /// was.
    pub fn register(&mut self, metric: MetricKind) -> (r: bool)
        ensures
            r == !old(self).registered().contains(metric),
            r ==> final(self).registered() == old(self).registered().push(metric),
            !r ==> final(self).registered() == old(self).registered(),
    {
        if self.contains(metric) {
            false
        } else {
            self.names.push(metric);
            true
        }
    }
}

/// The number of metrics that `register_custom_metrics` registers.
pub const CUSTOM_METRICS: usize = 8;

/// The metrics registered for export, in order of registration.
pub open spec fn custom_metric_order() -> Seq<MetricKind> {
    seq![
        MetricKind::ScheduledTasks,
        MetricKind::CancelledTasks,
        MetricKind::ProcessedTasks,
        MetricKind::GetTasks,
        MetricKind::SuccessfulTasks,
        MetricKind::FailedTasks,
        MetricKind::TotalTasks,
        MetricKind::BulkTaskRequests,
    ]
}

/// Why the metrics could not all be registered.
#[derive(Clone, Copy, Debug, PartialEq, Eq, Structural)]
pub enum MetricsError {
    /// The registry refused the metric at this position of the registration
    /// order; the ones before it were registered.
    Refused { metric: MetricKind, position: usize },
}

impl MetricKind {
    /// The exported name of the metric.
    pub fn name(&self) -> (r: &'static str)
        ensures
            r@ == match self {
                MetricKind::ScheduledTasks => "scheduled_tasks"@,
                MetricKind::CancelledTasks => "cancelled_tasks"@,
                MetricKind::GetTasks => "get_tasks"@,
                MetricKind::ProcessedTasks => "processed_tasks"@,
                MetricKind::SuccessfulTasks => "successful_tasks"@,
                MetricKind::FailedTasks => "failed_tasks"@,
                MetricKind::TotalTasks => "total_tasks"@,
                MetricKind::BulkTaskRequests => "bulk_task_requests"@,
            },
    {
        match self {
            MetricKind::ScheduledTasks => "scheduled_tasks",
            MetricKind::CancelledTasks => "cancelled_tasks",
            MetricKind::GetTasks => "get_tasks",
            MetricKind::ProcessedTasks => "processed_tasks",
            MetricKind::SuccessfulTasks => "successful_tasks",
            MetricKind::FailedTasks => "failed_tasks",
            MetricKind::TotalTasks => "total_tasks",
            MetricKind::BulkTaskRequests => "bulk_task_requests",
        }
    }

    /// The exported description of the metric.
    pub fn help(&self) -> (r: &'static str)
        ensures
            r@ == match self {
                MetricKind::ScheduledTasks => "Scheduled tasks"@,
                MetricKind::CancelledTasks => "Cancelled tasks"@,
                MetricKind::GetTasks => "Get tasks"@,
                MetricKind::ProcessedTasks => "Tasks delivered to RabbitMQ"@,
                MetricKind::SuccessfulTasks => "Successful tasks"@,
                MetricKind::FailedTasks => "Failed tasks"@,
                MetricKind::TotalTasks => "Total tasks"@,
                MetricKind::BulkTaskRequests => "Bulk task requests"@,
            },
    {
        match self {
            MetricKind::ScheduledTasks => "Scheduled tasks",
            MetricKind::CancelledTasks => "Cancelled tasks",
            MetricKind::GetTasks => "Get tasks",
            MetricKind::ProcessedTasks => "Tasks delivered to RabbitMQ",
            MetricKind::SuccessfulTasks => "Successful tasks",
            MetricKind::FailedTasks => "Failed tasks",
            MetricKind::TotalTasks => "Total tasks",
            MetricKind::BulkTaskRequests => "Bulk task requests",
        }
    }

    /// Whether the metric is a gauge rather than a counter.
    pub fn is_gauge(&self) -> (r: bool)
        ensures
            r <==> (*self == MetricKind::TotalTasks || *self == MetricKind::BulkTaskRequests),
    {
        match self {
            MetricKind::TotalTasks | MetricKind::BulkTaskRequests => true,
            _ => false,
        }
    }
}

/// The metrics registered for export, in order of registration.
pub fn custom_metrics() -> (r: Vec<MetricKind>)
    ensures
        r@ == custom_metric_order(),
{
    let mut v: Vec<MetricKind> = Vec::new();
    v.push(MetricKind::ScheduledTasks);
    v.push(MetricKind::CancelledTasks);
    v.push(MetricKind::ProcessedTasks);
    v.push(MetricKind::GetTasks);
    v.push(MetricKind::SuccessfulTasks);
    v.push(MetricKind::FailedTasks);
    v.push(MetricKind::TotalTasks);
    v.push(MetricKind::BulkTaskRequests);
    assert(v@ =~= custom_metric_order());
    v
}

/// Registers the counters of scheduled, cancelled, processed and fetched
/// tasks and of tasks the bus accepted or refused, then the gauges of
/// pending tasks and of bulk requests, in that order, stopping at the first
/// metric that is registered already.
pub fn register_custom_metrics(registry: &mut NameRegistry) -> (r: Result<(), MetricsError>)
    ensures
        r is Ok <==> forall|i: int|
            0 <= i < CUSTOM_METRICS ==> !old(registry).registered().contains(
                #[trigger] custom_metric_order()[i],
            ),
        r is Ok ==> final(registry).registered() == old(registry).registered()
            + custom_metric_order(),
        r matches Err(MetricsError::Refused { metric, position }) ==> {
            &&& position < CUSTOM_METRICS
            &&& metric == custom_metric_order()[position as int]
            &&& old(registry).registered().contains(metric)
            &&& forall|i: int|
                0 <= i < position ==> !old(registry).registered().contains(
                    #[trigger] custom_metric_order()[i],
                )
            &&& final(registry).registered() == old(registry).registered()
                + custom_metric_order().take(position as int)
        },
{
    let ghost start = registry.registered();
    let ghost order_s = custom_metric_order();
    let order = custom_metrics();
    let mut i: usize = 0;
    assert(start + order_s.take(0) =~= start);
    while i < CUSTOM_METRICS
        invariant
            i <= CUSTOM_METRICS,
            order@ == order_s,
            order_s == custom_metric_order(),
            start == old(registry).registered(),
            registry.registered() == start + order_s.take(i as int),
            forall|j: int| 0 <= j < i ==> !start.contains(#[trigger] order_s[j]),
        decreases CUSTOM_METRICS - i,
    {
        let metric = order[i];
        assert(metric == order_s[i as int]);
        proof {
            assert forall|j: int| 0 <= j < i implies order_s[j] != metric by {}
            if start.contains(metric) {
            } else {
                assert(!(start + order_s.take(i as int)).contains(metric)) by {
                    if (start + order_s.take(i as int)).contains(metric) {
                        let k = choose|k: int|
                            0 <= k < (start + order_s.take(i as int)).len() && (start
                                + order_s.take(i as int))[k] == metric;
                        if k < start.len() {
                            assert(start[k] == metric);
                        } else {
                            assert(order_s[k - start.len()] == metric);
                        }
                    }
                }
            }
        }
        if !registry.register(metric) {
            return Err(MetricsError::Refused { metric, position: i });
        }
        proof {
            if start.contains(metric) {
                let k = choose|k: int| 0 <= k < start.len() && start[k] == metric;
                assert((start + order_s.take(i as int))[k] == metric);
            }
        }
        assert(start + order_s.take(i + 1) =~= (start + order_s.take(i as int)).push(metric));
        i = i + 1;
    }
    assert(order_s.take(8) =~= order_s);
    Ok(())
}

} // verus!
