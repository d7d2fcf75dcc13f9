use vstd::prelude::*;
use crate::numfmt::{spec_u64_string, u64_to_string};

verus! {

/// One sample of the queue depths, as the caller's pipelined length
/// query over the known queues returned them.
#[derive(Clone, Copy, Debug, PartialEq, Eq, Structural)]
pub struct QueueDepths {
    pub ingestion: u64,
    pub delete_dataset_queue: u64,
    pub file_ingestion: u64,
    pub file_processing: u64,
    pub delete_dataset_processing: u64,
    pub processing: u64,
    pub group_update_queue: u64,
    pub group_update_processing: u64,
}

/// The queue-depth gauges of the observability surface: one gauge per
/// queue and per in-flight list, exposed in the text exposition
/// format.
#[derive(Clone, Copy, Debug, PartialEq, Eq, Structural)]
pub struct Metrics {
    pub ingest_queue_gauge: u64,
    pub delete_queue_gauge: u64,
    pub file_queue_gauge: u64,
    pub update_queue_gauge: u64,
    pub file_processing_gauge: u64,
    pub delete_processing_gauge: u64,
    pub ingest_processing_gauge: u64,
    pub group_update_processing_gauge: u64,
}

/// One gauge of the text exposition format: a TYPE line and a sample
/// line.
pub open spec fn spec_gauge_text(name: Seq<char>, value: u64) -> Seq<char> {
    "# TYPE "@ + name + " gauge\n"@ + name + " "@ + spec_u64_string(value) + "\n"@
}

/// The whole scrape response: every gauge, in a fixed order.
pub open spec fn spec_metrics_response(m: Metrics) -> Seq<char> {
    spec_gauge_text("ingest_queue"@, m.ingest_queue_gauge) + spec_gauge_text(
        "delete_queue"@,
        m.delete_queue_gauge,
    ) + spec_gauge_text("file_queue"@, m.file_queue_gauge) + spec_gauge_text(
        "group_update_queue"@,
        m.update_queue_gauge,
    ) + spec_gauge_text("file_processing"@, m.file_processing_gauge) + spec_gauge_text(
        "delete_processing"@,
        m.delete_processing_gauge,
    ) + spec_gauge_text("ingest_processing"@, m.ingest_processing_gauge) + spec_gauge_text(
        "group_update_processing"@,
        m.group_update_processing_gauge,
    )
}

fn gauge_text(name: &str, value: u64) -> (r: String)
    ensures
        r@ == spec_gauge_text(name@, value),
{
    let mut s: String = "# TYPE ".to_owned();
    s.append(name);
    s.append(" gauge\n");
    s.append(name);
    s.append(" ");
    let digits = u64_to_string(value);
    s.append(digits.as_str());
    s.append("\n");
    s
}

impl Metrics {
    /// Fresh gauges, all at zero.
    pub fn new() -> (r: Metrics)
        ensures
            r == (Metrics {
                ingest_queue_gauge: 0,
                delete_queue_gauge: 0,
                file_queue_gauge: 0,
                update_queue_gauge: 0,
                file_processing_gauge: 0,
                delete_processing_gauge: 0,
                ingest_processing_gauge: 0,
                group_update_processing_gauge: 0,
            }),
    {
        Metrics {
            ingest_queue_gauge: 0,
            delete_queue_gauge: 0,
            file_queue_gauge: 0,
            update_queue_gauge: 0,
            file_processing_gauge: 0,
            delete_processing_gauge: 0,
            ingest_processing_gauge: 0,
            group_update_processing_gauge: 0,
        }
    }

    /// Sets every gauge from one sample of the queue depths.
    pub fn update_queue_gauges(&mut self, depths: &QueueDepths)
        ensures
            final(self).ingest_queue_gauge == depths.ingestion,
            final(self).delete_queue_gauge == depths.delete_dataset_queue,
            final(self).file_queue_gauge == depths.file_ingestion,
            final(self).update_queue_gauge == depths.group_update_queue,
            final(self).file_processing_gauge == depths.file_processing,
            final(self).delete_processing_gauge == depths.delete_dataset_processing,
            final(self).ingest_processing_gauge == depths.processing,
            final(self).group_update_processing_gauge == depths.group_update_processing,
    {
        self.ingest_queue_gauge = depths.ingestion;
        self.delete_queue_gauge = depths.delete_dataset_queue;
        self.file_queue_gauge = depths.file_ingestion;
        self.update_queue_gauge = depths.group_update_queue;
        self.file_processing_gauge = depths.file_processing;
        self.delete_processing_gauge = depths.delete_dataset_processing;
        self.ingest_processing_gauge = depths.processing;
        self.group_update_processing_gauge = depths.group_update_processing;
    }

    /// Renders the scrape response in the text exposition format.
    pub fn get_response(&self) -> (r: String)
        ensures
            r@ == spec_metrics_response(*self),
    {
        let mut s: String = gauge_text("ingest_queue", self.ingest_queue_gauge);
        let part = gauge_text("delete_queue", self.delete_queue_gauge);
        s.append(part.as_str());
        let part = gauge_text("file_queue", self.file_queue_gauge);
        s.append(part.as_str());
        let part = gauge_text("group_update_queue", self.update_queue_gauge);
        s.append(part.as_str());
        let part = gauge_text("file_processing", self.file_processing_gauge);
        s.append(part.as_str());
        let part = gauge_text("delete_processing", self.delete_processing_gauge);
        s.append(part.as_str());
        let part = gauge_text("ingest_processing", self.ingest_processing_gauge);
        s.append(part.as_str());
        let part = gauge_text("group_update_processing", self.group_update_processing_gauge);
        s.append(part.as_str());
        s
    }
}

} // verus!
