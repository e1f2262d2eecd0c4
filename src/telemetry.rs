//! The kinds of metrics and export formats of the telemetry layer.
use vstd::prelude::*;

verus! {

/// Kind of a recorded metric.
#[derive(Debug, Clone, Copy, PartialEq, Eq, Structural)]
pub enum MetricType {
    Counter,
    Gauge,
    Histogram,
    Event,
}

impl MetricType {
    /// The lower-case name of the kind, as it appears in exported metrics.
    pub fn as_str(&self) -> (r: &'static str)
        ensures
            r@ == match *self {
                MetricType::Counter => "counter"@,
                MetricType::Gauge => "gauge"@,
                MetricType::Histogram => "histogram"@,
                MetricType::Event => "event"@,
            },
    {
        proof {
            reveal_strlit("counter");
            reveal_strlit("gauge");
            reveal_strlit("histogram");
            reveal_strlit("event");
        }
        match self {
            MetricType::Counter => "counter",
            MetricType::Gauge => "gauge",
            MetricType::Histogram => "histogram",
            MetricType::Event => "event",
        }
    }

    /// The lower-case name of the kind as an owned string.
    pub fn to_string(&self) -> (r: String)
        ensures
            r@ == match *self {
                MetricType::Counter => "counter"@,
                MetricType::Gauge => "gauge"@,
                MetricType::Histogram => "histogram"@,
                MetricType::Event => "event"@,
            },
    {
        self.as_str().to_owned()
    }
}

/// Format in which collected metrics are exported.
#[derive(Debug, Clone, Copy, PartialEq, Eq, Structural)]
pub enum ExportFormat {
    Json,
    Csv,
    Prometheus,
}

/// Why an export failed.
#[derive(Debug)]
pub enum ExportError {
    UnsupportedFormat,
    SerializationError(String),
    Other(String),
}

} // verus!
