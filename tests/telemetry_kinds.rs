use hekmat_mind::telemetry::ExportFormat;
use hekmat_mind::telemetry::MetricType;

#[test]
fn test_export_format() {
    let json_format = ExportFormat::Json;
    let csv_format = ExportFormat::Csv;
    let prometheus_format = ExportFormat::Prometheus;

    assert_eq!(format!("{:?}", json_format), "Json");
    assert_eq!(format!("{:?}", csv_format), "Csv");
    assert_eq!(format!("{:?}", prometheus_format), "Prometheus");

    let cloned_json = json_format;
    assert_eq!(format!("{:?}", cloned_json), "Json");

    let copied_csv = csv_format;
    assert_eq!(format!("{:?}", copied_csv), "Csv");
}

#[test]
fn test_telemetry_metric_type_display() {
    let counter = MetricType::Counter;
    let gauge = MetricType::Gauge;
    let histogram = MetricType::Histogram;
    let event = MetricType::Event;

    assert_eq!(
        counter.to_string(),
        "counter",
        "Counter Display-Implementierung falsch"
    );
    assert_eq!(gauge.to_string(), "gauge", "Gauge Display-Implementierung falsch");
    assert_eq!(
        histogram.to_string(),
        "histogram",
        "Histogram Display-Implementierung falsch"
    );
    assert_eq!(event.to_string(), "event", "Event Display-Implementierung falsch");
}
