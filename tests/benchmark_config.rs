use hekmat_mind::benchmark::BenchmarkConfig;
use hekmat_mind::benchmark::Benchmarker;

#[test]
fn test_benchmark_config() {
    let config = BenchmarkConfig::new("test_benchmark", "Beschreibung")
        .with_iterations(10)
        .with_warmup(2)
        .with_param("key1", "value1")
        .with_param("key2", "value2");

    assert_eq!(config.name, "test_benchmark");
    assert_eq!(config.description, "Beschreibung");
    assert_eq!(config.iterations, 10);
    assert_eq!(config.warmup_iterations, 2);

    assert_eq!(config.parameters.len(), 2);
    assert_eq!(config.parameters.get("key1"), Some(&"value1".to_string()));
    assert_eq!(config.parameters.get("key2"), Some(&"value2".to_string()));
}

#[test]
fn benchmark_config_defaults() {
    let config = BenchmarkConfig::new("a", "b");
    assert_eq!(config.iterations, 10);
    assert_eq!(config.warmup_iterations, 3);
    assert!(config.parameters.is_empty());
}

#[test]
fn benchmark_config_param_overwrites() {
    let config = BenchmarkConfig::new("a", "b")
        .with_param("k", "1")
        .with_param("k", "2");
    assert_eq!(config.parameters.len(), 1);
    assert_eq!(config.parameters.get("k"), Some(&"2".to_string()));
}

#[test]
fn benchmarker_keeps_its_name() {
    let b = Benchmarker::new("bench");
    assert_eq!(b.name(), "bench");
}
