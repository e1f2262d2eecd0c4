//! Benchmark configuration and the interface that benchmark scenarios implement.
use std::collections::HashMap;
use vstd::prelude::*;
use vstd::std_specs::hash::obeys_key_model;
use vstd::std_specs::hash::builds_valid_hashers;

verus! {

/// Settings of one benchmark run: its name, description, iteration counts,
/// and free-form string parameters.
#[derive(Debug, Clone)]
pub struct BenchmarkConfig {
    pub name: String,
    pub description: String,
    pub iterations: usize,
    pub warmup_iterations: usize,
    pub parameters: HashMap<String, String>,
}

/// The hash tables of this module follow vstd's model of `HashMap`.
pub open spec fn tables_follow_model() -> bool {
    obeys_key_model::<String>() && builds_valid_hashers::<std::hash::RandomState>()
}

impl BenchmarkConfig {
    /// A configuration with ten measured iterations, three warm-up iterations
    /// and no parameters.
    pub fn new(name: &str, description: &str) -> (r: Self)
        ensures
            r.name@ == name@,
            r.description@ == description@,
            r.iterations == 10,
            r.warmup_iterations == 3,
            r.parameters@ == Map::<String, String>::empty(),
    {
        BenchmarkConfig {
            name: name.to_owned(),
            description: description.to_owned(),
            iterations: 10,
            warmup_iterations: 3,
            parameters: HashMap::new(),
        }
    }

    /// The same configuration with parameter `key` set to `value`.
    pub fn with_param(self, key: &str, value: &str) -> (r: Self)
        ensures
            r.name == self.name,
            r.description == self.description,
            r.iterations == self.iterations,
            r.warmup_iterations == self.warmup_iterations,
            tables_follow_model() ==> exists|k: String, v: String|
                k@ == key@ && v@ == value@ && r.parameters@ == #[trigger] self.parameters@.insert(k, v),
    {
        let mut me = self;
        let k = key.to_owned();
        let v = value.to_owned();
        me.parameters.insert(k, v);
        me
    }

    /// The same configuration with `iterations` measured iterations.
    pub fn with_iterations(self, iterations: usize) -> (r: Self)
        ensures
            r.name == self.name,
            r.description == self.description,
            r.iterations == iterations,
            r.warmup_iterations == self.warmup_iterations,
            r.parameters == self.parameters,
    {
        let mut me = self;
        me.iterations = iterations;
        me
    }

    /// The same configuration with `warmup` warm-up iterations.
    pub fn with_warmup(self, warmup: usize) -> (r: Self)
        ensures
            r.name == self.name,
            r.description == self.description,
            r.iterations == self.iterations,
            r.warmup_iterations == warmup,
            r.parameters == self.parameters,
    {
        let mut me = self;
        me.warmup_iterations = warmup;
        me
    }
}

/// A workload that a benchmarker runs repeatedly and times.
pub trait BenchmarkScenario {
    fn name(&self) -> &str;

    fn description(&self) -> &str;

    fn setup(&mut self) {
    }

    fn teardown(&mut self) {
    }

    fn run_iteration(&mut self);

    /// Labels attached to the telemetry of this scenario's runs.
    fn telemetry_labels(&self) -> HashMap<String, String> {
        let mut labels: HashMap<String, String> = HashMap::new();
        labels.insert("benchmark".to_owned(), self.name().to_owned());
        labels
    }
}

/// Runs benchmark scenarios under a name that labels their telemetry.
pub struct Benchmarker {
    name: String,
}

impl Benchmarker {
    pub closed spec fn name_view(&self) -> Seq<char> {
        self.name@
    }

    pub fn new(name: &str) -> (r: Self)
        ensures
            r.name_view() == name@,
    {
        Benchmarker { name: name.to_owned() }
    }

    pub fn name(&self) -> (r: &str)
        ensures
            r@ == self.name_view(),
    {
        self.name.as_str()
    }
}

} // verus!
