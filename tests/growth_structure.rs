use hekmat_mind::path_cache::PathCache;
use hekmat_mind::lifecycle::FactorType;
use hekmat_mind::lifecycle::NeuronState;
use hekmat_mind::arena::SegmentArena;
use hekmat_mind::arena::MAX_BRANCHING_DEPTH;
use hekmat_mind::lifecycle::count_active;
use hekmat_mind::lifecycle::SynapseState;

#[test]
fn synapse_lifecycle_round_trip() {
    let s = SynapseState::default();
    assert_eq!(s, SynapseState::Active);
    let (s, weakened) = s.after_inactivity_check(true);
    assert!(weakened);
    assert_eq!(s, SynapseState::Weakened);
    let s = s.after_pruning(true);
    assert_eq!(s, SynapseState::Ghosted);
    assert_eq!(s.after_reactivation(false), None);
    assert_eq!(s.after_reactivation(true), Some(SynapseState::Active));
}

#[test]
fn synapse_transitions_that_do_not_apply() {
    assert_eq!(SynapseState::Active.after_inactivity_check(false), (SynapseState::Active, false));
    assert_eq!(SynapseState::Ghosted.after_inactivity_check(true), (SynapseState::Ghosted, false));
    assert_eq!(SynapseState::Weakened.after_inactivity_check(true), (SynapseState::Weakened, true));
    assert_eq!(SynapseState::Active.after_pruning(true), SynapseState::Active);
    assert_eq!(SynapseState::Weakened.after_pruning(false), SynapseState::Weakened);
    assert_eq!(SynapseState::Weakened.after_activity(true), SynapseState::Active);
    assert_eq!(SynapseState::Weakened.after_activity(false), SynapseState::Weakened);
    assert_eq!(SynapseState::Ghosted.after_activity(true), SynapseState::Ghosted);
    assert_eq!(SynapseState::Active.after_reactivation(true), None);
    assert_eq!(SynapseState::Weakened.after_reactivation(true), None);
    assert!(SynapseState::Weakened.can_become_ghost());
    assert!(!SynapseState::Active.can_become_ghost());
    assert_eq!(SynapseState::Active.after_ghost_conversion(), SynapseState::Active);
    assert_eq!(SynapseState::Active.after_weight_floor(), SynapseState::Weakened);
}

#[test]
fn active_synapses_are_counted() {
    let states = [
        SynapseState::Active,
        SynapseState::Ghosted,
        SynapseState::Weakened,
        SynapseState::Active,
    ];
    assert_eq!(count_active(&states), 2);
    assert_eq!(count_active(&[]), 0);
}

#[test]
fn arena_links_parents_and_children() {
    let mut a = SegmentArena::new();
    assert_eq!(a.signature(), 0);
    let r0 = a.add_root();
    let r1 = a.add_root();
    assert_eq!((r0, r1), (0, 1));
    assert_eq!(a.roots(), &vec![0, 1]);
    let c = a.add_branch(r0).unwrap();
    assert_eq!(c, 2);
    assert_eq!(a.parent(c), Some(0));
    assert_eq!(a.depth(c), 1);
    assert_eq!(a.children(0), &vec![2]);
    assert_eq!(a.children(1), &Vec::<usize>::new());
    assert_eq!(a.signature(), 3);
    assert_eq!(a.add_branch(17), None);
    assert_eq!(a.signature(), 3);
    let g = a.add_branch(c).unwrap();
    assert_eq!(a.ancestors(g), vec![3, 2, 0]);
    assert_eq!(a.ancestors(1), vec![1]);
    assert_eq!(a.terminal_count(), 2);
    assert_eq!(a.len(), 4);
}

#[test]
fn arena_stops_at_maximal_depth() {
    let mut a = SegmentArena::new();
    let mut cur = a.add_root();
    for _ in 0..MAX_BRANCHING_DEPTH {
        cur = a.add_branch(cur).unwrap();
    }
    assert_eq!(a.depth(cur), MAX_BRANCHING_DEPTH);
    assert_eq!(a.add_branch(cur), None);
    assert_eq!(a.growth_weight(cur), 0);
}

#[test]
fn growth_weights_favour_shallow_sparse_segments() {
    let mut a = SegmentArena::new();
    let r = a.add_root();
    assert_eq!(a.growth_weight(r), 30);
    let c1 = a.add_branch(r).unwrap();
    assert_eq!(a.growth_weight(r), 20);
    a.add_branch(r).unwrap();
    a.add_branch(r).unwrap();
    a.add_branch(r).unwrap();
    assert_eq!(a.growth_weight(r), 10);
    let d2 = a.add_branch(c1).unwrap();
    let d3 = a.add_branch(d2).unwrap();
    // past depth two the weight is seven tenths of 3
    assert_eq!(a.growth_weight(d3), 21);
    a.add_branch(d3).unwrap();
    assert_eq!(a.growth_weight(d3), 14);
    a.add_branch(d3).unwrap();
    a.add_branch(d3).unwrap();
    // deep segments with many children stay candidates
    assert_eq!(a.growth_weight(d3), 7);
}

#[test]
fn growth_site_draw_is_reproducible() {
    let mut a = SegmentArena::new();
    a.add_root();
    a.add_root();
    a.add_branch(0).unwrap();
    let cands = a.growth_candidates();
    let mut expect = vec![0usize; 20];
    expect.extend(vec![1usize; 30]);
    expect.extend(vec![2usize; 30]);
    assert_eq!(cands, expect);
    let first = a.select_growth_segment(42);
    assert_eq!(a.select_growth_segment(42), first);
    let site = first.unwrap();
    assert!(site < a.len());
    assert!(a.depth(site) < MAX_BRANCHING_DEPTH);
    let empty = SegmentArena::new();
    assert_eq!(empty.select_growth_segment(1), None);
}

#[test]
fn no_growth_site_when_all_at_maximal_depth() {
    let mut a = SegmentArena::new();
    let mut cur = a.add_root();
    for _ in 0..MAX_BRANCHING_DEPTH {
        cur = a.add_branch(cur).unwrap();
    }
    // every segment but the last is below the maximal depth
    for seed in 0..20u64 {
        let site = a.select_growth_segment(seed).unwrap();
        assert!(site < cur);
    }
}

#[test]
fn neuron_kinds_and_names() {
    assert_eq!(FactorType::for_neuron(true), FactorType::Attractive);
    assert_eq!(FactorType::for_neuron(false), FactorType::Repulsive);
    assert_eq!(NeuronState::Inactive.to_string(), "Inaktiv");
    assert_eq!(NeuronState::Active.to_string(), "Aktiv");
    assert_eq!(NeuronState::Refractory.to_string(), "Refraktär");
}

#[test]
fn path_cache_forgets_values_after_a_structural_change() {
    let mut a = SegmentArena::new();
    let r = a.add_root();
    let mut cache: PathCache<f32> = PathCache::new(&a);
    assert_eq!(cache.get(&a, r), None);
    cache.insert(r, 2.5);
    assert_eq!(cache.get(&a, r), Some(2.5));
    assert_eq!(cache.get(&a, 3), None);
    a.add_branch(r).unwrap();
    // stale until made current, and empty afterwards
    assert_eq!(cache.get(&a, r), None);
    cache.sync(&a);
    assert_eq!(cache.get(&a, r), None);
    cache.insert(1, 4.0);
    cache.sync(&a);
    assert_eq!(cache.get(&a, 1), Some(4.0));
    assert_eq!(cache.get(&a, 0), None);
    cache.clear(&a);
    assert_eq!(cache.get(&a, 1), None);
}
