use dicespell::engine::{Engine, SearchNode, best_first, node_before};
use dicespell::state::initial_state;

#[test]
fn search_terminates_under_a_small_ceiling() {
    let best = best_first(100, 1_000_000);
    assert!(best.state.enemy_hp <= 105);
}

#[test]
fn search_makes_progress_from_the_start() {
    // With room to expand a few hundred nodes the explorer must have
    // dequeued something better than doing nothing forever.
    let best = best_first(500, 1_000_000);
    assert!(best.state.enemy_hp < 105);
}

#[test]
fn best_tracker_never_regresses() {
    let mut eng = Engine::new(initial_state());
    let mut last = eng.best().state.enemy_hp;
    for _ in 0..300 {
        eng.step();
        let now = eng.best().state.enemy_hp;
        assert!(now <= last);
        last = now;
    }
}

#[test]
fn engine_seeds_with_the_given_state() {
    let eng = Engine::new(initial_state());
    assert_eq!(eng.frontier_len(), 1);
    let best = eng.best();
    assert_eq!(best.depth, 0);
    assert_eq!(best.state.enemy_hp, 105);
}

#[test]
fn frontier_grows_as_nodes_expand() {
    let mut eng = Engine::new(initial_state());
    eng.step();
    // The start offers six preps and a pass.
    assert_eq!(eng.frontier_len(), 7);
}

#[test]
fn priority_prefers_low_health_then_low_depth() {
    let st = initial_state();
    let mut hurt = st;
    hurt.enemy_hp = 90;
    let a = SearchNode { state: hurt, depth: 5 };
    let b = SearchNode { state: st, depth: 0 };
    assert!(node_before(&a, &b));
    assert!(!node_before(&b, &a));
    let c = SearchNode { state: st, depth: 1 };
    assert!(node_before(&b, &c));
    assert!(!node_before(&c, &b));
    assert!(!node_before(&b, &b));
}

#[test]
fn run_respects_the_ceiling() {
    let mut eng = Engine::new(initial_state());
    eng.run(50, 1_000_000);
    assert!(eng.frontier_len() > 50);
    assert!(eng.best().state.enemy_hp <= 105);
}
