use wawona_relay::wasi::{
    clear_module_cache_for_bench, is_running, is_set, map_run_result, request, InterruptState,
    ModuleCache, RunSession, INTERRUPTED_EXIT,
};

#[test]
fn request_sets_flag_without_engine() {
    let mut state = InterruptState::new();
    state.interrupted = false;
    state.running = false;
    request(&mut state);
    assert!(is_set(&state));
    state.interrupted = false;
}

#[test]
fn request_ticks_only_a_registered_engine() {
    let mut state = InterruptState::new();
    assert_eq!(request(&mut state), 0);
    let session = RunSession::begin(&mut state);
    assert!(!is_set(&state));
    assert!(is_running(&state));
    assert_eq!(request(&mut state), 2);
    assert_eq!(map_run_result::<String>(&state, Ok(0)), Ok(INTERRUPTED_EXIT));
    assert_eq!(map_run_result(&state, Err("trap".to_string())), Ok(130));
    session.end(&mut state);
    assert!(!is_running(&state));
    assert!(is_set(&state));
    assert_eq!(request(&mut state), 0);
}

#[test]
fn runs_without_request_keep_their_result() {
    let mut state = InterruptState::new();
    request(&mut state);
    let _session = RunSession::begin(&mut state);
    assert_eq!(map_run_result::<String>(&state, Ok(3)), Ok(3));
    assert_eq!(map_run_result(&state, Err("trap".to_string())), Err("trap".to_string()));
}

#[test]
fn module_cache_matches_the_same_file() {
    let mut cache: ModuleCache<u32> = ModuleCache::new();
    assert_eq!(cache.lookup("/m.wasm", 10, 8), None);
    cache.store("/m.wasm".into(), 10, 8, 77);
    assert_eq!(cache.lookup("/m.wasm", 10, 8), Some(&77));
    assert_eq!(cache.lookup("/m.wasm", 11, 8), None);
    assert_eq!(cache.lookup("/m.wasm", 10, 9), None);
    assert_eq!(cache.lookup("/n.wasm", 10, 8), None);
    clear_module_cache_for_bench(&mut cache);
    assert_eq!(cache.lookup("/m.wasm", 10, 8), None);
}
