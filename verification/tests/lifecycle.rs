use clap_bridge::registry::{init_registry, BridgeError, PROCESS_STATUS_ERROR};
use clap_bridge::state::{LifecycleState, NativeCall};

#[test]
fn registry_starts_empty() {
    let registry = init_registry();
    assert_eq!(registry.lookup(1), Err(BridgeError::InvalidHandle));
    assert_eq!(registry.lookup(0), Err(BridgeError::InvalidHandle));
}

#[test]
fn load_assigns_strictly_increasing_handles() {
    let mut registry = init_registry();
    let h1 = registry.load_plugin("a".to_string());
    let h2 = registry.load_plugin("b".to_string());
    let h3 = registry.load_plugin("c".to_string());
    assert_eq!(h1, 1);
    assert_eq!(h2, 2);
    assert_eq!(h3, 3);
    assert!(h1 < h2 && h2 < h3);
}

#[test]
fn handle_never_reused_after_unload() {
    let mut registry = init_registry();
    let h1 = registry.load_plugin("a".to_string());
    assert!(registry.unload_plugin(h1).is_ok());
    let h2 = registry.load_plugin("b".to_string());
    assert_ne!(h1, h2);
    assert!(h2 > h1);
}

#[test]
fn distinct_loads_all_registered() {
    let mut registry = init_registry();
    let mut handles = Vec::new();
    for i in 0..5u32 {
        let path = format!("plugin-{}", i);
        handles.push(registry.load_plugin(path));
    }
    for (i, h) in handles.iter().enumerate() {
        for other in handles.iter().skip(i + 1) {
            assert_ne!(h, other);
        }
        assert_eq!(registry.lookup(*h), Ok(LifecycleState::Loaded));
    }
}

#[test]
fn activate_before_initialize_is_rejected() {
    let mut registry = init_registry();
    let h = registry.load_plugin("p".to_string());
    assert_eq!(registry.activate(h, true), Ok(false));
    assert_eq!(registry.lookup(h), Ok(LifecycleState::Loaded));
}

#[test]
fn unload_twice_fails_invalid_handle() {
    let mut registry = init_registry();
    let h = registry.load_plugin("p".to_string());
    assert!(registry.unload_plugin(h).is_ok());
    assert!(matches!(registry.unload_plugin(h), Err(BridgeError::InvalidHandle)));
}

#[test]
fn full_lifecycle_in_order() {
    let mut registry = init_registry();
    let h = registry.load_plugin("p".to_string());
    assert_eq!(registry.initialize(h, true), Ok(true));
    assert_eq!(registry.lookup(h), Ok(LifecycleState::Initialized));
    assert_eq!(registry.activate(h, true), Ok(true));
    assert_eq!(registry.lookup(h), Ok(LifecycleState::Activated));
    assert_eq!(registry.start_processing(h, true), Ok(true));
    assert_eq!(registry.lookup(h), Ok(LifecycleState::Processing));
    assert_eq!(registry.stop_processing(h), Ok(()));
    assert_eq!(registry.lookup(h), Ok(LifecycleState::Activated));
    assert_eq!(registry.deactivate(h), Ok(()));
    assert_eq!(registry.lookup(h), Ok(LifecycleState::Initialized));
    assert!(registry.unload_plugin(h).is_ok());
    assert_eq!(registry.lookup(h), Err(BridgeError::InvalidHandle));
}

#[test]
fn unload_while_processing_plans_full_teardown() {
    let mut registry = init_registry();
    let h = registry.load_plugin("p".to_string());
    assert_eq!(registry.initialize(h, true), Ok(true));
    assert_eq!(registry.activate(h, true), Ok(true));
    assert_eq!(registry.start_processing(h, true), Ok(true));
    let (record, plan) = registry.unload_plugin(h).unwrap();
    assert_eq!(record.state(), LifecycleState::Processing);
    assert_eq!(
        plan,
        vec![NativeCall::StopProcessing, NativeCall::Deactivate, NativeCall::Destroy]
    );
}

#[test]
fn unload_while_activated_plans_deactivate_then_destroy() {
    let mut registry = init_registry();
    let h = registry.load_plugin("p".to_string());
    assert_eq!(registry.initialize(h, true), Ok(true));
    assert_eq!(registry.activate(h, true), Ok(true));
    let (record, plan) = registry.unload_plugin(h).unwrap();
    assert_eq!(record.state(), LifecycleState::Activated);
    assert_eq!(plan, vec![NativeCall::Deactivate, NativeCall::Destroy]);
}

#[test]
fn unload_before_initialize_plans_destroy_only() {
    let mut registry = init_registry();
    let h = registry.load_plugin("p".to_string());
    let (record, plan) = registry.unload_plugin(h).unwrap();
    assert_eq!(record.id(), h);
    assert_eq!(record.source_path().as_str(), "p");
    assert_eq!(record.state(), LifecycleState::Loaded);
    assert_eq!(plan, vec![NativeCall::Destroy]);
}

#[test]
fn initialize_native_failure_stays_loaded() {
    let mut registry = init_registry();
    let h = registry.load_plugin("p".to_string());
    assert_eq!(registry.initialize(h, false), Ok(false));
    assert_eq!(registry.lookup(h), Ok(LifecycleState::Loaded));
}

#[test]
fn initialize_twice_is_a_no_op() {
    let mut registry = init_registry();
    let h = registry.load_plugin("p".to_string());
    assert_eq!(registry.initialize(h, true), Ok(true));
    assert_eq!(registry.initialize(h, true), Ok(false));
    assert_eq!(registry.lookup(h), Ok(LifecycleState::Initialized));
}

#[test]
fn activate_native_failure_stays_initialized() {
    let mut registry = init_registry();
    let h = registry.load_plugin("p".to_string());
    assert_eq!(registry.initialize(h, true), Ok(true));
    assert_eq!(registry.activate(h, false), Ok(false));
    assert_eq!(registry.lookup(h), Ok(LifecycleState::Initialized));
}

#[test]
fn start_processing_requires_activated() {
    let mut registry = init_registry();
    let h = registry.load_plugin("p".to_string());
    assert_eq!(registry.start_processing(h, true), Ok(false));
    assert_eq!(registry.initialize(h, true), Ok(true));
    assert_eq!(registry.start_processing(h, true), Ok(false));
    assert_eq!(registry.lookup(h), Ok(LifecycleState::Initialized));
}

#[test]
fn start_processing_native_failure_stays_activated() {
    let mut registry = init_registry();
    let h = registry.load_plugin("p".to_string());
    assert_eq!(registry.initialize(h, true), Ok(true));
    assert_eq!(registry.activate(h, true), Ok(true));
    assert_eq!(registry.start_processing(h, false), Ok(false));
    assert_eq!(registry.lookup(h), Ok(LifecycleState::Activated));
}

#[test]
fn stop_processing_outside_processing_is_a_no_op() {
    let mut registry = init_registry();
    let h = registry.load_plugin("p".to_string());
    assert_eq!(registry.initialize(h, true), Ok(true));
    assert_eq!(registry.activate(h, true), Ok(true));
    assert_eq!(registry.stop_processing(h), Ok(()));
    assert_eq!(registry.lookup(h), Ok(LifecycleState::Activated));
}

#[test]
fn deactivate_from_processing_returns_to_initialized() {
    let mut registry = init_registry();
    let h = registry.load_plugin("p".to_string());
    assert_eq!(registry.initialize(h, true), Ok(true));
    assert_eq!(registry.activate(h, true), Ok(true));
    assert_eq!(registry.start_processing(h, true), Ok(true));
    assert_eq!(registry.deactivate(h), Ok(()));
    assert_eq!(registry.lookup(h), Ok(LifecycleState::Initialized));
}

#[test]
fn deactivate_when_only_initialized_is_a_no_op() {
    let mut registry = init_registry();
    let h = registry.load_plugin("p".to_string());
    assert_eq!(registry.initialize(h, true), Ok(true));
    assert_eq!(registry.deactivate(h), Ok(()));
    assert_eq!(registry.lookup(h), Ok(LifecycleState::Initialized));
}

#[test]
fn every_command_rejects_an_unknown_handle() {
    let mut registry = init_registry();
    assert_eq!(registry.initialize(7, true), Err(BridgeError::InvalidHandle));
    assert_eq!(registry.activate(7, true), Err(BridgeError::InvalidHandle));
    assert_eq!(registry.start_processing(7, true), Err(BridgeError::InvalidHandle));
    assert_eq!(registry.stop_processing(7), Err(BridgeError::InvalidHandle));
    assert_eq!(registry.deactivate(7), Err(BridgeError::InvalidHandle));
    assert!(matches!(registry.unload_plugin(7), Err(BridgeError::InvalidHandle)));
    assert_eq!(registry.process(7, 1), Err(BridgeError::InvalidHandle));
    assert_eq!(registry.get_parameter_count(7, 4), Err(BridgeError::InvalidHandle));
    assert_eq!(registry.parameters_accessible(7), Err(BridgeError::InvalidHandle));
}

#[test]
fn process_is_gated_by_the_processing_state() {
    let mut registry = init_registry();
    let h = registry.load_plugin("p".to_string());
    assert_eq!(registry.process(h, 1), Ok(PROCESS_STATUS_ERROR));
    assert_eq!(registry.initialize(h, true), Ok(true));
    assert_eq!(registry.activate(h, true), Ok(true));
    assert_eq!(registry.process(h, 1), Ok(PROCESS_STATUS_ERROR));
    assert_eq!(registry.start_processing(h, true), Ok(true));
    assert_eq!(registry.process(h, 1), Ok(1));
}

#[test]
fn parameter_count_is_gated_by_initialization() {
    let mut registry = init_registry();
    let h = registry.load_plugin("p".to_string());
    assert_eq!(registry.parameters_accessible(h), Ok(false));
    assert_eq!(registry.get_parameter_count(h, 3), Ok(0));
    assert_eq!(registry.initialize(h, true), Ok(true));
    assert_eq!(registry.parameters_accessible(h), Ok(true));
    assert_eq!(registry.get_parameter_count(h, 3), Ok(3));
}
