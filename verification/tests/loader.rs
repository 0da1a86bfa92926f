use clap_bridge::loader::{load_outcome, LoadError};
use clap_bridge::registry::{init_registry, BridgeError};

#[test]
fn load_outcome_file_not_found() {
    assert_eq!(load_outcome(false, false, false), Err(LoadError::FileNotFound));
    assert_eq!(load_outcome(false, true, true), Err(LoadError::FileNotFound));
}

#[test]
fn load_outcome_symbol_not_found() {
    assert_eq!(load_outcome(true, false, false), Err(LoadError::SymbolNotFound));
    assert_eq!(load_outcome(true, false, true), Err(LoadError::SymbolNotFound));
}

#[test]
fn load_outcome_entry_returned_null() {
    assert_eq!(load_outcome(true, true, false), Err(LoadError::EntryReturnedNull));
}

#[test]
fn load_outcome_success_needs_all_three_stages() {
    assert_eq!(load_outcome(true, true, true), Ok(()));
}

#[test]
fn failed_load_leaves_no_registry_entry() {
    // A load of a path that cannot be opened fails in the first loader stage,
    // so the registry is never reached: no handle is live afterwards.
    let registry = init_registry();
    let verdict = load_outcome(false, false, false);
    assert_eq!(verdict, Err(LoadError::FileNotFound));
    assert_eq!(registry.lookup(1), Err(BridgeError::InvalidHandle));
}
