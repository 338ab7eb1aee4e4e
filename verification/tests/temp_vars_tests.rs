use std::time::Duration;

use tor_cell::temp_vars::TempVars;

#[test]
fn test_temp_vars_fresh_value() {
    let holder = TempVars::new(42, Duration::from_secs(3600));
    assert!(!holder.is_expired());
    assert_eq!(holder.get().unwrap(), &42);
}

#[test]
fn test_temp_vars_zero_lifetime_expires_at_once() {
    let holder = TempVars::new(7, Duration::from_secs(0));
    assert!(holder.is_expired());
    assert!(holder.get().is_err());
}

#[test]
fn test_value_unless_expired() {
    let holder = TempVars::new(String::from("key"), Duration::from_secs(3600));
    assert_eq!(holder.value_unless_expired(false).unwrap(), "key");
    assert!(holder.value_unless_expired(true).is_err());
}
