use mcp_tools::errors::DependencyError;
use mcp_tools::errors::StateError;
use mcp_tools::errors::TransitionError;
use mcp_tools::errors::ValidationError;

#[test]
fn test_state_error_display() {
    let err = StateError::NotFound("test-id".to_string());
    assert_eq!(err.message(), "Resource not found: test-id");
}

#[test]
fn test_transition_error_conversion() {
    let trans_err = TransitionError::NotFound("test".to_string());
    let state_err: StateError = trans_err.into();
    assert!(matches!(state_err, StateError::TransitionError(_)));
}

#[test]
fn test_dependency_error_display() {
    let err = DependencyError::CircularDependency;
    assert_eq!(
        err.message(),
        "Circular dependency detected in resource dependencies"
    );
}

#[test]
fn test_validation_error_display() {
    let err = ValidationError::MissingField("name".to_string());
    assert_eq!(err.message(), "Missing required field: name");
}

#[test]
fn state_error_messages() {
    let err = StateError::InvalidState {
        resource_id: "r1".to_string(),
        expected: "ready".to_string(),
        actual: "blocked".to_string(),
    };
    assert_eq!(err.message(), "Resource r1 is not in ready state (current: blocked)");
    let err = StateError::MultipleErrors(vec!["one".to_string(), "two".to_string()]);
    assert_eq!(err.message(), "Multiple errors occurred: one, two");
    let err = StateError::LockPoisoned { lock: "store".to_string() };
    assert_eq!(err.message(), "Internal lock poisoned: store");
}

#[test]
fn transition_error_messages() {
    let err = TransitionError::InvalidTransition {
        resource: "r".to_string(),
        from: "a".to_string(),
        to: "b".to_string(),
    };
    assert_eq!(err.message(), "Cannot transition resource 'r' from a to b");
    let err = TransitionError::DependencyNotSatisfied {
        resource: "r".to_string(),
        dep: "d".to_string(),
        state: "pending".to_string(),
    };
    assert_eq!(err.message(), "Resource 'r' dependency 'd' not satisfied (state: pending)");
}

#[test]
fn dependency_error_messages() {
    let err = DependencyError::DependencyNotFound {
        resource: "a".to_string(),
        dep: "b".to_string(),
    };
    assert_eq!(err.message(), "Resource 'a' depends on non-existent resource 'b'");
    let err = DependencyError::CycleDetected(vec!["x".to_string(), "y".to_string()]);
    assert_eq!(err.message(), "Dependency cycle detected involving resources: x, y");
}

#[test]
fn validation_error_messages() {
    let err = ValidationError::OutOfRange {
        field: "count".to_string(),
        value: "11".to_string(),
        min: "0".to_string(),
        max: "10".to_string(),
    };
    assert_eq!(err.message(), "Value for count out of range: 11 (expected 0..10)");
    let err = ValidationError::InvalidFormat {
        field: "id".to_string(),
        reason: "not hex".to_string(),
    };
    assert_eq!(err.message(), "Invalid format for id: not hex");
}

#[test]
fn wrapped_transition_error_message() {
    let inner = TransitionError::NotFound("t".to_string());
    let outer: StateError = inner.into();
    assert_eq!(outer.message(), "Transition error: Resource not found: t");
}
