//! Strongly-typed error enums for state management, state transitions,
//! dependency resolution and input validation.
//!
//! Each enum models one family of failure modes as a closed set of
//! variants, so that callers can match exhaustively; `message` renders the
//! user-visible text of each variant.

use vstd::prelude::*;

verus! {

/// Errors related to state transitions.
#[derive(Debug, Clone, PartialEq)]
pub enum TransitionError {
    /// Resource not found when attempting a transition.
    NotFound(String),
    /// Resource is not in the expected state, so it cannot transition.
    NotInExpectedState {
        /// The resource whose state was inspected.
        resource_id: String,
        /// The state the transition requires.
        expected: String,
        /// The state the resource is in.
        current: String,
    },
    /// A dependency was not found.
    DependencyNotFound {
        /// The resource naming the dependency.
        resource: String,
        /// The missing dependency.
        dep: String,
    },
    /// A dependency is not in the required state.
    DependencyNotSatisfied {
        /// The resource naming the dependency.
        resource: String,
        /// The unsatisfied dependency.
        dep: String,
        /// The dependency's state.
        state: String,
    },
    /// The transition itself is not allowed.
    InvalidTransition {
        /// The resource being transitioned.
        resource: String,
        /// The state it would leave.
        from: String,
        /// The state it would enter.
        to: String,
    },
}

/// The user-visible text of each transition error.
pub open spec fn spec_transition_error_message(e: TransitionError) -> Seq<char> {
    match e {
        TransitionError::NotFound(id) => "Resource not found: "@ + id@,
        TransitionError::NotInExpectedState { resource_id, expected, current } => "Resource '"@
            + resource_id@ + "' is not in "@ + expected@ + " state (current: "@ + current@ + ")"@,
        TransitionError::DependencyNotFound { resource, dep } => "Dependency '"@ + dep@
            + "' not found for resource '"@ + resource@ + "'"@,
        TransitionError::DependencyNotSatisfied { resource, dep, state } => "Resource '"@
            + resource@ + "' dependency '"@ + dep@ + "' not satisfied (state: "@ + state@ + ")"@,
        TransitionError::InvalidTransition { resource, from, to } => "Cannot transition resource '"@
            + resource@ + "' from "@ + from@ + " to "@ + to@,
    }
}

impl TransitionError {
    /// Render the error as user-visible text.
    pub fn message(&self) -> (r: String)
        ensures
            r@ == spec_transition_error_message(*self),
    {
        match self {
            TransitionError::NotFound(id) => {
                let mut m = String::from_str("Resource not found: ");
                m.append(id.as_str());
                m
            }
            TransitionError::NotInExpectedState { resource_id, expected, current } => {
                let mut m = String::from_str("Resource '");
                m.append(resource_id.as_str());
                m.append("' is not in ");
                m.append(expected.as_str());
                m.append(" state (current: ");
                m.append(current.as_str());
                m.append(")");
                m
            }
            TransitionError::DependencyNotFound { resource, dep } => {
                let mut m = String::from_str("Dependency '");
                m.append(dep.as_str());
                m.append("' not found for resource '");
                m.append(resource.as_str());
                m.append("'");
                m
            }
            TransitionError::DependencyNotSatisfied { resource, dep, state } => {
                let mut m = String::from_str("Resource '");
                m.append(resource.as_str());
                m.append("' dependency '");
                m.append(dep.as_str());
                m.append("' not satisfied (state: ");
                m.append(state.as_str());
                m.append(")");
                m
            }
            TransitionError::InvalidTransition { resource, from, to } => {
                let mut m = String::from_str("Cannot transition resource '");
                m.append(resource.as_str());
                m.append("' from ");
                m.append(from.as_str());
                m.append(" to ");
                m.append(to.as_str());
                m
            }
        }
    }
}

/// Errors related to state management operations.
#[derive(Debug, Clone, PartialEq)]
pub enum StateError {
    /// Resource with the given ID was not found.
    NotFound(String),
    /// Resource is not in the expected state for the operation.
    InvalidState {
        /// The resource whose state was inspected.
        resource_id: String,
        /// The state the operation requires.
        expected: String,
        /// The state the resource is in.
        actual: String,
    },
    /// A dependency is not satisfied for a resource.
    DependencyNotSatisfied {
        /// The resource naming the dependency.
        resource: String,
        /// The unsatisfied dependency.
        dep: String,
    },
    /// Not all dependencies of the resource are complete.
    IncompleteDependencies(String),
    /// No resources are ready to be processed.
    NoResourcesReady,
    /// The resource is already in progress.
    AlreadyInProgress(String),
    /// Multiple errors occurred; their texts are carried in order.
    MultipleErrors(Vec<String>),
    /// A resource with the given ID already exists.
    DuplicateId(String),
    /// A transition failed; carries the underlying transition error.
    TransitionError(TransitionError),
    /// An internal lock was poisoned by an earlier panic.
    LockPoisoned {
        /// The poisoned lock.
        lock: String,
    },
}

/// The texts of a list of errors, joined by commas.
pub open spec fn spec_join_comma(items: Seq<Seq<char>>) -> Seq<char>
    decreases items.len(),
{
    if items.len() == 0 {
        Seq::empty()
    } else if items.len() == 1 {
        items[0]
    } else {
        spec_join_comma(items.drop_last()) + ", "@ + items.last()
    }
}

/// The user-visible text of each state error.
pub open spec fn spec_state_error_message(e: StateError) -> Seq<char> {
    match e {
        StateError::NotFound(id) => "Resource not found: "@ + id@,
        StateError::InvalidState { resource_id, expected, actual } => "Resource "@ + resource_id@
            + " is not in "@ + expected@ + " state (current: "@ + actual@ + ")"@,
        StateError::DependencyNotSatisfied { resource, dep } => "Dependency "@ + dep@
            + " not satisfied for resource "@ + resource@,
        StateError::IncompleteDependencies(id) => "Resource "@ + id@
            + " has incomplete dependencies"@,
        StateError::NoResourcesReady => "No resources are ready (all blocked or complete)"@,
        StateError::AlreadyInProgress(id) => "Resource "@ + id@ + " is already in progress"@,
        StateError::MultipleErrors(errs) => "Multiple errors occurred: "@ + spec_join_comma(
            errs@.map_values(|s: String| s@),
        ),
        StateError::DuplicateId(id) => "Resource with ID "@ + id@ + " already exists"@,
        StateError::TransitionError(inner) => "Transition error: "@
            + spec_transition_error_message(inner),
        StateError::LockPoisoned { lock } => "Internal lock poisoned: "@ + lock@,
    }
}

impl StateError {
    /// Render the error as user-visible text.
    pub fn message(&self) -> (r: String)
        ensures
            r@ == spec_state_error_message(*self),
    {
        match self {
            StateError::NotFound(id) => {
                let mut m = String::from_str("Resource not found: ");
                m.append(id.as_str());
                m
            }
            StateError::InvalidState { resource_id, expected, actual } => {
                let mut m = String::from_str("Resource ");
                m.append(resource_id.as_str());
                m.append(" is not in ");
                m.append(expected.as_str());
                m.append(" state (current: ");
                m.append(actual.as_str());
                m.append(")");
                m
            }
            StateError::DependencyNotSatisfied { resource, dep } => {
                let mut m = String::from_str("Dependency ");
                m.append(dep.as_str());
                m.append(" not satisfied for resource ");
                m.append(resource.as_str());
                m
            }
            StateError::IncompleteDependencies(id) => {
                let mut m = String::from_str("Resource ");
                m.append(id.as_str());
                m.append(" has incomplete dependencies");
                m
            }
            StateError::NoResourcesReady => {
                String::from_str("No resources are ready (all blocked or complete)")
            }
            StateError::AlreadyInProgress(id) => {
                let mut m = String::from_str("Resource ");
                m.append(id.as_str());
                m.append(" is already in progress");
                m
            }
            StateError::MultipleErrors(errs) => {
                let mut m = String::from_str("Multiple errors occurred: ");
                let joined = join_comma(errs);
                m.append(joined.as_str());
                m
            }
            StateError::DuplicateId(id) => {
                let mut m = String::from_str("Resource with ID ");
                m.append(id.as_str());
                m.append(" already exists");
                m
            }
            StateError::TransitionError(inner) => {
                let mut m = String::from_str("Transition error: ");
                let t = inner.message();
                m.append(t.as_str());
                m
            }
            StateError::LockPoisoned { lock } => {
                let mut m = String::from_str("Internal lock poisoned: ");
                m.append(lock.as_str());
                m
            }
        }
    }
}

/// Join strings with a comma and a space.
fn join_comma(items: &Vec<String>) -> (r: String)
    ensures
        r@ == spec_join_comma(items@.map_values(|s: String| s@)),
{
    let mut out = String::new();
    let mut i: usize = 0;
    while i < items.len()
        invariant
            i <= items@.len(),
            out@ == spec_join_comma(items@.map_values(|s: String| s@).take(i as int)),
        decreases items@.len() - i,
    {
        if i > 0 {
            out.append(", ");
        }
        out.append(items[i].as_str());
        proof {
            let dv = items@.map_values(|s: String| s@);
            assert(dv.take(i + 1 as int).drop_last() =~= dv.take(i as int));
            assert(dv.take(i + 1 as int).last() == dv[i as int]);
            assert(dv[i as int] == items@[i as int]@);
            assert(out@ =~= spec_join_comma(dv.take(i + 1 as int)));
        }
        i = i + 1;
    }
    proof {
        let dv = items@.map_values(|s: String| s@);
        assert(dv.take(dv.len() as int) =~= dv);
    }
    out
}

impl From<TransitionError> for StateError {
    /// Wrap a transition error.
    fn from(e: TransitionError) -> (r: StateError)
        ensures
            r == StateError::TransitionError(e),
    {
        StateError::TransitionError(e)
    }
}

impl vstd::std_specs::convert::FromSpecImpl<TransitionError> for StateError {
    open spec fn obeys_from_spec() -> bool {
        true
    }

    open spec fn from_spec(e: TransitionError) -> StateError {
        StateError::TransitionError(e)
    }
}

/// Errors related to dependency resolution.
#[derive(Debug, Clone, PartialEq)]
pub enum DependencyError {
    /// A circular dependency was detected.
    CircularDependency,
    /// A dependency cycle involving the carried resources was detected.
    CycleDetected(Vec<String>),
    /// A referenced dependency does not exist.
    DependencyNotFound {
        /// The resource naming the dependency.
        resource: String,
        /// The missing dependency.
        dep: String,
    },
    /// An invalid dependency relationship.
    InvalidDependency {
        /// The resource naming the dependency.
        resource: String,
        /// The invalid dependency.
        dep: String,
    },
    /// A dependency on a descendant, which would create a cycle.
    DependencyOnDescendant {
        /// The resource naming the dependency.
        resource: String,
        /// The descendant.
        dep: String,
    },
    /// No resources are ready to execute.
    NoReadyResources,
    /// No execution order could be determined.
    TopologicalSortFailed(String),
}

/// The user-visible text of each dependency error.
pub open spec fn spec_dependency_error_message(e: DependencyError) -> Seq<char> {
    match e {
        DependencyError::CircularDependency =>
            "Circular dependency detected in resource dependencies"@,
        DependencyError::CycleDetected(ids) => "Dependency cycle detected involving resources: "@
            + spec_join_comma(ids@.map_values(|s: String| s@)),
        DependencyError::DependencyNotFound { resource, dep } => "Resource '"@ + resource@
            + "' depends on non-existent resource '"@ + dep@ + "'"@,
        DependencyError::InvalidDependency { resource, dep } => "Resource '"@ + resource@
            + "' has invalid dependency '"@ + dep@ + "'"@,
        DependencyError::DependencyOnDescendant { resource, dep } => "Resource '"@ + resource@
            + "' cannot depend on its descendant '"@ + dep@ + "'"@,
        DependencyError::NoReadyResources =>
            "No resources are ready to execute (all blocked or complete)"@,
        DependencyError::TopologicalSortFailed(why) => "Failed to determine execution order: "@
            + why@,
    }
}

impl DependencyError {
    /// Render the error as user-visible text.
    pub fn message(&self) -> (r: String)
        ensures
            r@ == spec_dependency_error_message(*self),
    {
        match self {
            DependencyError::CircularDependency => {
                String::from_str("Circular dependency detected in resource dependencies")
            }
            DependencyError::CycleDetected(ids) => {
                let mut m = String::from_str("Dependency cycle detected involving resources: ");
                let joined = join_comma(ids);
                m.append(joined.as_str());
                m
            }
            DependencyError::DependencyNotFound { resource, dep } => {
                let mut m = String::from_str("Resource '");
                m.append(resource.as_str());
                m.append("' depends on non-existent resource '");
                m.append(dep.as_str());
                m.append("'");
                m
            }
            DependencyError::InvalidDependency { resource, dep } => {
                let mut m = String::from_str("Resource '");
                m.append(resource.as_str());
                m.append("' has invalid dependency '");
                m.append(dep.as_str());
                m.append("'");
                m
            }
            DependencyError::DependencyOnDescendant { resource, dep } => {
                let mut m = String::from_str("Resource '");
                m.append(resource.as_str());
                m.append("' cannot depend on its descendant '");
                m.append(dep.as_str());
                m.append("'");
                m
            }
            DependencyError::NoReadyResources => {
                String::from_str("No resources are ready to execute (all blocked or complete)")
            }
            DependencyError::TopologicalSortFailed(why) => {
                let mut m = String::from_str("Failed to determine execution order: ");
                m.append(why.as_str());
                m
            }
        }
    }
}

/// Validation errors for input data.
#[derive(Debug, Clone, PartialEq)]
pub enum ValidationError {
    /// A required field is missing.
    MissingField(String),
    /// A field carries an invalid value.
    InvalidValue {
        /// The offending field.
        field: String,
        /// Why the value is invalid.
        reason: String,
    },
    /// A field's value lies outside the allowed range.
    OutOfRange {
        /// The offending field.
        field: String,
        /// The value found.
        value: String,
        /// The lower bound.
        min: String,
        /// The upper bound.
        max: String,
    },
    /// A duplicate identifier.
    DuplicateId(String),
    /// A field's value has an invalid format.
    InvalidFormat {
        /// The offending field.
        field: String,
        /// Why the format is invalid.
        reason: String,
    },
}

/// The user-visible text of each validation error.
pub open spec fn spec_validation_error_message(e: ValidationError) -> Seq<char> {
    match e {
        ValidationError::MissingField(f) => "Missing required field: "@ + f@,
        ValidationError::InvalidValue { field, reason } => "Invalid value for "@ + field@ + ": "@
            + reason@,
        ValidationError::OutOfRange { field, value, min, max } => "Value for "@ + field@
            + " out of range: "@ + value@ + " (expected "@ + min@ + ".."@ + max@ + ")"@,
        ValidationError::DuplicateId(id) => "Duplicate identifier: "@ + id@,
        ValidationError::InvalidFormat { field, reason } => "Invalid format for "@ + field@ + ": "@
            + reason@,
    }
}

impl ValidationError {
    /// Render the error as user-visible text.
    pub fn message(&self) -> (r: String)
        ensures
            r@ == spec_validation_error_message(*self),
    {
        match self {
            ValidationError::MissingField(f) => {
                let mut m = String::from_str("Missing required field: ");
                m.append(f.as_str());
                m
            }
            ValidationError::InvalidValue { field, reason } => {
                let mut m = String::from_str("Invalid value for ");
                m.append(field.as_str());
                m.append(": ");
                m.append(reason.as_str());
                m
            }
            ValidationError::OutOfRange { field, value, min, max } => {
                let mut m = String::from_str("Value for ");
                m.append(field.as_str());
                m.append(" out of range: ");
                m.append(value.as_str());
                m.append(" (expected ");
                m.append(min.as_str());
                m.append("..");
                m.append(max.as_str());
                m.append(")");
                m
            }
            ValidationError::DuplicateId(id) => {
                let mut m = String::from_str("Duplicate identifier: ");
                m.append(id.as_str());
                m
            }
            ValidationError::InvalidFormat { field, reason } => {
                let mut m = String::from_str("Invalid format for ");
                m.append(field.as_str());
                m.append(": ");
                m.append(reason.as_str());
                m
            }
        }
    }
}

} // verus!
