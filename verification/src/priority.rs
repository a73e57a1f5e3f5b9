//! The priority that the process asks for.

use vstd::prelude::*;

verus! {

/// An error of the operating system.
#[verifier::external_type_specification]
#[verifier::external_body]
pub struct ExIoError(std::io::Error);

/// How the process is scheduled against others.
#[derive(Clone, Copy, Debug, PartialEq, Eq, Structural)]
pub enum PriorityClass {
    High,
    Normal,
}

/// The class that is asked for where the system has classes.
pub fn priority_class(high_priority: bool) -> (r: PriorityClass)
    ensures
        r == if high_priority {
            PriorityClass::High
        } else {
            PriorityClass::Normal
        },
{
    if high_priority {
        PriorityClass::High
    } else {
        PriorityClass::Normal
    }
}

/// Sets the priority of the process where the system has no classes: it is left as it is, which
/// never fails.
pub fn set_process_priority(high_priority: bool) -> (r: Result<(), std::io::Error>)
    ensures
        r is Ok,
{
    Ok(())
}

} // verus!
