use vstd::prelude::*;

verus! {

/// Identifies the host event-loop notification to raise when work becomes
/// runnable; sending it is a foreign call made by the embedding layer.
#[derive(Debug, Clone, Copy, PartialEq, Eq)]
pub struct Notification(pub isize);

} // verus!
