use vstd::prelude::*;

verus! {

/// Roles to describe the origin/ownership of content.
#[derive(Debug, Clone, Copy, PartialEq, Eq, Structural)]
pub enum Role {
    User,
    Assistant,
}

} // verus!
