//! Fatal errors of extraction and composition.

use vstd::prelude::*;

verus! {

/// What can go wrong when a template is composed with a code body.
#[derive(Clone, Copy, Debug, PartialEq, Eq, Structural)]
pub enum SkepticError {
    /// The template holds zero, or more than one, substitution markers.
    MalformedTemplate,
    /// A test names a template tag that the document does not define.
    UnresolvedTemplateReference,
}

} // verus!
