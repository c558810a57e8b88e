//! A small documented module, handy as input when trying the renderer.
use vstd::prelude::*;

verus! {

/// BAR is the answer to the universe and everything.
///
/// ## Examples
///
/// ```ignore
/// const THE_ANSWER: usize = BAR;
/// ```
pub const BAR: usize = 42;

/// Foo
pub fn foo() {
}

} // verus!
