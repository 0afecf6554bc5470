//! The logic of a small browser: style values and stylesheets, the browsing
//! session, and the decisions of page scripting.
use vstd::prelude::*;

pub mod browser;
pub mod css;
pub mod scripting;
pub mod text;

verus! {

} // verus!
