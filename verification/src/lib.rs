use vstd::prelude::*;

pub mod text;
pub mod i18n;
pub mod auth;
pub mod pagination;
pub mod toast;
pub mod forms;
pub mod announcements;
pub mod meters;
pub mod properties;
pub mod maintenance;

verus! {

} // verus!
