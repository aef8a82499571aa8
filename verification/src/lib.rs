//! Verified core logic of a terminal Todoist client: date labels, task
//! selection and ordering, sidebar layout, keyboard dispatch and the
//! small counters (star jar, pomodoro) that sit beside them.
use vstd::prelude::*;

pub mod actions;
pub mod app;
pub mod counters;
pub mod dates;
pub mod delta;
pub mod dispatch;
pub mod edit;
pub mod events;
pub mod ids;
pub mod keys;
pub mod laws;
pub mod layout;
pub mod model;
pub mod nav;
pub mod order;
pub mod order_laws;
pub mod poll;
pub mod projects;
pub mod screen;
pub mod settings;
pub mod sources;
pub mod prs;
pub mod sync;
pub mod tasks;
pub mod text;
pub mod todoist;

verus! {
} // verus!
