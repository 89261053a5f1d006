//! Task records with a start and an end date, the lifecycle state that
//! follows from those dates and the clock, and the figures derived from them.
//!
//! - [`time`]: calendar dates, day differences, timestamps, the month grid.
//! - [`state`]: the states of a record and the rule that derives them.
//! - [`def`]: the shape of a record and of the steps of its plan.
//! - [`record`]: progress and remaining days of a record, changes of its
//!   state, and the edits of the list of records.
//! - [`plan`]: the edits of a record's plan.
//! - [`reorder`]: moving one item of a list to another position.
//! - [`search`]: searching the list of records by title.
//! - [`archive`]: the list of archived records.
//! - [`statistic`]: days spent and counts by state over many records.
//! - [`dialog`]: what menu entries and confirmed dialogs ask for.
//! - [`reply`]: reading a generated plan out of the reply of the plan service.
//! - [`text`]: reading a number, searching a text and replacing parts of it.
//!
//! Every function takes the current day or instant as an argument, except
//! the few that say they read the clock.

pub mod archive;
pub mod def;
pub mod dialog;
pub mod plan;
pub mod record;
pub mod reorder;
pub mod reply;
pub mod search;
pub mod state;
pub mod statistic;
pub mod text;
pub mod time;
