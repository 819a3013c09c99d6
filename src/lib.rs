//! A three-slot rolling seed window that drives a recurrence, and the
//! line layout of the exported sample table.

pub mod table;
pub mod window;

