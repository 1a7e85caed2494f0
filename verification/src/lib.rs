//! Editor core for line-oriented schedule files: the entry model with its
//! text codec and total ordering, field validation, a cursor-navigable list,
//! the field-by-field edit session, and the backup-then-overwrite save
//! protocol over an explicit file model.

pub mod digits;
pub mod text;
pub mod schedule;
pub mod order;
pub mod selectable;
pub mod session;
