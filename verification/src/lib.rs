//! Legal case checklists: hierarchical checklists that complete their
//! sections automatically, documents that hold them under names, the
//! predefined sections of a case PDF with their page images, and the state of
//! the checklist manager with what each user action does to it.
pub mod checklist;
pub mod document;
pub mod store;
pub mod pdf;
pub mod app;
