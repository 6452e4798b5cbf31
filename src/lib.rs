//! Directory-size scanning and batch deletion, with the decisions of each proved.
//!
//! The walk over a directory tree is driven from outside, one entry at a time: the
//! caller reads an entry (`walk::EntryProbe`), the library decides what it counts for
//! (`walk::visit_entry`), and closes each directory from its children's outcomes
//! (`walk::finish_directory`). Session counters, cycle guards and the pending batch
//! live in `session::ScanState`; the messages a scan streams are built in `report`;
//! the depth-limited snapshot and the wire form of trees are in `tree`; volume
//! capacity is chosen in `disk`; and a batch deletion is tallied in `delete`.

pub mod tree;
pub mod session;
pub mod text;
pub mod disk;
pub mod report;
pub mod walk;
pub mod delete;
