//! A content-addressed snapshot store: directory trees are recorded as an
//! immutable graph of blobs, trees and commits, and past snapshots are
//! projected back as a read-only directory hierarchy.
pub mod model;
pub mod codec;
pub mod serial;
pub mod database;
pub mod commits;
pub mod snapshot;
pub mod viewer;
