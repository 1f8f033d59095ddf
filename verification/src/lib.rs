//! Plans and reports a batch rename that prefixes each file of one directory
//! with a stamp of its creation time.

pub mod config;
pub mod item;
pub mod naming;
pub mod order;
pub mod partition;
pub mod report;
pub mod session;
pub mod timestamp;

pub use config::Config;
pub use item::{Entry, FsItem, FsItemError, FsItemRenameError, ItemPath, Metadata};
pub use partition::partition_results;
pub use session::{begin, run, Action, Event, Session};
pub use timestamp::Timestamp;
