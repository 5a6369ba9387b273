//! Persistence layer of a log-ingestion service: naming and selection of local segment
//! files, the remote key scheme and metadata documents, and the decisions of a sync pass
//! that converts local files and ships them to an object store.
use vstd::prelude::*;

pub mod convert;
pub mod error;
pub mod local_dir;
pub mod metadata;
pub mod naming;
pub mod remote;
pub mod sync;

verus! {

} // verus!
