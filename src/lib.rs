//! Named tables of keys and values, held in memory, behind a storage
//! interface that any backend can offer; and a SQL dialect whose table names
//! may be URLs.
use vstd::prelude::*;

pub mod dialect;
pub mod laws;
pub mod memtable;
pub mod storage;
pub mod value;

verus! {

} // verus!
