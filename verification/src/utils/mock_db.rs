//! An in-memory stand-in for the credentials database.
use vstd::prelude::*;

use std::collections::HashMap;

verus! {

/// Tables of rows keyed by identifier, each row a map from column to value.
pub struct MockDb {
    pub pool: HashMap<String, HashMap<String, String>>,
}

impl MockDb {
    /// An empty database.
    pub fn new() -> (db: MockDb)
        ensures
            db.pool@ == Map::<String, HashMap<String, String>>::empty(),
    {
        MockDb { pool: HashMap::new() }
    }
}

} // verus!
