//! The application secret that unlocks the encrypted ledger. Loading and
//! persisting the secret is platform work done outside the library; the
//! library only carries the value.

use vstd::prelude::*;

verus! {

/// The secrets the application runs with: the SQLCipher database key.
#[derive(Debug, Clone)]
pub struct AppSecrets {
    db_key: String,
}

impl AppSecrets {
    /// The database key this value carries.
    pub closed spec fn spec_key(&self) -> Seq<char> {
        self.db_key@
    }

    pub fn new(db_key: String) -> (r: Self)
        ensures
            r.spec_key() == db_key@,
    {
        Self { db_key }
    }

    pub fn sqlcipher_key(&self) -> (r: &str)
        ensures
            r@ == self.spec_key(),
    {
        self.db_key.as_str()
    }
}

} // verus!
