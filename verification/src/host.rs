//! A concrete record for the collection: one SSH host entry, searched by its
//! name.

use vstd::prelude::*;

use crate::searchable::SearchableItem;

verus! {

/// One host record.  The name is what searching and the confirmation prompt
/// show; the address rides along untouched.
#[derive(Debug, PartialEq, Eq)]
pub struct Host {
    pub name: String,
    pub address: String,
}

impl Host {
    pub fn new(name: String, address: String) -> (r: Self)
        ensures
            r.name == name,
            r.address == address,
    {
        Host { name, address }
    }
}

impl SearchableItem for Host {
    /// Searching matches against the host's name.
    open spec fn text_spec(&self) -> Seq<char> {
        self.name@
    }

    fn search_text(&self) -> (r: &str) {
        self.name.as_str()
    }

    fn duplicate(&self) -> (r: Self) {
        Host { name: self.name.clone(), address: self.address.clone() }
    }
}

} // verus!
