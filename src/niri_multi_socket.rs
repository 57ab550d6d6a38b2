//! The address of the compositor's socket, kept so that each request can
//! open a connection of its own.

use vstd::prelude::*;

verus! {

/// A compositor socket path, reused for many requests.
pub struct MultiSocket {
    path: String,
}

impl MultiSocket {
    pub closed spec fn path_view(&self) -> Seq<char> {
        self.path@
    }

    /// Keeps `path` as the socket to connect to.
    pub fn connect_to(path: &str) -> (r: MultiSocket)
        ensures
            r.path_view() == path@,
    {
        MultiSocket { path: path.to_owned() }
    }

    pub fn path(&self) -> (r: &str)
        ensures
            r@ == self.path_view(),
    {
        self.path.as_str()
    }
}

} // verus!
