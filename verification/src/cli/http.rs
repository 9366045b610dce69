//! The server's addresses and status codes.

use crate::text::{joined, trim_end};
use vstd::prelude::*;

verus! {

/// The status says that the server did what was asked.
pub open spec fn is_success_status(status: u16) -> bool {
    200 <= status < 300
}

/// Whether the status says that the server did what was asked.
pub fn is_success(status: u16) -> (r: bool)
    ensures
        r == is_success_status(status),
{
    200 <= status && status < 300
}

/// The base of a server's addresses: its URL without slashes at the end.
pub fn base_url(server: &str) -> (r: String)
    ensures
        r@ == crate::text::trimmed_end(server@, '/'),
{
    trim_end(server, '/')
}

/// Something that the server offers.
#[derive(PartialEq, Eq, Structural, Clone, Copy, Debug)]
pub enum Endpoint {
    Health,
    /// Facts about the file store, among them its part size.
    FileSystem,
    /// The node at a path.
    Resolve,
    Root,
    /// The nodes, to make one.
    Nodes,
}

impl Endpoint {
    /// Where it is, below the base.
    pub open spec fn path(self) -> Seq<char> {
        match self {
            Endpoint::Health => "/health"@,
            Endpoint::FileSystem => "/api/v1/fs"@,
            Endpoint::Resolve => "/api/v1/nodes/resolve"@,
            Endpoint::Root => "/api/v1/nodes/root"@,
            Endpoint::Nodes => "/api/v1/nodes"@,
        }
    }

    /// Its address.
    pub fn url(self, base: &str) -> (r: String)
        ensures
            r@ == base@ + self.path(),
    {
        match self {
            Endpoint::Health => joined(base, "/health"),
            Endpoint::FileSystem => joined(base, "/api/v1/fs"),
            Endpoint::Resolve => joined(base, "/api/v1/nodes/resolve"),
            Endpoint::Root => joined(base, "/api/v1/nodes/root"),
            Endpoint::Nodes => joined(base, "/api/v1/nodes"),
        }
    }
}

/// Something that the server does with one node.
#[derive(PartialEq, Eq, Structural, Clone, Copy, Debug)]
pub enum NodeOperation {
    /// Write data.
    Data,
    /// Make what was written durable.
    Sync,
    /// Move the node to its final name.
    Publish,
}

impl NodeOperation {
    /// The last component of its address.
    pub open spec fn suffix(self) -> Seq<char> {
        match self {
            NodeOperation::Data => "/data"@,
            NodeOperation::Sync => "/sync"@,
            NodeOperation::Publish => "/publish"@,
        }
    }

    /// Its address for the node `id`.
    pub open spec fn address(self, base: Seq<char>, id: Seq<char>) -> Seq<char> {
        base + "/api/v1/nodes/"@ + id + self.suffix()
    }

    /// Its address for the node `id`.
    pub fn url(self, base: &str, id: &str) -> (r: String)
        ensures
            r@ == self.address(base@, id@),
    {
        let mut r = joined(base, "/api/v1/nodes/");
        r.append(id);
        match self {
            NodeOperation::Data => r.append("/data"),
            NodeOperation::Sync => r.append("/sync"),
            NodeOperation::Publish => r.append("/publish"),
        }
        r
    }
}

} // verus!
