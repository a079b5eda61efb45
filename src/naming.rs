//! Mapping of logical endpoint names to transport addresses.
//!
//! A client and a server built apart must compute the same address from the
//! same name, so the mapping depends on the name alone.
use vstd::prelude::*;
use vstd::string::StringExecFns;

verus! {

/// The transport address of the endpoint called `name`: a path under the
/// temporary-file directory.
pub open spec fn endpoint_path(name: Seq<char>) -> Seq<char> {
    "/tmp/"@ + name
}

/// How an endpoint address is handed to the transport.
#[derive(Debug, Clone, Copy, PartialEq, Eq, Structural)]
pub enum Addressing {
    /// A name in the platform's socket namespace.
    Namespaced,
    /// A path in the file system.
    Filesystem,
}

/// The transport address of the endpoint called `name`.
pub fn socket_name(name: &str) -> (r: String)
    ensures
        r@ == endpoint_path(name@),
{
    let mut s = String::from_str("/tmp/");
    s.append(name);
    s
}

/// Picks how to address an endpoint: in the socket namespace where the platform
/// has one, else in the file system; `None` where it supports neither.
pub fn choose_addressing(namespaced: bool, filesystem: bool) -> (r: Option<Addressing>)
    ensures
        namespaced ==> r == Some(Addressing::Namespaced),
        !namespaced && filesystem ==> r == Some(Addressing::Filesystem),
        !namespaced && !filesystem ==> r is None,
{
    if namespaced {
        Some(Addressing::Namespaced)
    } else if filesystem {
        Some(Addressing::Filesystem)
    } else {
        None
    }
}

/// Address-mapping stability: the same name always gives the same address, and
/// distinct names give distinct addresses.
pub proof fn lemma_endpoint_path_stable(a: Seq<char>, b: Seq<char>)
    ensures
        (endpoint_path(a) == endpoint_path(b)) <==> (a == b),
{
    if endpoint_path(a) == endpoint_path(b) {
        let p = "/tmp/"@;
        assert(a =~= endpoint_path(a).subrange(p.len() as int, endpoint_path(a).len() as int));
        assert(b =~= endpoint_path(b).subrange(p.len() as int, endpoint_path(b).len() as int));
    }
}

} // verus!
