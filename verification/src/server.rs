//! Storage-node identities and the server registry.
//!
//! The registry is an append-only set of storage-node identities keyed by
//! network address: registering a second identity with an address already
//! present is rejected and leaves the registry unchanged.

use rand::Rng;
use vstd::prelude::*;

use crate::error::TinyDfsError;

verus! {

/// A network address.
pub struct Ip(pub String);

impl View for Ip {
    type V = Seq<char>;

    open spec fn view(&self) -> Seq<char> {
        self.0@
    }
}

impl Ip {
    /// An owned copy of this address.
    pub fn duplicate(&self) -> (r: Ip)
        ensures
            r == *self,
    {
        Ip(self.0.clone())
    }
}

/// The identity of one storage node: where clients read and write file
/// bytes, and where the naming service sends commands.
pub struct StorageServer {
    pub ip: Ip,
    pub client_port: u16,
    pub command_port: u16,
}

impl StorageServer {
    pub fn new(ip: Ip, client_port: u16, command_port: u16) -> (r: Self)
        ensures
            r.ip == ip,
            r.client_port == client_port,
            r.command_port == command_port,
    {
        Self { ip, client_port, command_port }
    }

    /// An owned copy of this identity.
    pub fn duplicate(&self) -> (r: Self)
        ensures
            r == *self,
    {
        StorageServer {
            ip: self.ip.duplicate(),
            client_port: self.client_port,
            command_port: self.command_port,
        }
    }
}

/// Whether some registered identity has the address `ip`.
pub open spec fn has_addr(servers: Seq<StorageServer>, ip: Seq<char>) -> bool {
    exists|i: int| 0 <= i < servers.len() && #[trigger] servers[i].ip@ == ip
}

/// The registry after one registration attempt, and whether it was admitted:
/// a duplicate address is rejected and the registry is unchanged.
pub open spec fn spec_register(servers: Seq<StorageServer>, srv: StorageServer) -> (Seq<
    StorageServer,
>, bool) {
    if has_addr(servers, srv.ip@) {
        (servers, false)
    } else {
        (servers.push(srv), true)
    }
}

/// The registry of storage nodes known to the naming service.
pub struct ServerManager {
    pub servers: Vec<StorageServer>,
}

impl ServerManager {
    /// An empty registry.
    pub fn new() -> (r: Self)
        ensures
            r.servers@ == Seq::<StorageServer>::empty(),
    {
        Self { servers: Vec::new() }
    }

    /// Admits `srv` unless an identity with the same address is already
    /// registered; rejection leaves the registry unchanged.
    pub fn register_server(&mut self, srv: &StorageServer) -> (r: Result<(), TinyDfsError>)
        ensures
            (final (self).servers@, r is Ok) == spec_register(old(self).servers@, *srv),
            r is Err ==> r == Err::<(), TinyDfsError>(TinyDfsError::StorageServerExists),
    {
        let n = self.servers.len();
        let mut i: usize = 0;
        while i < n
            invariant
                i <= n,
                n == self.servers@.len(),
                forall|j: int| 0 <= j < i ==> #[trigger] self.servers@[j].ip@ != srv.ip@,
            decreases n - i,
        {
            if self.servers[i].ip.0 == srv.ip.0 {
                proof {
                    assert(self.servers@[i as int].ip@ == srv.ip@);
                    assert(has_addr(self.servers@, srv.ip@));
                }
                return Err(TinyDfsError::StorageServerExists);
            }
            i = i + 1;
        }
        self.servers.push(srv.duplicate());
        Ok(())
    }

    /// A uniformly random registered identity, or `None` when the registry
    /// is empty.
    pub fn get_random(&self) -> (r: Option<StorageServer>)
        ensures
            r is Some <==> self.servers@.len() > 0,
            r matches Some(s) ==> self.servers@.contains(s),
    {
        if self.servers.len() == 0 {
            None
        } else {
            let idx = random_below(self.servers.len());
            let s = self.servers[idx].duplicate();
            proof {
                assert(self.servers@.contains(self.servers@[idx as int]));
            }
            Some(s)
        }
    }
}

/// A uniformly random choice among a non-empty list of identities, the
/// current owners of one file.
pub fn select_one_server(srvs: &Vec<StorageServer>) -> (r: StorageServer)
    requires
        srvs@.len() > 0,
    ensures
        srvs@.contains(r),
{
    let idx = random_below(srvs.len());
    let s = srvs[idx].duplicate();
    proof {
        assert(srvs@.contains(srvs@[idx as int]));
    }
    s
}

/// Relies on `rand::Rng::gen_range` on the thread-local generator
/// `rand::thread_rng()`: a sample from the half-open range `0..n` is below
/// `n`; the range is non-empty, so the call does not panic.
#[verifier::external_body]
fn random_below(n: usize) -> (r: usize)
    requires
        n > 0,
    ensures
        r < n,
{
    rand::thread_rng().gen_range(0..n)
}

} // verus!
