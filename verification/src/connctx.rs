//! The live connections: for each, the user behind it and the organisation
//! it was admitted to.

use crate::cache::{
    conn_cache_get, conn_cache_insert, conn_cache_invalidate, conn_cache_new, conn_entries,
    conn_limits, no_conns,
};
use vstd::prelude::*;
use vstd::string::*;

verus! {

/// The connection that stands for the service itself. It is never stored.
pub const SYSTEM_CONN: u64 = 0;

/// The principal of the service's own updates.
pub open spec fn system_principal() -> Seq<char> {
    "s/colabri-system"@
}

/// The principal of the service's own updates.
pub fn system_prpl() -> (r: &'static str)
    ensures
        r@ == system_principal(),
{
    "s/colabri-system"
}

/// What is known of a connection.
#[derive(Clone, Debug)]
pub struct ConnCtx {
    pub conn_id: u64,
    pub uid: String,
    pub org_id: String,
}

/// The registry of live connections. An entry is forgotten when it was not
/// used for the idle time.
pub struct ConnRegistry {
    pub cache: moka::sync::Cache<u64, ConnCtx>,
}

impl ConnRegistry {
    /// The connections that were recorded and not forgotten on demand,
    /// each under its number with its user and its organisation. The
    /// registry may have forgotten any of them by its age.
    pub open spec fn recorded(&self) -> Map<u64, (u64, Seq<char>, Seq<char>)> {
        conn_entries(self.cache)
    }

    /// The greatest number of connections that the registry keeps, and the
    /// seconds after which it forgets a connection that was not used.
    pub open spec fn limits(&self) -> (u64, u64) {
        conn_limits(self.cache)
    }

    /// A registry for a hundred thousand connections that forgets a
    /// connection after three hours without use. Nothing is recorded in
    /// it.
    pub fn new() -> (r: ConnRegistry)
        ensures
            r.recorded() == no_conns(),
            r.limits() == (100_000u64, 10_800u64),
    {
        ConnRegistry { cache: conn_cache_new(100_000, 10_800) }
    }

    /// Records a connection under its number, in place of what was
    /// recorded there. The system connection is not recorded.
    pub fn insert(&mut self, conn_id: u64, uid: &str, org_id: &str)
        ensures
            conn_id == SYSTEM_CONN ==> final(self).cache == old(self).cache,
            conn_id != SYSTEM_CONN ==> final(self).recorded() == old(self).recorded().insert(
                conn_id,
                (conn_id, uid@, org_id@),
            ),
            final(self).limits() == old(self).limits(),
    {
        if conn_id != SYSTEM_CONN {
            conn_cache_insert(
                &mut self.cache,
                conn_id,
                ConnCtx { conn_id, uid: String::from_str(uid), org_id: String::from_str(org_id) },
            );
        }
    }

    /// What is known of a connection. The system connection is always
    /// known, as the service's own identity in no organisation. Of another
    /// connection the registry knows what was recorded, unless it has
    /// forgotten it.
    pub fn lookup(&self, conn_id: u64) -> (r: Option<ConnCtx>)
        ensures
            conn_id == SYSTEM_CONN ==> r is Some && r->0.conn_id == SYSTEM_CONN && r->0.uid@
                == system_principal() && r->0.org_id@ == ""@,
            conn_id != SYSTEM_CONN ==> (r matches Some(c) ==> self.recorded().contains_key(conn_id)
                && self.recorded()[conn_id] == (c.conn_id, c.uid@, c.org_id@)),
    {
        if conn_id == SYSTEM_CONN {
            return Some(
                ConnCtx {
                    conn_id,
                    uid: String::from_str(system_prpl()),
                    org_id: String::from_str(""),
                },
            );
        }
        conn_cache_get(&self.cache, conn_id)
    }

    /// Forgets a connection: it is no longer recorded. The system
    /// connection, which is not recorded, stays known.
    pub fn invalidate(&mut self, conn_id: u64)
        ensures
            conn_id == SYSTEM_CONN ==> final(self).cache == old(self).cache,
            conn_id != SYSTEM_CONN ==> final(self).recorded() == old(self).recorded().remove(
                conn_id,
            ),
            final(self).limits() == old(self).limits(),
    {
        if conn_id != SYSTEM_CONN {
            conn_cache_invalidate(&mut self.cache, conn_id);
        }
    }
}

/// Makes the registry of connections where there is none yet; a registry
/// that is there stays.
pub fn init_conn_ctx_cache(place: &mut Option<ConnRegistry>)
    ensures
        *final(place) is Some,
        *old(place) is Some ==> *final(place) == *old(place),
{
    if place.is_none() {
        *place = Some(ConnRegistry::new());
    }
}

/// The registry of connections that was made.
pub fn get_conn_ctx_cache(place: &Option<ConnRegistry>) -> (r: &ConnRegistry)
    requires
        *place is Some,
    ensures
        *r == place->0,
{
    place.as_ref().unwrap()
}

} // verus!
