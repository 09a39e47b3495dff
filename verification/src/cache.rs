//! Caches that forget an entry after it was idle for a while. They are
//! those of the `moka` crate; every call into it is made here. A cache may
//! forget an entry at any time: by its age, or to make room. So what is
//! named here is what was put into a cache and not taken out again, and a
//! lookup is only said to find nothing else than that.

use crate::connctx::ConnCtx;
use crate::json::texts;
use crate::userctx::UserCtx;
use vstd::prelude::*;

verus! {

/// A cache of the `moka` crate.
#[verifier::external_type_specification]
#[verifier::external_body]
#[verifier::reject_recursive_types(K)]
#[verifier::reject_recursive_types(V)]
#[verifier::reject_recursive_types(S)]
pub struct ExCache<K, V, S>(moka::sync::Cache<K, V, S>);

/// What is known of a connection, as a value: its number, its user and
/// its organisation.
pub open spec fn conn_view(c: ConnCtx) -> (u64, Seq<char>, Seq<char>) {
    (c.conn_id, c.uid@, c.org_id@)
}

/// What is known of a user, as a value: the principals and the roles.
pub open spec fn user_view(u: UserCtx) -> (Seq<Seq<char>>, Seq<Seq<char>>) {
    (texts(u.principals@), texts(u.token_roles@))
}

/// The connections that were put into the cache (`Cache::insert`) and not
/// taken out again (`Cache::invalidate`), each under its number.
pub uninterp spec fn conn_entries(cache: moka::sync::Cache<u64, ConnCtx>) -> Map<
    u64,
    (u64, Seq<char>, Seq<char>),
>;

/// The limits that the cache of connections was made with: the greatest
/// number of entries (`Policy::max_capacity`) and the seconds after which
/// an idle entry is forgotten (`Policy::time_to_idle`).
pub uninterp spec fn conn_limits(cache: moka::sync::Cache<u64, ConnCtx>) -> (u64, u64);

/// The users that were put into the cache (`Cache::insert`) and not taken
/// out again, each under its identifier.
pub uninterp spec fn user_entries(cache: moka::sync::Cache<String, UserCtx>) -> Map<
    Seq<char>,
    (Seq<Seq<char>>, Seq<Seq<char>>),
>;

/// The limits that the cache of users was made with: the greatest number
/// of entries (`Policy::max_capacity`) and the seconds after which an idle
/// entry is forgotten (`Policy::time_to_idle`).
pub uninterp spec fn user_limits(cache: moka::sync::Cache<String, UserCtx>) -> (u64, u64);

/// The longest idle time that a cache can be made with: a thousand years
/// of 365 days. `build` panics on a longer one.
pub const MAX_IDLE_SECS: u64 = 31_536_000_000;

/// No connections.
pub open spec fn no_conns() -> Map<u64, (u64, Seq<char>, Seq<char>)> {
    Map::empty()
}

/// No users.
pub open spec fn no_users() -> Map<Seq<char>, (Seq<Seq<char>>, Seq<Seq<char>>)> {
    Map::empty()
}

/// A cache of connections for at most `max_capacity` entries, each
/// forgotten after `idle_secs` seconds without use (`Cache::builder`,
/// `max_capacity`, `time_to_idle`, `build`). Nothing was put into it. The
/// idle time is at most `MAX_IDLE_SECS`: `build` panics on a longer one.
#[verifier::external_body]
pub(crate) fn conn_cache_new(max_capacity: u64, idle_secs: u64) -> (r: moka::sync::Cache<u64, ConnCtx>)
    requires
        idle_secs <= MAX_IDLE_SECS,
    ensures
        conn_entries(r) == no_conns(),
        conn_limits(r) == (max_capacity, idle_secs),
{
    moka::sync::Cache::builder().max_capacity(max_capacity).time_to_idle(
        std::time::Duration::from_secs(idle_secs),
    ).build()
}

/// The connection under `key`, if the cache still has one (`Cache::get`):
/// what it hands out is what was put there.
#[verifier::external_body]
pub(crate) fn conn_cache_get(cache: &moka::sync::Cache<u64, ConnCtx>, key: u64) -> (r: Option<ConnCtx>)
    ensures
        r matches Some(c) ==> conn_entries(*cache).contains_key(key) && conn_entries(*cache)[key]
            == conn_view(c),
{
    cache.get(&key)
}

/// Puts `value` under `key`, in place of what was there (`Cache::insert`).
#[verifier::external_body]
pub(crate) fn conn_cache_insert(
    cache: &mut moka::sync::Cache<u64, ConnCtx>,
    key: u64,
    value: ConnCtx,
)
    ensures
        conn_entries(*final(cache)) == conn_entries(*old(cache)).insert(key, conn_view(value)),
        conn_limits(*final(cache)) == conn_limits(*old(cache)),
{
    cache.insert(key, value)
}

/// Forgets what is under `key` (`Cache::invalidate`).
#[verifier::external_body]
pub(crate) fn conn_cache_invalidate(cache: &mut moka::sync::Cache<u64, ConnCtx>, key: u64)
    ensures
        conn_entries(*final(cache)) == conn_entries(*old(cache)).remove(key),
        conn_limits(*final(cache)) == conn_limits(*old(cache)),
{
    cache.invalidate(&key)
}

/// A cache of users for at most `max_capacity` entries, each forgotten
/// after `idle_secs` seconds without use (`Cache::builder`, `max_capacity`,
/// `time_to_idle`, `build`). Nothing was put into it. The idle time is at
/// most `MAX_IDLE_SECS`: `build` panics on a longer one.
#[verifier::external_body]
pub(crate) fn user_cache_new(max_capacity: u64, idle_secs: u64) -> (r: moka::sync::Cache<String, UserCtx>)
    requires
        idle_secs <= MAX_IDLE_SECS,
    ensures
        user_entries(r) == no_users(),
        user_limits(r) == (max_capacity, idle_secs),
{
    moka::sync::Cache::builder().max_capacity(max_capacity).time_to_idle(
        std::time::Duration::from_secs(idle_secs),
    ).build()
}

/// The user under `key`, if the cache still has one (`Cache::get`): what
/// it hands out is what was put there.
#[verifier::external_body]
pub(crate) fn user_cache_get(cache: &moka::sync::Cache<String, UserCtx>, key: &str) -> (r: Option<UserCtx>)
    ensures
        r matches Some(u) ==> user_entries(*cache).contains_key(key@) && user_entries(*cache)[key@]
            == user_view(u),
{
    cache.get(key)
}

/// Puts `value` under `key`, in place of what was there (`Cache::insert`).
#[verifier::external_body]
pub(crate) fn user_cache_insert(
    cache: &mut moka::sync::Cache<String, UserCtx>,
    key: String,
    value: UserCtx,
)
    ensures
        user_entries(*final(cache)) == user_entries(*old(cache)).insert(key@, user_view(value)),
        user_limits(*final(cache)) == user_limits(*old(cache)),
{
    cache.insert(key, value)
}

/// About how many entries the cache holds (`Cache::entry_count`). The
/// number lags behind what was put into the cache, so nothing is claimed
/// of it.
#[verifier::external_body]
pub(crate) fn user_cache_len(cache: &moka::sync::Cache<String, UserCtx>) -> u64 {
    cache.entry_count()
}

} // verus!
