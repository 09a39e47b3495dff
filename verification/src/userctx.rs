//! What is known of a user: the principals that the identity service
//! names, and the roles of the user's token.

use crate::cache::{
    no_users, user_cache_get, user_cache_insert, user_cache_len, user_cache_new, user_entries,
    user_limits, user_view,
};
use crate::error::ErrorKind;
use crate::json::{
    json_member, json_member_of, lemma_texts_push, string_list, string_list_of, texts,
};
use crate::text::{find_prefixed, first_prefixed, holds, holds_prefixed, join2, lemma_first_prefixed};
use vstd::prelude::*;
use vstd::string::*;

verus! {

/// The principals of a user and the roles of the user's token.
#[derive(Clone, Debug)]
pub struct UserCtx {
    pub principals: Vec<String>,
    pub token_roles: Vec<String>,
}

/// Each role as a principal: `r/` and the role's name.
pub open spec fn role_principals(roles: Seq<String>) -> Seq<Seq<char>> {
    Seq::new(roles.len(), |i: int| "r/"@ + roles[i]@)
}

/// All principals of a user: those that the identity service names, then
/// one for each role of the token.
pub open spec fn all_principals(ctx: UserCtx) -> Seq<Seq<char>> {
    texts(ctx.principals@) + role_principals(ctx.token_roles@)
}

impl UserCtx {
    /// The user's principal in organisation `org_id`: the first of the
    /// principals that begins with the organisation's user prefix.
    pub fn get_user_principal(&self, org_id: &str) -> (r: Option<String>)
        ensures
            match r {
                Some(p) => {
                    let i = first_prefixed(self.principals@, crate::auth::org_user_prefix(org_id@));
                    &&& i < self.principals@.len()
                    &&& p@ == self.principals@[i]@
                    &&& crate::text::has_prefix(p@, crate::auth::org_user_prefix(org_id@))
                    &&& holds(self.principals@, p@)
                },
                None => !holds_prefixed(self.principals@, crate::auth::org_user_prefix(org_id@)),
            },
    {
        let org_prefix = join2(org_id, "/u/");
        proof {
            lemma_first_prefixed(self.principals@, org_prefix@);
        }
        match find_prefixed(&self.principals, org_prefix.as_str()) {
            Some(i) => Some(self.principals[i].clone()),
            None => None,
        }
    }

    /// All principals of the user: those that the identity service names,
    /// then `r/` and the name of each role of the token.
    pub fn get_all_prpls(&self) -> (r: Vec<String>)
        ensures
            texts(r@) == all_principals(*self),
    {
        let mut all: Vec<String> = Vec::new();
        let mut i: usize = 0;
        assert(texts(all@) =~= texts(self.principals@).take(0));
        while i < self.principals.len()
            invariant
                i <= self.principals.len(),
                texts(all@) == texts(self.principals@).take(i as int),
            decreases self.principals.len() - i,
        {
            let p = self.principals[i].clone();
            proof {
                lemma_texts_push(all@, p);
                assert(texts(self.principals@).take(i + 1) =~= texts(self.principals@).take(
                    i as int,
                ).push(p@));
            }
            all.push(p);
            i += 1;
        }
        assert(texts(self.principals@).take(self.principals@.len() as int) =~= texts(
            self.principals@,
        ));
        let mut k: usize = 0;
        assert(texts(all@) =~= texts(self.principals@) + role_principals(self.token_roles@).take(0));
        while k < self.token_roles.len()
            invariant
                k <= self.token_roles.len(),
                texts(all@) == texts(self.principals@) + role_principals(self.token_roles@).take(
                    k as int,
                ),
            decreases self.token_roles.len() - k,
        {
            let p = join2("r/", self.token_roles[k].as_str());
            proof {
                lemma_texts_push(all@, p);
                assert(role_principals(self.token_roles@).take(k + 1) =~= role_principals(
                    self.token_roles@,
                ).take(k as int).push(p@));
                assert(texts(self.principals@) + role_principals(self.token_roles@).take(k + 1)
                    =~= (texts(self.principals@) + role_principals(self.token_roles@).take(
                    k as int,
                )).push(p@));
            }
            all.push(p);
            k += 1;
        }
        assert(role_principals(self.token_roles@).take(self.token_roles@.len() as int)
            =~= role_principals(self.token_roles@));
        all
    }
}

/// The principals that an answer of the identity service names: the list
/// under `prpls` where the answer has that member, else the answer itself;
/// in both cases a list of strings, and no principal at all where it is
/// anything else.
pub open spec fn principals_in(answer: Seq<char>) -> Seq<Seq<char>> {
    let list = match json_member_of(answer, "prpls"@) {
        Some(member) => string_list_of(member),
        None => string_list_of(answer),
    };
    match list {
        Some(l) => l,
        None => Seq::empty(),
    }
}

/// The principals that an answer of the identity service names.
pub fn parse_principals_from_json(answer: &str) -> (r: Vec<String>)
    ensures
        texts(r@) == principals_in(answer@),
{
    let list = match json_member(answer, "prpls") {
        Some(member) => string_list(member.as_str()),
        None => string_list(answer),
    };
    match list {
        Some(l) => l,
        None => {
            let empty: Vec<String> = Vec::new();
            assert(texts(empty@) =~= Seq::empty());
            empty
        },
    }
}

/// What is known of users, by user identifier. An entry is forgotten when
/// it was not used for the idle time.
pub struct UserCtxCache {
    pub cache: moka::sync::Cache<String, UserCtx>,
}

/// What a lookup in the cache leads to.
pub enum Identity {
    /// The cache has the user.
    Known(UserCtx),
    /// The identity service has to be asked.
    MustFetch,
}

impl UserCtxCache {
    /// The users that were stored, each under its identifier with its
    /// principals and roles. The cache may have forgotten any of them by
    /// its age.
    pub open spec fn stored(&self) -> Map<Seq<char>, (Seq<Seq<char>>, Seq<Seq<char>>)> {
        user_entries(self.cache)
    }

    /// The greatest number of users that the cache keeps, and the seconds
    /// after which it forgets a user that was not used.
    pub open spec fn limits(&self) -> (u64, u64) {
        user_limits(self.cache)
    }

    /// A cache for a hundred thousand users that forgets a user after five
    /// minutes without use. Nothing is stored in it.
    pub fn new() -> (r: UserCtxCache)
        ensures
            r.stored() == no_users(),
            r.limits() == (100_000u64, 300u64),
    {
        UserCtxCache { cache: user_cache_new(100_000, 300) }
    }

    /// About how many users the cache holds.
    pub fn len(&self) -> u64 {
        user_cache_len(&self.cache)
    }

    /// The first step of looking a user up: the cached entry where there is
    /// one and no refresh is forced, else the instruction to ask the
    /// identity service. A cached entry is what was stored for the user.
    pub fn begin(&self, uid: &str, force_refresh: bool) -> (r: Identity)
        ensures
            force_refresh ==> r is MustFetch,
            r matches Identity::Known(ctx) ==> self.stored().contains_key(uid@)
                && self.stored()[uid@] == user_view(ctx),
    {
        if force_refresh {
            return Identity::MustFetch;
        }
        match get_user_ctx_from_cache(self, uid) {
            Some(ctx) => Identity::Known(ctx),
            None => Identity::MustFetch,
        }
    }

    /// The second step: the answer of the identity service, or the text of
    /// its failure. An answer is parsed, stored under `uid` and handed back
    /// with the roles of the token; a failure stores nothing.
    pub fn finish(&mut self, uid: &str, token_roles: Vec<String>, answer: Result<&str, &str>) -> (r:
        Result<UserCtx, ErrorKind>)
        ensures
            final(self).limits() == old(self).limits(),
            match r {
                Ok(ctx) => {
                    &&& answer is Ok
                    &&& texts(ctx.principals@) == principals_in(answer->Ok_0@)
                    &&& ctx.token_roles == token_roles
                    &&& final(self).stored() == old(self).stored().insert(uid@, user_view(ctx))
                },
                Err(e) => answer is Err && e == ErrorKind::IdentityUnavailable && final(self).cache
                    == old(self).cache,
            },
    {
        match answer {
            Ok(body) => {
                let principals = parse_principals_from_json(body);
                let ctx = UserCtx { principals, token_roles };
                let stored = UserCtx {
                    principals: copy_strings(&ctx.principals),
                    token_roles: copy_strings(&ctx.token_roles),
                };
                user_cache_insert(&mut self.cache, String::from_str(uid), stored);
                Ok(ctx)
            },
            Err(_) => Err(ErrorKind::IdentityUnavailable),
        }
    }
}

/// What the cache has of the user `uid`, if it has anything: then it is
/// what was stored for the user.
pub fn get_user_ctx_from_cache(cache: &UserCtxCache, uid: &str) -> (r: Option<UserCtx>)
    ensures
        r matches Some(ctx) ==> cache.stored().contains_key(uid@) && cache.stored()[uid@]
            == user_view(ctx),
{
    user_cache_get(&cache.cache, uid)
}

/// A copy of a list of strings.
pub fn copy_strings(items: &Vec<String>) -> (r: Vec<String>)
    ensures
        r@ == items@,
{
    let mut out: Vec<String> = Vec::new();
    let mut i: usize = 0;
    while i < items.len()
        invariant
            i <= items.len(),
            out@ == items@.take(i as int),
        decreases items.len() - i,
    {
        out.push(items[i].clone());
        assert(out@ =~= items@.take(i + 1));
        i += 1;
    }
    assert(items@.take(items@.len() as int) =~= items@);
    out
}

/// Makes the cache of user contexts where there is none yet; a cache that
/// is there stays.
pub fn init_user_ctx_cache(place: &mut Option<UserCtxCache>)
    ensures
        *final(place) is Some,
        *old(place) is Some ==> *final(place) == *old(place),
{
    if place.is_none() {
        *place = Some(UserCtxCache::new());
    }
}

/// The cache of user contexts that was made.
pub fn get_user_ctx_cache(place: &Option<UserCtxCache>) -> (r: &UserCtxCache)
    requires
        *place is Some,
    ensures
        *r == place->0,
{
    place.as_ref().unwrap()
}

} // verus!
