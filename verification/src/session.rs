//! The steps of a session: the handshake of a connection, the check of a
//! connection against a room, and the identity under which a batch is
//! judged.

use crate::auth::{cloud_admin, org_user_prefix, service_principal};
use crate::connctx::{system_principal, system_prpl, ConnCtx, ConnRegistry, SYSTEM_CONN};
use crate::error::ErrorKind;
use crate::ids::{parse_uuid, uuid_of_text};
use crate::json::texts;
use crate::room::admission::{admission_of, peers_after};
use crate::store::{is_viewable, viewable, ColabDocument};
use crate::text::{
    contains_str, has_prefix, holds, holds_prefixed, join2, join3, opt_text, starts_with, str_eq,
    text_of,
};
use crate::token::{auth_token_of, get_auth_token, validate_jwt, Claims};
use crate::userctx::{all_principals, UserCtx};
use vstd::prelude::*;
use vstd::string::*;

verus! {

/// Who a token speaks for.
#[derive(Debug)]
pub enum Caller {
    /// A user, with the roles of the token.
    User { uid: String, roles: Vec<String> },
    /// A service.
    Service { name: String },
}

/// Who the claims of a token speak for: they must name a subject, and be of
/// type `user` or `service`.
pub open spec fn caller_fits(claims: Claims, r: Result<Caller, ErrorKind>) -> bool {
    match r {
        Ok(Caller::User { uid, roles }) => claims.type_ is Some && claims.type_->0@ == "user"@
            && claims.sub is Some && uid@ == claims.sub->0@ && roles == claims.roles,
        Ok(Caller::Service { name }) => claims.type_ is Some && claims.type_->0@ == "service"@
            && claims.sub is Some && name@ == claims.sub->0@,
        Err(e) => e == ErrorKind::Unauthenticated && (claims.sub is None || claims.type_ is None || (
        claims.type_->0@ != "user"@ && claims.type_->0@ != "service"@)),
    }
}

/// Who the claims of a token speak for.
pub fn caller_of(claims: Claims) -> (r: Result<Caller, ErrorKind>)
    ensures
        caller_fits(claims, r),
{
    let kind = match claims.type_ {
        Some(t) => t,
        None => {
            return Err(ErrorKind::Unauthenticated);
        },
    };
    let sub = match claims.sub {
        Some(s) => s,
        None => {
            return Err(ErrorKind::Unauthenticated);
        },
    };
    if str_eq(kind.as_str(), "user") {
        Ok(Caller::User { uid: sub, roles: claims.roles })
    } else if str_eq(kind.as_str(), "service") {
        Ok(Caller::Service { name: sub })
    } else {
        Err(ErrorKind::Unauthenticated)
    }
}

/// Who a request speaks for, given its `Authorization` and `Cookie` headers
/// and the shared secret. Without a token, without a secret, with a token
/// that does not verify or that names no subject or no known type, the
/// request is unauthenticated.
pub fn token_identity(authorization: Option<&str>, cookie: Option<&str>, secret: Option<&str>) -> (r:
    Result<Caller, ErrorKind>)
    ensures
        r matches Err(e) ==> e == ErrorKind::Unauthenticated,
        secret is None ==> r is Err,
        auth_token_of(text_of(authorization), text_of(cookie)) is Err ==> r is Err,
        r is Ok ==> exists|claims: Claims| #[trigger] caller_fits(claims, r),
{
    let token = match get_auth_token(authorization, cookie) {
        Ok(t) => t,
        Err(_) => {
            return Err(ErrorKind::Unauthenticated);
        },
    };
    let secret = match secret {
        Some(s) => s,
        None => {
            return Err(ErrorKind::Unauthenticated);
        },
    };
    match validate_jwt(token.as_str(), secret) {
        Ok(claims) => caller_of(claims),
        Err(_) => Err(ErrorKind::Unauthenticated),
    }
}

/// Who a request to the HTTP surface speaks for. A request without a token
/// or with one that does not verify is unauthenticated; a service that has
/// no secret to verify tokens with cannot answer.
pub fn auth_middleware(authorization: Option<&str>, cookie: Option<&str>, secret: Option<&str>) -> (r:
    Result<Caller, ErrorKind>)
    ensures
        auth_token_of(text_of(authorization), text_of(cookie)) is Err ==> r == Err::<
            Caller,
            ErrorKind,
        >(ErrorKind::Unauthenticated),
        auth_token_of(text_of(authorization), text_of(cookie)) is Ok && secret is None ==> r
            == Err::<Caller, ErrorKind>(ErrorKind::Internal),
        r matches Err(e) ==> e == ErrorKind::Unauthenticated || (e == ErrorKind::Internal
            && secret is None),
        r is Ok ==> exists|claims: Claims| #[trigger] caller_fits(claims, r),
{
    let token = match get_auth_token(authorization, cookie) {
        Ok(t) => t,
        Err(_) => {
            return Err(ErrorKind::Unauthenticated);
        },
    };
    let secret = match secret {
        Some(s) => s,
        None => {
            return Err(ErrorKind::Internal);
        },
    };
    match validate_jwt(token.as_str(), secret) {
        Ok(claims) => caller_of(claims),
        Err(_) => Err(ErrorKind::Unauthenticated),
    }
}

/// The principals of a service: its own, and nothing else.
pub fn service_principals(name: &str) -> (r: Vec<String>)
    ensures
        r@.len() == 1,
        r@[0]@ == service_principal(name@),
{
    let mut out: Vec<String> = Vec::new();
    out.push(join2("s/", name));
    out
}

/// The principals with one more for each role that is not among them yet:
/// `r/` and the role's name, in the order of the roles.
pub open spec fn with_roles(prpls: Seq<Seq<char>>, roles: Seq<Seq<char>>) -> Seq<Seq<char>>
    decreases roles.len(),
{
    if roles.len() == 0 {
        prpls
    } else {
        let role = "r/"@ + roles[0];
        with_roles(
            if prpls.contains(role) {
                prpls
            } else {
                prpls.push(role)
            },
            roles.drop_first(),
        )
    }
}

/// A list holds a text where the text is among the texts of the list.
pub proof fn lemma_holds_is_among(items: Seq<String>, wanted: Seq<char>)
    ensures
        holds(items, wanted) == texts(items).contains(wanted),
{
    if holds(items, wanted) {
        let i = choose|i: int| 0 <= i < items.len() && #[trigger] items[i]@ == wanted;
        assert(texts(items)[i] == wanted);
    }
    if texts(items).contains(wanted) {
        let i = choose|i: int| 0 <= i < texts(items).len() && texts(items)[i] == wanted;
        assert(items[i]@ == wanted);
    }
}

/// The principals that a request acts under, as they are handed on to the
/// handlers: for a service its own principal; for a user the principals
/// that the identity service names and a role principal for each role of
/// the token that is not among them yet. Where the user's context could not
/// be had, the text of the failure.
pub fn request_principals(caller: &Caller, user: Result<&UserCtx, &str>) -> (r: Result<
    Vec<String>,
    String,
>)
    ensures
        match *caller {
            Caller::Service { name } => r matches Ok(p) && texts(p@) == seq![
                service_principal(name@),
            ],
            Caller::User { uid, roles } => match user {
                Ok(ctx) => r matches Ok(p) && texts(p@) == with_roles(
                    texts(ctx.principals@),
                    texts(roles@),
                ),
                Err(why) => r matches Err(e) && e@ == "Failed to load user context for "@ + uid@
                    + ": "@ + why@,
            },
        },
{
    match caller {
        Caller::Service { name } => {
            let p = service_principals(name.as_str());
            assert(texts(p@) =~= seq![service_principal(name@)]);
            Ok(p)
        },
        Caller::User { uid, roles } => match user {
            Err(why) => Err(
                join3("Failed to load user context for ", uid.as_str(), ": ").concat(why),
            ),
            Ok(ctx) => {
                let mut out = crate::userctx::copy_strings(&ctx.principals);
                let ghost all = texts(roles@);
                let mut i: usize = 0;
                assert(all.skip(0) =~= all);
                while i < roles.len()
                    invariant
                        i <= roles.len(),
                        all == texts(roles@),
                        with_roles(texts(out@), all.skip(i as int)) == with_roles(
                            texts(ctx.principals@),
                            all,
                        ),
                    decreases roles.len() - i,
                {
                    let role = join2("r/", roles[i].as_str());
                    proof {
                        let rest = all.skip(i as int);
                        assert(rest[0] == roles@[i as int]@);
                        assert(rest.drop_first() =~= all.skip(i + 1));
                        lemma_holds_is_among(out@, role@);
                    }
                    if !contains_str(&out, role.as_str()) {
                        proof {
                            crate::json::lemma_texts_push(out@, role);
                        }
                        out.push(role);
                    }
                    i += 1;
                }
                Ok(out)
            },
        },
    }
}

/// The principals of a user, where the user's context could be had; the
/// text of the failure where it could not.
pub fn get_user_prpls(uid: &str, user: Result<&UserCtx, &str>) -> (r: Result<
    (String, Vec<String>),
    String,
>)
    ensures
        match r {
            Ok((id, prpls)) => user is Ok && id@ == uid@ && texts(prpls@) == all_principals(
                *user->Ok_0,
            ),
            Err(e) => user is Err && e@ == "Failed to load user context for "@ + uid@ + ": "@
                + user->Err_0@,
        },
{
    match user {
        Ok(ctx) => Ok((String::from_str(uid), ctx.get_all_prpls())),
        Err(why) => Err(join3("Failed to load user context for ", uid, ": ").concat(why)),
    }
}

/// Some text of `prpls` is exactly `wanted`.
pub open spec fn among(prpls: Seq<Seq<char>>, wanted: Seq<char>) -> bool {
    exists|i: int| 0 <= i < prpls.len() && #[trigger] prpls[i] == wanted
}

/// Some text of `prpls` begins with `prefix`.
pub open spec fn among_prefixed(prpls: Seq<Seq<char>>, prefix: Seq<char>) -> bool {
    exists|i: int| 0 <= i < prpls.len() && has_prefix(#[trigger] prpls[i], prefix)
}

/// A user is admitted to organisation `org`: one of the user's principals
/// is a user principal of that organisation, or the cloud admin.
pub open spec fn admitted(user: UserCtx, org: Seq<char>) -> bool {
    among(all_principals(user), cloud_admin()) || among_prefixed(
        all_principals(user),
        org_user_prefix(org),
    )
}

/// Whether the handshake of a user's connection to organisation `org`
/// succeeds.
pub fn admit_user(user: &UserCtx, org: &str) -> (r: bool)
    ensures
        r == admitted(*user, org@),
{
    let all = user.get_all_prpls();
    let prefix = join2(org, "/u/");
    let mut i: usize = 0;
    while i < all.len()
        invariant
            i <= all.len(),
            texts(all@) == all_principals(*user),
            prefix@ == org_user_prefix(org@),
            forall|j: int|
                0 <= j < i ==> (#[trigger] texts(all@)[j]) != cloud_admin() && !has_prefix(
                    texts(all@)[j],
                    prefix@,
                ),
        decreases all.len() - i,
    {
        assert(texts(all@)[i as int] == all@[i as int]@);
        if str_eq(all[i].as_str(), crate::auth::cloud_admin_prpl()) {
            return true;
        }
        if starts_with(all[i].as_str(), prefix.as_str()) {
            return true;
        }
        i += 1;
    }
    false
}

/// A user's context as a value, where there is one.
pub open spec fn user_of(user: Option<&UserCtx>) -> Option<UserCtx> {
    match user {
        Some(u) => Some(*u),
        None => None,
    }
}

/// The name under which the connection of a caller is recorded: the user's
/// identifier, or the service's name.
pub open spec fn caller_name(caller: Caller) -> Seq<char> {
    match caller {
        Caller::User { uid, roles } => uid@,
        Caller::Service { name } => name@,
    }
}

/// Whether the handshake of a caller's connection to organisation `org`
/// succeeds: a service is admitted; a user is admitted where the user's
/// principals could be had and admit the user to the organisation.
pub open spec fn handshake_admits(caller: Caller, user: Option<UserCtx>, org: Seq<char>) -> bool {
    match caller {
        Caller::Service { name } => true,
        Caller::User { uid, roles } => user is Some && admitted(user->0, org),
    }
}

/// The end of the handshake of connection `conn_id` to organisation `org`,
/// once the token has named the caller and, for a user, the principals were
/// asked for. A caller that is admitted is recorded in the registry and
/// handed back as the connection's context; one that is not leaves the
/// registry as it was.
pub fn on_auth_handshake(
    conns: &mut ConnRegistry,
    conn_id: u64,
    org: &str,
    caller: &Caller,
    user: Option<&UserCtx>,
) -> (r: Option<ConnCtx>)
    ensures
        r is Some == handshake_admits(*caller, user_of(user), org@),
        r matches Some(c) ==> c.conn_id == conn_id && c.uid@ == caller_name(*caller) && c.org_id@
            == org@,
        r is Some && conn_id != SYSTEM_CONN ==> final(conns).recorded() == old(conns).recorded().insert(
            conn_id,
            (conn_id, caller_name(*caller), org@),
        ),
        r is Some && conn_id == SYSTEM_CONN ==> final(conns).cache == old(conns).cache,
        r is None ==> final(conns).cache == old(conns).cache,
        final(conns).limits() == old(conns).limits(),
{
    let uid = match caller {
        Caller::Service { name } => name,
        Caller::User { uid, roles } => {
            match user {
                Some(u) => {
                    if !admit_user(u, org) {
                        return None;
                    }
                },
                None => {
                    return None;
                },
            }
            uid
        },
    };
    conns.insert(conn_id, uid.as_str(), org);
    Some(ConnCtx { conn_id, uid: uid.clone(), org_id: String::from_str(org) })
}

/// The permission of a connection in a room.
#[derive(Debug, Clone, Copy, PartialEq, Eq, Structural)]
pub enum Permission {
    Read,
    Write,
}

/// What is asked of the store when a connection joins a room: whether one
/// of the principals may view the document.
#[derive(Debug)]
pub struct RoomQuery {
    pub org: String,
    pub doc_id: u128,
    pub principals: Vec<String>,
}

/// The question to the store for a connection that joins the room `room`,
/// or why the join fails before the store is asked.
pub fn authorize_room(conn: Option<&ConnCtx>, user: Option<&UserCtx>, room: &str) -> (r: Result<
    RoomQuery,
    String,
>)
    ensures
        match r {
            Ok(q) => conn is Some && user is Some && uuid_of_text(room@) == Some(q.doc_id)
                && q.org@ == conn->0.org_id@ && q.principals@ == user->0.principals@,
            Err(e) => if conn is None {
                e@ == "No connection context found"@
            } else if user is None {
                e@ == "No user context found"@
            } else {
                uuid_of_text(room@) is None && e@ == "Invalid document UUID"@
            },
        },
{
    let conn = match conn {
        Some(c) => c,
        None => {
            return Err(String::from_str("No connection context found"));
        },
    };
    let user = match user {
        Some(u) => u,
        None => {
            return Err(String::from_str("No user context found"));
        },
    };
    let doc_id = match parse_uuid(room) {
        Some(id) => id,
        None => {
            return Err(String::from_str("Invalid document UUID"));
        },
    };
    Ok(
        RoomQuery {
            org: conn.org_id.clone(),
            doc_id,
            principals: crate::userctx::copy_strings(&user.principals),
        },
    )
}

/// The permission of a connection in a room, given what the store said: to
/// write where the document can be viewed, none where it cannot.
pub fn room_permission(viewable: bool) -> (r: Option<Permission>)
    ensures
        r == if viewable {
            Some(Permission::Write)
        } else {
            None::<Permission>
        },
{
    if viewable {
        Some(Permission::Write)
    } else {
        None
    }
}

/// What the store gave when it was asked for a document: the document,
/// nothing where it has none, or the text of its failure.
pub type Found<'a> = Result<Option<&'a ColabDocument>, &'a str>;

/// The permission of a connection in the room `room`, given what the store
/// has of the room's document: to write where one of the user's principals
/// may view it, none where none may or the store has no such document.
/// Without the connection's context, the user's context or an identifier
/// in `room`, and where the store failed, there is no answer.
pub open spec fn permission_of(
    conn: Option<&ConnCtx>,
    user: Option<&UserCtx>,
    room: Seq<char>,
    found: Found,
) -> Result<Option<Permission>, Seq<char>> {
    if conn is None {
        Err("No connection context found"@)
    } else if user is None {
        Err("No user context found"@)
    } else if uuid_of_text(room) is None {
        Err("Invalid document UUID"@)
    } else {
        match found {
            Err(why) => Err("Database error: "@ + why@),
            Ok(None) => Ok(None),
            Ok(Some(doc)) => Ok(
                if doc.id == uuid_of_text(room)->0 && viewable(
                    *doc,
                    conn->0.org_id@,
                    user->0.principals@,
                ) {
                    Some(Permission::Write)
                } else {
                    None
                },
            ),
        }
    }
}

/// The permission of a connection that joins the room `room`.
pub fn on_authenticate(
    conn: Option<&ConnCtx>,
    user: Option<&UserCtx>,
    room: &str,
    found: Found,
) -> (r: Result<Option<Permission>, String>)
    ensures
        match r {
            Ok(p) => permission_of(conn, user, room@, found) == Ok::<
                Option<Permission>,
                Seq<char>,
            >(p),
            Err(e) => permission_of(conn, user, room@, found) == Err::<
                Option<Permission>,
                Seq<char>,
            >(e@),
        },
{
    let query = match authorize_room(conn, user, room) {
        Ok(q) => q,
        Err(e) => {
            return Err(e);
        },
    };
    match found {
        Err(why) => Err(join2("Database error: ", why)),
        Ok(None) => Ok(None),
        Ok(Some(doc)) => {
            let may = doc.id == query.doc_id && is_viewable(
                doc,
                query.org.as_str(),
                &query.principals,
            );
            Ok(room_permission(may))
        },
    }
}

/// The principal that a new peer of the connection `conn_id` is bound to:
/// the system's for the system connection, else the user's principal in
/// organisation `org`, where the user has one.
pub open spec fn binding_of(conn_id: u64, user: Option<UserCtx>, org: Seq<char>) -> Option<
    Seq<char>,
> {
    if conn_id == SYSTEM_CONN {
        Some(system_principal())
    } else {
        match user {
            Some(u) => {
                let i = crate::text::first_prefixed(u.principals@, org_user_prefix(org));
                if i < u.principals@.len() {
                    Some(u.principals@[i]@)
                } else {
                    None
                }
            },
            None => None,
        }
    }
}

/// The identity under which a batch of the connection `conn_id` is judged:
/// the principals of the sender, where they are known, and the principal
/// that a new peer is bound to, where the sender has one in organisation
/// `org`.
pub fn sender_identity(conn_id: u64, user: Option<&UserCtx>, org: &str) -> (r: (
    Option<Vec<String>>,
    Option<String>,
))
    ensures
        opt_text(r.1) == binding_of(
            conn_id,
            match user {
                Some(u) => Some(*u),
                None => None,
            },
            org@,
        ),
        conn_id == SYSTEM_CONN ==> r.0 is Some && r.0->0@.len() == 1 && r.0->0@[0]@
            == system_principal(),
        conn_id != SYSTEM_CONN ==> match user {
            Some(u) => r.0 is Some && texts(r.0->0@) == all_principals(*u),
            None => r.0 is None,
        },
{
    if conn_id == SYSTEM_CONN {
        let mut prpls: Vec<String> = Vec::new();
        prpls.push(String::from_str(system_prpl()));
        return (Some(prpls), Some(String::from_str(system_prpl())));
    }
    match user {
        Some(u) => {
            proof {
                crate::text::lemma_first_prefixed(u.principals@, org_user_prefix(org@));
            }
            (Some(u.get_all_prpls()), u.get_user_principal(org))
        },
        None => (None, None),
    }
}

/// A connection of a user without a principal in the organisation binds no
/// peer: whatever batch it sends, the peer bindings stay as they are.
pub proof fn law_no_binding_without_membership(
    conn_id: u64,
    user: UserCtx,
    org: Seq<char>,
    peers: Map<u64, Seq<char>>,
    before: Seq<(u64, i32)>,
    after: Seq<(u64, i32)>,
    prpls: Option<Seq<String>>,
)
    requires
        conn_id != SYSTEM_CONN,
        !holds_prefixed(user.principals@, org_user_prefix(org)),
    ensures
        binding_of(conn_id, Some(user), org) is None,
        peers_after(
            peers,
            admission_of(peers, before, after, prpls, binding_of(conn_id, Some(user), org)),
            binding_of(conn_id, Some(user), org),
        ) == peers,
{
    crate::text::lemma_first_prefixed(user.principals@, org_user_prefix(org));
}

/// Whatever a new peer is bound to is the system's principal or a user
/// principal of the organisation that the user holds.
pub proof fn law_bindings_are_members(conn_id: u64, user: Option<UserCtx>, org: Seq<char>)
    requires
        binding_of(conn_id, user, org) is Some,
    ensures
        conn_id == SYSTEM_CONN ==> binding_of(conn_id, user, org) == Some(system_principal()),
        conn_id != SYSTEM_CONN ==> user is Some && has_prefix(
            binding_of(conn_id, user, org)->0,
            org_user_prefix(org),
        ) && holds(user->0.principals@, binding_of(conn_id, user, org)->0),
{
    if conn_id != SYSTEM_CONN {
        crate::text::lemma_first_prefixed(user->0.principals@, org_user_prefix(org));
    }
}

/// What a sender is told of its batch.
#[derive(Debug, Clone, Copy, PartialEq, Eq, Structural)]
pub enum UpdateStatus {
    /// The batch was taken.
    Taken,
    /// The sender may not write under the peer of the batch, or is not
    /// known.
    PermissionDenied,
    /// The batch could not be read.
    InvalidUpdate,
    /// The room is not there, or the service failed.
    AppError,
}

/// What a sender is told of a batch with the outcome `outcome`: a batch
/// that changes nothing counts as taken.
pub open spec fn status_of(outcome: crate::room::admission::Admission) -> UpdateStatus {
    match outcome {
        crate::room::admission::Admission::NoChange => UpdateStatus::Taken,
        crate::room::admission::Admission::Accepted { peer } => UpdateStatus::Taken,
        crate::room::admission::Admission::Denied { kind } => match kind {
            ErrorKind::PermissionDenied => UpdateStatus::PermissionDenied,
            ErrorKind::Unauthenticated => UpdateStatus::PermissionDenied,
            ErrorKind::InvalidArgument => UpdateStatus::InvalidUpdate,
            _ => UpdateStatus::AppError,
        },
    }
}

/// What a sender is told of its batch.
pub fn update_status(outcome: crate::room::admission::Admission) -> (r: UpdateStatus)
    ensures
        r == status_of(outcome),
{
    match outcome {
        crate::room::admission::Admission::NoChange => UpdateStatus::Taken,
        crate::room::admission::Admission::Accepted { peer } => UpdateStatus::Taken,
        crate::room::admission::Admission::Denied { kind } => match kind {
            ErrorKind::PermissionDenied => UpdateStatus::PermissionDenied,
            ErrorKind::Unauthenticated => UpdateStatus::PermissionDenied,
            ErrorKind::InvalidArgument => UpdateStatus::InvalidUpdate,
            _ => UpdateStatus::AppError,
        },
    }
}

/// Why a room was closed under its subscribers.
#[derive(Debug, Clone, Copy, PartialEq, Eq, Structural)]
pub enum CloseReason {
    Deleted,
    Moved,
}

impl CloseReason {
    /// The reason as the closing message names it.
    pub fn as_str(&self) -> (r: &'static str)
        ensures
            r@ == (match *self {
                CloseReason::Deleted => "deleted"@,
                CloseReason::Moved => "moved"@,
            }),
    {
        match self {
            CloseReason::Deleted => "deleted",
            CloseReason::Moved => "moved",
        }
    }
}

/// Whether a subscriber keeps up: its queue of undelivered batches is
/// below the limit. One that does not is disconnected, so that the room
/// does not wait for it.
pub fn keeps_up(queued: usize, limit: usize) -> (r: bool)
    ensures
        r == (queued < limit),
{
    queued < limit
}

} // verus!
