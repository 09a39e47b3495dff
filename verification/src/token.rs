//! Bearer tokens: where a request carries one, and what a token claims.

use crate::json::{
    json_member, json_member_of, json_string, json_string_of, string_items, string_items_of, texts,
};
use crate::text::{has_prefix, opt_text, starts_with, str_eq, strip_prefix, text_of};
use vstd::prelude::*;
use vstd::string::*;

verus! {

/// The cookies of a `Cookie` header, in their order, as `cookie::Cookie`
/// parses them: name and value of each pair that parses, `None` for each
/// that does not.
pub uninterp spec fn cookies_of(header: Seq<char>) -> Seq<Option<(Seq<char>, Seq<char>)>>;

/// One cookie as a value.
pub open spec fn cookie_view(c: Option<(String, String)>) -> Option<(Seq<char>, Seq<char>)> {
    match c {
        Some((name, value)) => Some((name@, value@)),
        None => None,
    }
}

/// Splits a `Cookie` header with `cookie::Cookie::split_parse` and hands out
/// each result: the name (`Cookie::name`) and value (`Cookie::value`) of a
/// pair that parsed, `None` for one that did not.
#[verifier::external_body]
pub(crate) fn cookie_pairs(header: &str) -> (r: Vec<Option<(String, String)>>)
    ensures
        r@.len() == cookies_of(header@).len(),
        forall|i: int| 0 <= i < r@.len() ==> cookie_view(#[trigger] r@[i]) == cookies_of(header@)[i],
{
    cookie::Cookie::split_parse(header.to_string()).map(
        |c|
            match c {
                Ok(c) => Some((c.name().to_string(), c.value().to_string())),
                Err(_) => None,
            },
    ).collect()
}

/// Verifies a token with `jsonwebtoken::decode` under HS256 and the shared
/// secret and hands out its claims as JSON text, or the text of the error.
/// Whether a token verifies depends on the time, so nothing is claimed of
/// the result.
#[verifier::external_body]
pub(crate) fn jwt_claims(token: &str, secret: &str) -> Result<String, String> {
    jsonwebtoken::decode::<serde_json::Value>(
        token,
        &jsonwebtoken::DecodingKey::from_secret(secret.as_bytes()),
        &jsonwebtoken::Validation::new(jsonwebtoken::Algorithm::HS256),
    ).map(|d| d.claims.to_string()).map_err(|e| e.to_string())
}

/// The value of the first cookie called `name`, if there is one.
pub open spec fn cookie_value(cookies: Seq<Option<(Seq<char>, Seq<char>)>>, name: Seq<char>)
    -> Option<Seq<char>>
    decreases cookies.len(),
{
    if cookies.len() == 0 {
        None
    } else {
        match cookies[0] {
            Some((n, v)) => if n == name {
                Some(v)
            } else {
                cookie_value(cookies.drop_first(), name)
            },
            None => cookie_value(cookies.drop_first(), name),
        }
    }
}

/// Where the token of a request is, given its `Authorization` header and its
/// `Cookie` header: in the first where there is one, without the word
/// `Bearer` before it; else in the cookie `auth_token`.
pub open spec fn auth_token_of(authorization: Option<Seq<char>>, cookie: Option<Seq<char>>)
    -> Result<Seq<char>, Seq<char>> {
    match authorization {
        Some(a) => if has_prefix(a, "Bearer "@) {
            Ok(a.subrange("Bearer "@.len() as int, a.len() as int))
        } else {
            Ok(a)
        },
        None => match cookie {
            None => Err("Missing Authorization header or Cookie"@),
            Some(c) => match cookie_value(cookies_of(c), "auth_token"@) {
                Some(v) => Ok(v),
                None => Err("auth_token cookie not found"@),
            },
        },
    }
}

/// The value of the first cookie called `name` among cookies that were
/// parsed.
pub fn find_cookie(cookies: &Vec<Option<(String, String)>>, name: &str) -> (r: Option<String>)
    ensures
        match r {
            Some(v) => cookie_value(cookies@.map_values(|c| cookie_view(c)), name@) == Some(v@),
            None => cookie_value(cookies@.map_values(|c| cookie_view(c)), name@) is None,
        },
{
    let ghost all = cookies@.map_values(|c| cookie_view(c));
    let mut i: usize = 0;
    assert(all.subrange(0, all.len() as int) =~= all);
    while i < cookies.len()
        invariant
            i <= cookies.len(),
            all == cookies@.map_values(|c| cookie_view(c)),
            cookie_value(all, name@) == cookie_value(all.subrange(i as int, all.len() as int), name@),
        decreases cookies.len() - i,
    {
        let ghost rest = all.subrange(i as int, all.len() as int);
        assert(rest[0] == all[i as int]);
        assert(rest.drop_first() =~= all.subrange(i + 1, all.len() as int));
        match &cookies[i] {
            Some((n, v)) => {
                if str_eq(n.as_str(), name) {
                    return Some(v.clone());
                }
            },
            None => {},
        }
        i += 1;
    }
    None
}

/// The token of a request, given its `Authorization` header and its `Cookie`
/// header as far as the request has them.
pub fn get_auth_token(authorization: Option<&str>, cookie: Option<&str>) -> (r: Result<
    String,
    String,
>)
    ensures
        match (r, auth_token_of(text_of(authorization), text_of(cookie))) {
            (Ok(t), Ok(want)) => t@ == want,
            (Err(e), Err(want)) => e@ == want,
            _ => false,
        },
{
    match authorization {
        Some(a) => {
            if starts_with(a, "Bearer ") {
                Ok(String::from_str(strip_prefix(a, "Bearer ")))
            } else {
                Ok(String::from_str(a))
            }
        },
        None => match cookie {
            None => Err(String::from_str("Missing Authorization header or Cookie")),
            Some(c) => {
                let cookies = cookie_pairs(c);
                assert(cookies@.map_values(|c| cookie_view(c)) =~= cookies_of(c@));
                match find_cookie(&cookies, "auth_token") {
                    Some(v) => Ok(v),
                    None => Err(String::from_str("auth_token cookie not found")),
                }
            },
        },
    }
}

/// What a token claims, as far as this service reads it.
#[derive(Debug)]
pub struct Claims {
    /// The subject: a user's identifier or a service's name.
    pub sub: Option<String>,
    /// `user` or `service`.
    pub type_: Option<String>,
    /// The roles of the token.
    pub roles: Vec<String>,
}

/// The string under `key` in the JSON object `claims`.
pub open spec fn claim_of(claims: Seq<char>, key: Seq<char>) -> Option<Seq<char>> {
    match json_member_of(claims, key) {
        Some(m) => json_string_of(m),
        None => None,
    }
}

/// The roles in the JSON object `claims`: the strings of the array under
/// `roles`, and none where there is no such array.
pub open spec fn roles_of(claims: Seq<char>) -> Seq<Seq<char>> {
    match json_member_of(claims, "roles"@) {
        Some(m) => string_items_of(m),
        None => Seq::empty(),
    }
}

/// The string under `key` in the JSON object `claims`.
pub fn read_claim(claims: &str, key: &str) -> (r: Option<String>)
    ensures
        match r {
            Some(s) => claim_of(claims@, key@) == Some(s@),
            None => claim_of(claims@, key@) is None,
        },
{
    match json_member(claims, key) {
        Some(m) => json_string(m.as_str()),
        None => None,
    }
}

/// What the claims of a token say, read from their JSON text.
pub fn read_claims(claims: &str) -> (r: Claims)
    ensures
        opt_text(r.sub) == claim_of(claims@, "sub"@),
        opt_text(r.type_) == claim_of(claims@, "type"@),
        texts(r.roles@) == roles_of(claims@),
{
    let sub = read_claim(claims, "sub");
    let type_ = read_claim(claims, "type");
    let roles = match json_member(claims, "roles") {
        Some(m) => string_items(m.as_str()),
        None => {
            let empty: Vec<String> = Vec::new();
            assert(texts(empty@) =~= Seq::empty());
            empty
        },
    };
    Claims { sub, type_, roles }
}

/// Verifies a token under the shared secret and reads its claims. An error
/// is the text of why the token does not verify.
pub fn validate_jwt(token: &str, secret: &str) -> (r: Result<Claims, String>)
    ensures
        r matches Ok(c) ==> exists|claims: Seq<char>|
            #![trigger roles_of(claims)]
            texts(c.roles@) == roles_of(claims) && opt_text(c.sub) == claim_of(claims, "sub"@)
                && opt_text(c.type_) == claim_of(claims, "type"@),
{
    match jwt_claims(token, secret) {
        Ok(claims) => {
            let c = read_claims(claims.as_str());
            assert(texts(c.roles@) == roles_of(claims@));
            Ok(c)
        },
        Err(e) => Err(e),
    }
}

} // verus!
