//! Rules over principal lists: who counts as a service, an organisation
//! member, an organisation admin or a cloud admin.

use crate::error::{ErrorKind, ErrorResponse};
use crate::ids::{parse_uuid, uuid_of_text};
use crate::text::{
    contains_str, find_prefixed, first_prefixed, holds, holds_prefixed, join2, join3,
    lemma_first_prefixed, strip_prefix,
};
use vstd::prelude::*;
use vstd::string::*;

verus! {

/// The principal of a cloud admin.
pub open spec fn cloud_admin() -> Seq<char> {
    "r/Colabri-CloudAdmin"@
}

/// The principal of the service called `name`.
pub open spec fn service_principal(name: Seq<char>) -> Seq<char> {
    "s/"@ + name
}

/// The principal of the admins of organisation `org`.
pub open spec fn org_admin_principal(org: Seq<char>) -> Seq<char> {
    org + "/f/admin"@
}

/// What every user principal of organisation `org` begins with.
pub open spec fn org_user_prefix(org: Seq<char>) -> Seq<char> {
    org + "/u/"@
}

/// The principal list admits organisation `org`: it holds a user principal of
/// that organisation, or the cloud admin.
pub open spec fn admits_org(prpls: Seq<String>, org: Seq<char>) -> bool {
    holds(prpls, cloud_admin()) || holds_prefixed(prpls, org_user_prefix(org))
}

/// The principal of a cloud admin.
pub fn cloud_admin_prpl() -> (r: &'static str)
    ensures
        r@ == cloud_admin(),
{
    "r/Colabri-CloudAdmin"
}

/// Whether the list holds any principal at all.
pub fn _is_authenticated(prpls: &Vec<String>) -> (r: bool)
    ensures
        r == (prpls@.len() > 0),
{
    prpls.len() > 0
}

/// Whether the list holds the cloud admin principal.
pub fn is_cloud_admin(prpls: &Vec<String>) -> (r: bool)
    ensures
        r == holds(prpls@, cloud_admin()),
{
    contains_str(prpls, cloud_admin_prpl())
}

/// Whether the list holds the principal of the service `service_name`.
pub fn _is_service(prpls: &Vec<String>, service_name: &str) -> (r: bool)
    ensures
        r == holds(prpls@, service_principal(service_name@)),
{
    let service_prpl = join2("s/", service_name);
    contains_str(prpls, service_prpl.as_str())
}

/// Whether the list holds the cloud admin or the admin principal of `org_id`.
pub fn _is_org_admin(prpls: &Vec<String>, org_id: &str) -> (r: bool)
    ensures
        r == (holds(prpls@, cloud_admin()) || holds(prpls@, org_admin_principal(org_id@))),
{
    if is_cloud_admin(prpls) {
        return true;
    }
    let org_admin = join2(org_id, "/f/admin");
    contains_str(prpls, org_admin.as_str())
}

/// Whether the list admits organisation `org_id`.
pub fn _is_org_member(prpls: &Vec<String>, org_id: &str) -> (r: bool)
    ensures
        r == admits_org(prpls@, org_id@),
{
    if is_cloud_admin(prpls) {
        return true;
    }
    let org_prefix = join2(org_id, "/u/");
    proof {
        lemma_first_prefixed(prpls@, org_prefix@);
    }
    find_prefixed(prpls, org_prefix.as_str()).is_some()
}

/// The text of the refusal that `ensure_service` gives.
pub open spec fn service_denied(name: Seq<char>) -> Seq<char> {
    "Service '"@ + name + "' access denied"@
}

/// The principal under which a caller acts for the service `service_name`:
/// the service's own principal where the list holds it, else the cloud admin
/// where the list holds that, else a refusal.
pub fn ensure_service(prpls: &Vec<String>, service_name: &str) -> (r: Result<String, ErrorResponse>)
    ensures
        match r {
            Ok(p) => if holds(prpls@, service_principal(service_name@)) {
                p@ == service_principal(service_name@)
            } else {
                holds(prpls@, cloud_admin()) && p@ == cloud_admin()
            },
            Err(e) => !holds(prpls@, service_principal(service_name@)) && !holds(
                prpls@,
                cloud_admin(),
            ) && e.says(ErrorKind::PermissionDenied, service_denied(service_name@)),
        },
{
    let service_prpl = join2("s/", service_name);
    if contains_str(prpls, service_prpl.as_str()) {
        return Ok(service_prpl);
    }
    if is_cloud_admin(prpls) {
        return Ok(String::from_str(cloud_admin_prpl()));
    }
    Err(
        ErrorResponse::new(
            ErrorKind::PermissionDenied,
            join3("Service '", service_name, "' access denied"),
        ),
    )
}

/// The principal under which a cloud admin acts, or a refusal where the list
/// does not hold the cloud admin.
pub fn ensure_cloud_admin(prpls: &Vec<String>) -> (r: Result<String, ErrorResponse>)
    ensures
        match r {
            Ok(p) => holds(prpls@, cloud_admin()) && p@ == cloud_admin(),
            Err(e) => !holds(prpls@, cloud_admin()) && e.says(
                ErrorKind::PermissionDenied,
                "Cloud Admin access required"@,
            ),
        },
{
    if is_cloud_admin(prpls) {
        return Ok(String::from_str(cloud_admin_prpl()));
    }
    Err(
        ErrorResponse::new(
            ErrorKind::PermissionDenied,
            String::from_str("Cloud Admin access required"),
        ),
    )
}

/// The user identifier that the first principal of organisation `org` in the
/// list spells after the organisation's prefix, if the list has such a
/// principal and what follows the prefix is a UUID.
pub open spec fn org_user_id(prpls: Seq<String>, org: Seq<char>) -> Option<u128> {
    let prefix = org_user_prefix(org);
    let i = first_prefixed(prpls, prefix);
    if i < prpls.len() {
        uuid_of_text(prpls[i]@.subrange(prefix.len() as int, prpls[i]@.len() as int))
    } else {
        None
    }
}

/// The first user principal of `org_id` in the list, with the user
/// identifier it spells, where it spells one.
pub fn org_user(prpls: &Vec<String>, org_id: &str) -> (r: Option<(u128, String)>)
    ensures
        match r {
            Some((id, p)) => org_user_id(prpls@, org_id@) == Some(id) && p@ == prpls@[first_prefixed(
                prpls@,
                org_user_prefix(org_id@),
            )]@,
            None => org_user_id(prpls@, org_id@) is None,
        },
{
    let org_prefix = join2(org_id, "/u/");
    proof {
        lemma_first_prefixed(prpls@, org_prefix@);
    }
    match find_prefixed(prpls, org_prefix.as_str()) {
        Some(i) => {
            let rest = strip_prefix(prpls[i].as_str(), org_prefix.as_str());
            match parse_uuid(rest) {
                Some(id) => Some((id, prpls[i].clone())),
                None => None,
            }
        },
        None => None,
    }
}

/// As a member of organisation `org_id`: the user's identifier and principal
/// where the first principal of that organisation spells a UUID, else the
/// cloud admin without an identifier where the list holds it, else a refusal.
pub fn _ensure_org_member(prpls: &Vec<String>, org_id: &str) -> (r: Result<
    (Option<u128>, String),
    ErrorResponse,
>)
    ensures
        match r {
            Ok((id, p)) => match org_user_id(prpls@, org_id@) {
                Some(u) => id == Some(u) && p@ == prpls@[first_prefixed(
                    prpls@,
                    org_user_prefix(org_id@),
                )]@,
                None => id is None && holds(prpls@, cloud_admin()) && p@ == cloud_admin(),
            },
            Err(e) => org_user_id(prpls@, org_id@) is None && !holds(prpls@, cloud_admin())
                && e.says(
                ErrorKind::PermissionDenied,
                "User is not a member of the organization"@,
            ),
        },
{
    match org_user(prpls, org_id) {
        Some((id, p)) => {
            return Ok((Some(id), p));
        },
        None => {},
    }
    if is_cloud_admin(prpls) {
        return Ok((None, String::from_str(cloud_admin_prpl())));
    }
    Err(
        ErrorResponse::new(
            ErrorKind::PermissionDenied,
            String::from_str("User is not a member of the organization"),
        ),
    )
}

/// As the service `service_name` where the list holds its principal, else as
/// a member of `org_id` as `_ensure_org_member` has it, else a refusal.
pub fn _ensure_service_or_org_member(prpls: &Vec<String>, service_name: &str, org_id: &str) -> (r:
    Result<(Option<u128>, String), ErrorResponse>)
    ensures
        match r {
            Ok((id, p)) => if holds(prpls@, service_principal(service_name@)) {
                id is None && p@ == service_principal(service_name@)
            } else {
                match org_user_id(prpls@, org_id@) {
                    Some(u) => id == Some(u) && p@ == prpls@[first_prefixed(
                        prpls@,
                        org_user_prefix(org_id@),
                    )]@,
                    None => id is None && holds(prpls@, cloud_admin()) && p@ == cloud_admin(),
                }
            },
            Err(e) => !holds(prpls@, service_principal(service_name@)) && org_user_id(
                prpls@,
                org_id@,
            ) is None && !holds(prpls@, cloud_admin()) && e.says(
                ErrorKind::PermissionDenied,
                "Access denied"@,
            ),
        },
{
    let service_prpl = join2("s/", service_name);
    if contains_str(prpls, service_prpl.as_str()) {
        return Ok((None, service_prpl));
    }
    match org_user(prpls, org_id) {
        Some((id, p)) => {
            return Ok((Some(id), p));
        },
        None => {},
    }
    if is_cloud_admin(prpls) {
        return Ok((None, String::from_str(cloud_admin_prpl())));
    }
    Err(ErrorResponse::new(ErrorKind::PermissionDenied, String::from_str("Access denied")))
}

} // verus!
