//! The endpoints that read or change a document out of band: what each
//! checks before it acts, and what it answers.

use crate::auth::{cloud_admin, ensure_cloud_admin, ensure_service, service_principal};
use crate::crdt::{
    checkout, deep_json, export_state, export_state_at, fork_doc, frontiers_of, import_bytes,
    new_doc, state_versions,
};
use crate::encoding::{base64_of, to_base64};
use crate::error::{ErrorKind, ErrorResponse};
use crate::ids::{parse_uuid, uuid_of_text};
use crate::models::api::{
    DocumentDeleteRequest, DocumentExportResponse, DocumentLatestResponse, DocumentMoveLibRequest,
    DocumentVersionRequest, DocumentVersionResponse, HubCounts,
};
use crate::load::Fetched;
use crate::room::docctx::DocContext;
use crate::room::room::Room;
use crate::text::{
    holds, join2, join3, lower_str, lowercased, opt_text, str_eq, trim_str, trimmed,
};
use std::collections::HashMap;
use vstd::prelude::*;
use vstd::string::*;

verus! {

/// The service that may call the endpoints.
pub open spec fn app_service() -> Seq<char> {
    "colabri-app"@
}

/// The shape of an answer's body.
#[derive(Copy, Clone, Debug, PartialEq, Eq, Structural)]
pub enum OutputFormat {
    Json,
    Binary,
    Both,
}

/// The format that a word names, or the refusal of a word that names none.
pub open spec fn format_of_word(word: Seq<char>) -> Result<OutputFormat, Seq<char>> {
    if word == "json"@ {
        Ok(OutputFormat::Json)
    } else if word == "binary"@ {
        Ok(OutputFormat::Binary)
    } else if word == "both"@ {
        Ok(OutputFormat::Both)
    } else {
        Err("Invalid output format '"@ + word + "'. Use 'json', 'binary', or 'both'."@)
    }
}

/// The format that a query asks for: JSON where it names none or only
/// white space, else what its word names, white space at the ends and the
/// case of letters set aside.
pub open spec fn format_of_query(format: Option<Seq<char>>) -> Result<OutputFormat, Seq<char>> {
    match format {
        None => Ok(OutputFormat::Json),
        Some(f) => if trimmed(f).len() == 0 {
            Ok(OutputFormat::Json)
        } else {
            format_of_word(lowercased(trimmed(f)))
        },
    }
}

/// Whether the refusal or the format that was computed is the one that was
/// asked for.
pub open spec fn same_format(got: Result<OutputFormat, String>, want: Result<OutputFormat, Seq<char>>)
    -> bool {
    match (got, want) {
        (Ok(a), Ok(b)) => a == b,
        (Err(a), Err(b)) => a@ == b,
        _ => false,
    }
}

impl OutputFormat {
    /// The format that a word in lower case names.
    pub fn from_word(word: &str) -> (r: Result<OutputFormat, String>)
        ensures
            same_format(r, format_of_word(word@)),
    {
        if str_eq(word, "json") {
            Ok(OutputFormat::Json)
        } else if str_eq(word, "binary") {
            Ok(OutputFormat::Binary)
        } else if str_eq(word, "both") {
            Ok(OutputFormat::Both)
        } else {
            Err(join3("Invalid output format '", word, "'. Use 'json', 'binary', or 'both'."))
        }
    }

    /// The format that a query asks for.
    pub fn from_query(format: Option<String>) -> (r: Result<OutputFormat, String>)
        ensures
            same_format(
                r,
                format_of_query(
                    match format {
                        Some(f) => Some(f@),
                        None => None,
                    },
                ),
            ),
    {
        match format {
            None => Ok(OutputFormat::Json),
            Some(f) => {
                let word = trim_str(f.as_str());
                if word.unicode_len() == 0 {
                    Ok(OutputFormat::Json)
                } else {
                    let lower = lower_str(word);
                    OutputFormat::from_word(lower.as_str())
                }
            },
        }
    }

    /// Whether the format asks for the state as JSON.
    pub open spec fn wants_json(self) -> bool {
        self == OutputFormat::Json || self == OutputFormat::Both
    }

    /// Whether the format asks for the state in binary form.
    pub open spec fn wants_binary(self) -> bool {
        self == OutputFormat::Binary || self == OutputFormat::Both
    }

    /// Whether the body holds the state as JSON.
    pub fn include_json(self) -> (r: bool)
        ensures
            r == self.wants_json(),
    {
        match self {
            OutputFormat::Json => true,
            OutputFormat::Binary => false,
            OutputFormat::Both => true,
        }
    }

    /// Whether the body holds the state as binary.
    pub fn include_binary(self) -> (r: bool)
        ensures
            r == self.wants_binary(),
    {
        match self {
            OutputFormat::Json => false,
            OutputFormat::Binary => true,
            OutputFormat::Both => true,
        }
    }
}

/// The text of the refusal of a document identifier.
pub open spec fn bad_doc_id(doc_id: Seq<char>) -> Seq<char> {
    "Invalid document UUID '"@ + doc_id + "'"@
}

/// The identifier that the text of a path names, or the refusal of a text
/// that names none.
pub fn parse_doc_id(doc_id: &str) -> (r: Result<u128, ErrorResponse>)
    ensures
        match r {
            Ok(id) => uuid_of_text(doc_id@) == Some(id),
            Err(e) => uuid_of_text(doc_id@) is None && e.says(
                ErrorKind::InvalidArgument,
                bad_doc_id(doc_id@),
            ),
        },
{
    match parse_uuid(doc_id) {
        Some(id) => Ok(id),
        None => Err(
            ErrorResponse::new(
                ErrorKind::InvalidArgument,
                join3("Invalid document UUID '", doc_id, "'"),
            ),
        ),
    }
}

/// What every document endpoint checks first, in this order: the format of
/// the answer, the caller, the document's identifier.
pub open spec fn request_refused(
    prpls: Seq<String>,
    doc_id: Seq<char>,
    format: Option<Seq<char>>,
) -> Option<Refusal> {
    if format_of_query(format) is Err {
        Some(
            Refusal {
                kind: ErrorKind::InvalidArgument,
                message: format_of_query(format)->Err_0,
            },
        )
    } else if !holds(prpls, service_principal(app_service())) && !holds(prpls, cloud_admin()) {
        Some(
            Refusal {
                kind: ErrorKind::PermissionDenied,
                message: crate::auth::service_denied(app_service()),
            },
        )
    } else if uuid_of_text(doc_id) is None {
        Some(Refusal { kind: ErrorKind::InvalidArgument, message: bad_doc_id(doc_id) })
    } else {
        None
    }
}

/// Why a request is refused.
pub struct Refusal {
    pub kind: ErrorKind,
    pub message: Seq<char>,
}

/// A request for a document that passed the checks.
#[derive(Debug)]
pub struct DocRequest {
    pub doc_id: u128,
    pub format: OutputFormat,
}

/// Checks a request for a document: the format of the answer, then that the
/// caller is the application service or a cloud admin, then the document's
/// identifier.
pub fn check_doc_request(prpls: &Vec<String>, doc_id: &str, format: Option<String>) -> (r: Result<
    DocRequest,
    ErrorResponse,
>)
    ensures
        match r {
            Ok(req) => {
                &&& request_refused(prpls@, doc_id@, opt_text(format)) is None
                &&& uuid_of_text(doc_id@) == Some(req.doc_id)
                &&& format_of_query(opt_text(format)) == Ok::<OutputFormat, Seq<char>>(req.format)
            },
            Err(e) => request_refused(prpls@, doc_id@, opt_text(format)) is Some && e.says(
                request_refused(prpls@, doc_id@, opt_text(format))->0.kind,
                request_refused(prpls@, doc_id@, opt_text(format))->0.message,
            ),
        },
{
    let ghost asked = opt_text(format);
    let format = match OutputFormat::from_query(format) {
        Ok(f) => f,
        Err(message) => {
            return Err(ErrorResponse::new(ErrorKind::InvalidArgument, message));
        },
    };
    match ensure_service(prpls, "colabri-app") {
        Ok(_) => {},
        Err(e) => {
            return Err(e);
        },
    }
    match parse_doc_id(doc_id) {
        Ok(id) => Ok(DocRequest { doc_id: id, format }),
        Err(e) => Err(e),
    }
}

/// What is answered of a document's state.
#[derive(Debug)]
pub struct DocPayload {
    /// The state as JSON text, where the format asks for it.
    pub json: Option<String>,
    /// The state as base64 of its binary form, where the format asks for it.
    pub binary: Option<String>,
    pub version_v: Vec<(u64, i32)>,
    pub peer_map: HashMap<u64, String>,
}

/// The error body for a failure inside the service.
pub fn internal(message: String) -> (r: ErrorResponse)
    ensures
        r.says(ErrorKind::Internal, message@),
{
    ErrorResponse::new(ErrorKind::Internal, message)
}

/// The bytes of a document's state as they were exported, or the text of
/// why they were not.
pub type Exported = Result<Vec<u8>, String>;

/// Whether exported state can stand in an answer: it was exported, and its
/// text fits the machine's word.
pub open spec fn presentable(state: Option<Exported>) -> bool {
    match state {
        Some(Ok(bytes)) => bytes@.len() <= usize::MAX / 2,
        Some(Err(_)) => false,
        None => true,
    }
}

/// Whether `p` answers with exactly these parts: the JSON text and the
/// version vector as they are, the exported state in base64, and the peer
/// bindings.
pub open spec fn answers_with(
    p: DocPayload,
    json: Option<String>,
    version_v: Seq<(u64, i32)>,
    state: Option<Exported>,
    peers: Map<u64, String>,
) -> bool {
    &&& p.json == json
    &&& p.version_v@ == version_v
    &&& p.peer_map@ == peers
    &&& match state {
        Some(Ok(bytes)) => p.binary is Some && p.binary->0@ == base64_of(bytes@),
        _ => p.binary is None,
    }
}

/// The answer made of what was read out of a document. State that could not
/// be exported, or is too long to be written as text, fails the answer with
/// the message `failure`.
pub fn payload_of(
    json: Option<String>,
    version_v: Vec<(u64, i32)>,
    state: Option<Exported>,
    peer_map: &HashMap<u64, String>,
    failure: String,
) -> (r: Result<DocPayload, ErrorResponse>)
    ensures
        match r {
            Ok(p) => presentable(state) && answers_with(p, json, version_v@, state, peer_map@),
            Err(e) => !presentable(state) && e.says(ErrorKind::Internal, failure@),
        },
{
    let binary = match &state {
        None => None,
        Some(Err(_)) => {
            return Err(internal(failure));
        },
        Some(Ok(bytes)) => match to_base64(bytes.as_slice()) {
            Some(text) => Some(text),
            None => {
                return Err(internal(failure));
            },
        },
    };
    Ok(DocPayload { json, binary, version_v, peer_map: peer_map.clone() })
}

/// The message for a version vector that could not be read.
pub open spec fn versions_failure(doc_id: Seq<char>) -> Seq<char> {
    "Failed to serialize state_vv for document '"@ + doc_id + "'"@
}

/// The message for a current state that could not be exported.
pub open spec fn latest_failure(doc_id: Seq<char>) -> Seq<char> {
    "Failed to export latest state for document '"@ + doc_id + "' to binary"@
}

/// The message for a point in history that could not be found.
pub open spec fn frontiers_failure() -> Seq<char> {
    "Failed to compute frontiers for specified version vector"@
}

/// The message for a copy that could not be taken to a point in history.
pub open spec fn checkout_failure(doc_id: Seq<char>) -> Seq<char> {
    "Failed to checkout document '"@ + doc_id + "' to specified version vector"@
}

/// The message for a state in history that could not be exported.
pub open spec fn version_failure(doc_id: Seq<char>) -> Seq<char> {
    "Failed to export document '"@ + doc_id + "' to binary"@
}

/// Whether the answer holds the forms that the format asks for.
pub open spec fn in_format(p: DocPayload, format: OutputFormat) -> bool {
    &&& p.json is Some == format.wants_json()
    &&& p.binary is Some == format.wants_binary()
}

/// What is answered of the document's current state: its JSON and its
/// binary form as far as the format asks for them, its version vector, and
/// the peer bindings. The binary form is the base64 text of the state as the
/// document exported it.
pub fn build_doc_payload(
    doc: &loro::LoroDoc,
    peer_map: &HashMap<u64, String>,
    doc_id: &str,
    format: OutputFormat,
) -> (r: Result<DocPayload, ErrorResponse>)
    ensures
        match r {
            Ok(p) => {
                &&& in_format(p, format)
                &&& p.peer_map@ == peer_map@
                &&& p.binary is Some ==> exists|bytes: Seq<u8>|
                    p.binary->0@ == #[trigger] base64_of(bytes)
            },
            Err(e) => {
                ||| e.says(ErrorKind::Internal, versions_failure(doc_id@))
                ||| (format != OutputFormat::Json && e.says(
                    ErrorKind::Internal,
                    latest_failure(doc_id@),
                ))
            },
        },
{
    let json = if format.include_json() {
        Some(deep_json(doc))
    } else {
        None
    };
    let version_v = match state_versions(doc) {
        Ok(v) => v,
        Err(_) => {
            return Err(
                internal(join2("Failed to serialize state_vv for document '", doc_id).concat("'")),
            );
        },
    };
    let state = if format.include_binary() {
        Some(export_state(doc))
    } else {
        None
    };
    let failure = join3("Failed to export latest state for document '", doc_id, "' to binary");
    payload_of(json, version_v, state, peer_map, failure)
}

/// What is answered of the document's state at a version. Without a version
/// vector the state is the current one. With one, a copy of the document
/// is taken to the point that the vector names, and the answer is read from
/// the copy: the document itself stays as it is, and the answer names the
/// version vector that was asked for.
pub fn build_version_payload(
    doc: &loro::LoroDoc,
    peer_map: &HashMap<u64, String>,
    doc_id: &str,
    version_v: &Option<Vec<(u64, i32)>>,
    format: OutputFormat,
) -> (r: Result<DocPayload, ErrorResponse>)
    ensures
        match r {
            Ok(p) => {
                &&& in_format(p, format)
                &&& p.peer_map@ == peer_map@
                &&& version_v matches Some(v) ==> p.version_v@ == v@
                &&& p.binary is Some ==> exists|bytes: Seq<u8>|
                    p.binary->0@ == #[trigger] base64_of(bytes)
            },
            Err(e) => match version_v {
                Some(_) => {
                    ||| e.says(ErrorKind::Internal, frontiers_failure())
                    ||| e.says(ErrorKind::Internal, checkout_failure(doc_id@))
                    ||| (format != OutputFormat::Json && e.says(
                        ErrorKind::Internal,
                        version_failure(doc_id@),
                    ))
                },
                None => {
                    ||| e.says(ErrorKind::Internal, versions_failure(doc_id@))
                    ||| (format != OutputFormat::Json && e.says(
                        ErrorKind::Internal,
                        latest_failure(doc_id@),
                    ))
                },
            },
        },
{
    let wanted = match version_v {
        Some(v) => v,
        None => {
            return build_doc_payload(doc, peer_map, doc_id, format);
        },
    };
    let at = match frontiers_of(doc, wanted) {
        Ok(f) => f,
        Err(_) => {
            return Err(
                internal(String::from_str("Failed to compute frontiers for specified version vector")),
            );
        },
    };
    let mut copy = fork_doc(doc);
    if checkout(&mut copy, &at).is_err() {
        return Err(
            internal(
                join3("Failed to checkout document '", doc_id, "' to specified version vector"),
            ),
        );
    }
    let state = if format.include_binary() {
        Some(export_state_at(&copy, &at))
    } else {
        None
    };
    let json = if format.include_json() {
        Some(deep_json(&copy))
    } else {
        None
    };
    let failure = join3("Failed to export document '", doc_id, "' to binary");
    payload_of(json, copy_versions(wanted), state, peer_map, failure)
}

/// A copy of a version vector.
pub fn copy_versions(v: &Vec<(u64, i32)>) -> (r: Vec<(u64, i32)>)
    ensures
        r@ == v@,
{
    let mut out: Vec<(u64, i32)> = Vec::new();
    let mut i: usize = 0;
    while i < v.len()
        invariant
            i <= v.len(),
            out@ == v@.take(i as int),
        decreases v.len() - i,
    {
        out.push(v[i]);
        assert(out@ =~= v@.take(i + 1));
        i += 1;
    }
    assert(v@.take(v@.len() as int) =~= v@);
    out
}

/// Where the state of a document is read from.
pub enum Source {
    /// The room is open: the answer is read from memory.
    Memory(DocPayload, u32),
    /// The room is not open, or holds another version than the one asked
    /// for: the document is fetched from the store, without opening a room.
    Store,
}

/// The latest state of a document, read from its room where the room is
/// open and has its document.
pub fn latest_from_room(room: Option<&Room>, doc_id: &str, format: OutputFormat) -> (r: Result<
    Source,
    ErrorResponse,
>)
    ensures
        match r {
            Ok(Source::Memory(p, v)) => {
                &&& room is Some
                &&& room->0.doc is Some
                &&& room->0.ctx is Some
                &&& v == room->0.ctx->0.doc_version
                &&& p.peer_map@ == room->0.ctx->0.peer_map@
                &&& in_format(p, format)
            },
            Ok(Source::Store) => room is None || room->0.doc is None || room->0.ctx is None,
            Err(e) => room is Some && room->0.doc is Some && room->0.ctx is Some && e.code == 500,
        },
{
    match room {
        Some(it) => match (&it.doc, &it.ctx) {
            (Some(doc), Some(ctx)) => {
                match build_doc_payload(doc, &ctx.peer_map, doc_id, format) {
                    Ok(p) => Ok(Source::Memory(p, ctx.doc_version)),
                    Err(e) => Err(e),
                }
            },
            _ => Ok(Source::Store),
        },
        None => Ok(Source::Store),
    }
}

/// The text of the answer that a document was not found.
pub open spec fn not_found(doc_id: Seq<char>, org_id: Seq<char>) -> Seq<char> {
    "Document '"@ + doc_id + "' not found in organization '"@ + org_id + "'"@
}

/// The text of the answer that the store failed to give a document.
pub open spec fn load_failure(doc_id: Seq<char>, why: Seq<char>) -> Seq<char> {
    "Error loading document '"@ + doc_id + "' from database: "@ + why
}

/// The text of the answer that a stored snapshot could not be read.
pub open spec fn import_failure(doc_id: Seq<char>) -> Seq<char> {
    "Failed to import snapshot for document '"@ + doc_id + "'"@
}

/// Whether `e` is the answer to what the store gave, where that is no
/// document that can be read: a failure of the store is answered as the
/// store being unavailable, a document that it does not have as not found
/// with the text `missing`.
pub open spec fn answers_fetched(
    fetched: Fetched,
    e: ErrorResponse,
    doc_id: Seq<char>,
    missing: Seq<char>,
) -> bool {
    match fetched {
        Ok(Some(_)) => e.says(ErrorKind::Internal, import_failure(doc_id)),
        Ok(None) => e.says(ErrorKind::NotFound, missing),
        Err(why) => e.says(ErrorKind::StoreUnavailable, load_failure(doc_id, why@)),
    }
}

/// The document that the store gave, read from its snapshot, with its
/// context.
fn open_fetched(fetched: Fetched, doc_id: &str, missing: String) -> (r: Result<
    (loro::LoroDoc, DocContext),
    ErrorResponse,
>)
    ensures
        match r {
            Ok((_, ctx)) => fetched matches Ok(Some(found)) && ctx == found.1,
            Err(e) => answers_fetched(fetched, e, doc_id@, missing@),
        },
{
    let (snapshot, ctx) = match fetched {
        Ok(Some(found)) => found,
        Ok(None) => {
            return Err(ErrorResponse::new(ErrorKind::NotFound, missing));
        },
        Err(why) => {
            return Err(
                ErrorResponse::new(
                    ErrorKind::StoreUnavailable,
                    join3("Error loading document '", doc_id, "' from database: ").concat(
                        why.as_str(),
                    ),
                ),
            );
        },
    };
    let mut doc = new_doc();
    if import_bytes(&mut doc, snapshot.as_slice()).is_err() {
        return Err(internal(join3("Failed to import snapshot for document '", doc_id, "'")));
    }
    Ok((doc, ctx))
}

/// The text `not_found` spells.
fn not_found_text(doc_id: &str, org_id: &str) -> (r: String)
    ensures
        r@ == not_found(doc_id@, org_id@),
{
    join3("Document '", doc_id, "' not found in organization '").concat(org_id).concat("'")
}

/// The latest state of a document that was fetched from the store. A
/// document that the store does not have is not found; a failure of the
/// store is answered as the store being unavailable.
pub fn latest_from_store(fetched: Fetched, org_id: &str, doc_id: &str, format: OutputFormat) -> (r:
    Result<DocumentLatestResponse, ErrorResponse>)
    ensures
        match r {
            Ok(resp) => {
                &&& fetched matches Ok(Some(found))
                &&& resp.version == found.1.doc_version
                &&& resp.peer_map@ == found.1.peer_map@
                &&& resp.json is Some == format.wants_json()
                &&& resp.binary is Some == format.wants_binary()
            },
            Err(e) => match fetched {
                Ok(Some(_)) => e.code == 500,
                _ => answers_fetched(fetched, e, doc_id@, not_found(doc_id@, org_id@)),
            },
        },
{
    let (doc, ctx) = match open_fetched(fetched, doc_id, not_found_text(doc_id, org_id)) {
        Ok(opened) => opened,
        Err(e) => {
            return Err(e);
        },
    };
    match build_doc_payload(&doc, &ctx.peer_map, doc_id, format) {
        Ok(p) => Ok(latest_response(p, ctx.doc_version)),
        Err(e) => Err(e),
    }
}

/// The answer for the latest state that was read from memory.
pub fn latest_response(payload: DocPayload, version: u32) -> (r: DocumentLatestResponse)
    ensures
        r.json == payload.json,
        r.binary == payload.binary,
        r.version == version,
        r.version_v == payload.version_v,
        r.peer_map == payload.peer_map,
{
    DocumentLatestResponse {
        json: payload.json,
        binary: payload.binary,
        version,
        version_v: payload.version_v,
        peer_map: payload.peer_map,
    }
}

/// The state of a document at the version asked for, read from its room
/// where the room is open, has its document, and holds that version of the
/// stream.
pub fn version_from_room(
    room: Option<&Room>,
    doc_id: &str,
    request: &DocumentVersionRequest,
    format: OutputFormat,
) -> (r: Result<Option<DocumentVersionResponse>, ErrorResponse>)
    ensures
        match r {
            Ok(Some(resp)) => {
                &&& room is Some
                &&& room->0.doc is Some
                &&& room->0.ctx is Some
                &&& room->0.ctx->0.doc_version == request.version
                &&& resp.version == request.version
                &&& resp.peer_map@ == room->0.ctx->0.peer_map@
                &&& resp.json is Some == format.wants_json()
                &&& resp.binary is Some == format.wants_binary()
                &&& request.version_v matches Some(v) ==> resp.version_v@ == v@
            },
            Ok(None) => room is None || room->0.doc is None || room->0.ctx is None
                || room->0.ctx->0.doc_version != request.version,
            Err(e) => room is Some && room->0.doc is Some && room->0.ctx is Some
                && room->0.ctx->0.doc_version == request.version && e.code == 500,
        },
{
    match room {
        Some(it) => match (&it.doc, &it.ctx) {
            (Some(doc), Some(ctx)) => {
                if ctx.doc_version != request.version {
                    return Ok(None);
                }
                match build_version_payload(
                    doc,
                    &ctx.peer_map,
                    doc_id,
                    &request.version_v,
                    format,
                ) {
                    Ok(p) => Ok(
                        Some(
                            DocumentVersionResponse {
                                json: p.json,
                                binary: p.binary,
                                version: request.version,
                                version_v: p.version_v,
                                peer_map: p.peer_map,
                            },
                        ),
                    ),
                    Err(e) => Err(e),
                }
            },
            _ => Ok(None),
        },
        None => Ok(None),
    }
}

/// The text of the answer that a version of a document was not found.
pub open spec fn version_not_found(doc_id: Seq<char>, version: u32, org_id: Seq<char>) -> Seq<char> {
    "Document '"@ + doc_id + "' with version "@ + crate::text::decimal(version as nat)
        + " not found in organization '"@ + org_id + "'"@
}

/// The text `version_not_found` spells.
fn version_not_found_text(doc_id: &str, version: u32, org_id: &str) -> (r: String)
    ensures
        r@ == version_not_found(doc_id@, version, org_id@),
{
    let v = crate::text::decimal_string(version as u64);
    join3("Document '", doc_id, "' with version ").concat(v.as_str()).concat(
        " not found in organization '",
    ).concat(org_id).concat("'")
}

/// The state of a document at the version asked for, from what the store
/// gave for that version of the stream. A version that the store does not
/// have is not found; a failure of the store is answered as the store being
/// unavailable.
pub fn version_from_store(
    fetched: Fetched,
    org_id: &str,
    doc_id: &str,
    request: &DocumentVersionRequest,
    format: OutputFormat,
) -> (r: Result<DocumentVersionResponse, ErrorResponse>)
    ensures
        match r {
            Ok(resp) => {
                &&& fetched matches Ok(Some(found))
                &&& resp.version == request.version
                &&& resp.peer_map@ == found.1.peer_map@
                &&& resp.json is Some == format.wants_json()
                &&& resp.binary is Some == format.wants_binary()
                &&& request.version_v matches Some(v) ==> resp.version_v@ == v@
            },
            Err(e) => match fetched {
                Ok(Some(_)) => e.code == 500,
                _ => answers_fetched(
                    fetched,
                    e,
                    doc_id@,
                    version_not_found(doc_id@, request.version, org_id@),
                ),
            },
        },
{
    let missing = version_not_found_text(doc_id, request.version, org_id);
    let (doc, ctx) = match open_fetched(fetched, doc_id, missing) {
        Ok(opened) => opened,
        Err(e) => {
            return Err(e);
        },
    };
    match build_version_payload(&doc, &ctx.peer_map, doc_id, &request.version_v, format) {
        Ok(p) => Ok(
            DocumentVersionResponse {
                json: p.json,
                binary: p.binary,
                version: request.version,
                version_v: p.version_v,
                peer_map: p.peer_map,
            },
        ),
        Err(e) => Err(e),
    }
}

/// The state of a document as the export endpoint answers it: always as
/// JSON, with the version vector and the peer bindings.
pub fn export_response(doc: &loro::LoroDoc, peer_map: &HashMap<u64, String>, doc_id: &str) -> (r:
    Result<DocumentExportResponse, ErrorResponse>)
    ensures
        match r {
            Ok(resp) => resp.peer_map@ == peer_map@,
            Err(e) => e.says(ErrorKind::Internal, versions_failure(doc_id@)),
        },
{
    match build_doc_payload(doc, peer_map, doc_id, OutputFormat::Json) {
        Ok(p) => match p.json {
            Some(json) => Ok(
                DocumentExportResponse { json, version_v: p.version_v, peer_map: p.peer_map },
            ),
            None => Err(internal(String::from_str("no state to export"))),
        },
        Err(e) => Err(e),
    }
}

/// The export of a document that was fetched from the store. A document
/// that the store does not have is not found; a failure of the store is
/// answered as the store being unavailable.
pub fn export_from_store(fetched: Fetched, org_id: &str, doc_id: &str) -> (r: Result<
    DocumentExportResponse,
    ErrorResponse,
>)
    ensures
        match r {
            Ok(resp) => fetched matches Ok(Some(found)) && resp.peer_map@ == found.1.peer_map@,
            Err(e) => match fetched {
                Ok(Some(_)) => e.code == 500,
                _ => answers_fetched(fetched, e, doc_id@, not_found(doc_id@, org_id@)),
            },
        },
{
    let (doc, ctx) = match open_fetched(fetched, doc_id, not_found_text(doc_id, org_id)) {
        Ok(opened) => opened,
        Err(e) => {
            return Err(e);
        },
    };
    export_response(&doc, &ctx.peer_map, doc_id)
}

/// What a request to delete or to move a document must pass: the caller is
/// the application service or a cloud admin, and the text names an
/// identifier.
pub open spec fn change_refused(prpls: Seq<String>, doc_id: Seq<char>) -> Option<Refusal> {
    if !holds(prpls, service_principal(app_service())) && !holds(prpls, cloud_admin()) {
        Some(
            Refusal {
                kind: ErrorKind::PermissionDenied,
                message: crate::auth::service_denied(app_service()),
            },
        )
    } else if uuid_of_text(doc_id) is None {
        Some(Refusal { kind: ErrorKind::InvalidArgument, message: bad_doc_id(doc_id) })
    } else {
        None
    }
}

/// A deletion that passed the checks: the document is marked as deleted in
/// the store for `by_prpl`, and its room is then closed by force.
#[derive(Debug)]
pub struct DeletePlan {
    pub doc_id: u128,
    pub by_prpl: String,
}

/// Checks a request to delete a document.
pub fn doc_delete(prpls: &Vec<String>, doc_id: &str, request: DocumentDeleteRequest) -> (r: Result<
    DeletePlan,
    ErrorResponse,
>)
    ensures
        match r {
            Ok(plan) => change_refused(prpls@, doc_id@) is None && uuid_of_text(doc_id@) == Some(
                plan.doc_id,
            ) && plan.by_prpl == request.by_prpl,
            Err(e) => change_refused(prpls@, doc_id@) is Some && e.says(
                change_refused(prpls@, doc_id@)->0.kind,
                change_refused(prpls@, doc_id@)->0.message,
            ),
        },
{
    match check_change(prpls, doc_id) {
        Ok(id) => Ok(DeletePlan { doc_id: id, by_prpl: request.by_prpl }),
        Err(e) => Err(e),
    }
}

/// Checks that the caller is the application service or a cloud admin, and
/// then that the text names a document.
pub fn check_change(prpls: &Vec<String>, doc_id: &str) -> (r: Result<u128, ErrorResponse>)
    ensures
        match r {
            Ok(id) => change_refused(prpls@, doc_id@) is None && uuid_of_text(doc_id@) == Some(id),
            Err(e) => change_refused(prpls@, doc_id@) is Some && e.says(
                change_refused(prpls@, doc_id@)->0.kind,
                change_refused(prpls@, doc_id@)->0.message,
            ),
        },
{
    match ensure_service(prpls, "colabri-app") {
        Ok(_) => {},
        Err(e) => {
            return Err(e);
        },
    }
    parse_doc_id(doc_id)
}

/// Checks a request to clear the access lists of a document: the caller,
/// then the document's identifier. The lists are then cleared in the
/// document's room.
pub fn doc_clear_acl(prpls: &Vec<String>, doc_id: &str) -> (r: Result<u128, ErrorResponse>)
    ensures
        match r {
            Ok(id) => change_refused(prpls@, doc_id@) is None && uuid_of_text(doc_id@) == Some(id),
            Err(e) => change_refused(prpls@, doc_id@) is Some && e.says(
                change_refused(prpls@, doc_id@)->0.kind,
                change_refused(prpls@, doc_id@)->0.message,
            ),
        },
{
    check_change(prpls, doc_id)
}

/// The answer of the health probe: the server is running.
pub fn health_check() -> (r: crate::models::api::HealthResponse)
    ensures
        r.status@ == "ok"@,
        r.message@ == "Server is running"@,
{
    crate::models::api::HealthResponse {
        status: String::from_str("ok"),
        message: String::from_str("Server is running"),
    }
}

/// The answer of the readiness probe: the service is ready.
pub fn ready_check() -> (r: crate::models::api::HealthResponse)
    ensures
        r.status@ == "ok"@,
        r.message@ == "Service is ready"@,
{
    crate::models::api::HealthResponse {
        status: String::from_str("ok"),
        message: String::from_str("Service is ready"),
    }
}

/// The item that a request to create one describes. Every item gets the
/// first identifier.
pub fn create_item(request: crate::models::api::CreateItemRequest) -> (r:
    crate::models::api::CreateItemResponse)
    ensures
        r.id == 1,
        r.name == request.name,
        r.description == request.description,
{
    crate::models::api::CreateItemResponse {
        id: 1,
        name: request.name,
        description: request.description,
    }
}

/// A move to a library that passed the checks: the document is moved in
/// the store for `by_prpl`, the access lists of its room are then cleared,
/// and the room is closed by force.
#[derive(Debug)]
pub struct MovePlan {
    pub doc_id: u128,
    pub library_id: u128,
    pub by_prpl: String,
}

/// The text of the refusal of a library identifier.
pub open spec fn bad_library_id(id: Seq<char>) -> Seq<char> {
    "Invalid library UUID '"@ + id + "'"@
}

/// Checks a request to move a document to a library: the caller, the
/// document's identifier, then the library's.
pub fn doc_move_lib(prpls: &Vec<String>, doc_id: &str, request: DocumentMoveLibRequest) -> (r:
    Result<MovePlan, ErrorResponse>)
    ensures
        match r {
            Ok(plan) => change_refused(prpls@, doc_id@) is None && uuid_of_text(doc_id@) == Some(
                plan.doc_id,
            ) && uuid_of_text(request.library_id@) == Some(plan.library_id) && plan.by_prpl
                == request.by_prpl,
            Err(e) => match change_refused(prpls@, doc_id@) {
                Some(why) => e.says(why.kind, why.message),
                None => uuid_of_text(request.library_id@) is None && e.says(
                    ErrorKind::InvalidArgument,
                    bad_library_id(request.library_id@),
                ),
            },
        },
{
    let doc = match check_change(prpls, doc_id) {
        Ok(id) => id,
        Err(e) => {
            return Err(e);
        },
    };
    let lib = match parse_uuid(request.library_id.as_str()) {
        Some(id) => id,
        None => {
            return Err(
                ErrorResponse::new(
                    ErrorKind::InvalidArgument,
                    join3("Invalid library UUID '", request.library_id.as_str(), "'"),
                ),
            );
        },
    };
    Ok(MovePlan { doc_id: doc, library_id: lib, by_prpl: request.by_prpl })
}

/// The error body for a change that the store did not make.
pub fn store_failed(what: &str, doc_id: &str, why: &str) -> (r: ErrorResponse)
    ensures
        r.says(
            ErrorKind::StoreUnavailable,
            "Failed to "@ + what@ + " document '"@ + doc_id@ + "': "@ + why@,
        ),
{
    ErrorResponse::new(
        ErrorKind::StoreUnavailable,
        join3("Failed to ", what, " document '").concat(doc_id).concat("': ").concat(why),
    )
}

/// What the diagnostics endpoint answers, but for the figures of the
/// machine: the counts over all hubs and the size of the identity cache.
#[derive(Debug, Clone, Copy, PartialEq, Eq, Structural)]
pub struct Diagnostics {
    pub counts: HubCounts,
    pub n_user_ctx: u32,
}

/// The diagnostics, for a cloud admin.
pub fn diagnostics(
    prpls: &Vec<String>,
    registry: &crate::room::hub::HubRegistry,
    user_contexts: u64,
) -> (r: Result<Diagnostics, ErrorResponse>)
    ensures
        match r {
            Ok(d) => holds(prpls@, cloud_admin()) && d.counts == crate::room::hub::totals_of(
                registry.hubs@,
                registry.hubs@.len() as int,
            ) && d.n_user_ctx == crate::room::hub::capped(user_contexts as nat),
            Err(e) => !holds(prpls@, cloud_admin()) && e.says(
                ErrorKind::PermissionDenied,
                "Cloud Admin access required"@,
            ),
        },
{
    match ensure_cloud_admin(prpls) {
        Ok(_) => {},
        Err(e) => {
            return Err(e);
        },
    }
    let n_user_ctx: u32 = if user_contexts > u32::MAX as u64 {
        u32::MAX
    } else {
        user_contexts as u32
    };
    Ok(Diagnostics { counts: registry.totals(), n_user_ctx })
}

/// The first step of answering the latest state of a document: the request is
/// checked, and the state is read from the room where the room is open.
/// The result names the format, and says whether the store has to be asked:
/// `latest_from_store` then makes the answer.
pub fn doc_latest(prpls: &Vec<String>, doc_id: &str, format: Option<String>, room: Option<&Room>) -> (r:
    Result<(OutputFormat, Source), ErrorResponse>)
    ensures
        match r {
            Ok((f, source)) => {
                &&& request_refused(prpls@, doc_id@, opt_text(format)) is None
                &&& format_of_query(opt_text(format)) == Ok::<OutputFormat, Seq<char>>(f)
                &&& match source {
                    Source::Memory(p, v) => {
                        &&& room is Some
                        &&& room->0.doc is Some
                        &&& room->0.ctx is Some
                        &&& v == room->0.ctx->0.doc_version
                        &&& p.peer_map@ == room->0.ctx->0.peer_map@
                        &&& in_format(p, f)
                    },
                    Source::Store => room is None || room->0.doc is None || room->0.ctx is None,
                }
            },
            Err(e) => match request_refused(prpls@, doc_id@, opt_text(format)) {
                Some(why) => e.says(why.kind, why.message),
                None => room is Some && room->0.doc is Some && room->0.ctx is Some && e.code
                    == 500,
            },
        },
{
    let request = match check_doc_request(prpls, doc_id, format) {
        Ok(r) => r,
        Err(e) => {
            return Err(e);
        },
    };
    match latest_from_room(room, doc_id, request.format) {
        Ok(source) => Ok((request.format, source)),
        Err(e) => Err(e),
    }
}

/// The first step of answering the state of a document at a version: the
/// request is checked, and the state is read from the room where the room
/// is open and holds that version of the stream. `None` says that the
/// store has to be asked: `version_from_store` then makes the answer.
pub fn doc_version(
    prpls: &Vec<String>,
    doc_id: &str,
    request: &DocumentVersionRequest,
    room: Option<&Room>,
) -> (r: Result<(OutputFormat, Option<DocumentVersionResponse>), ErrorResponse>)
    ensures
        match r {
            Ok((f, answer)) => {
                &&& request_refused(prpls@, doc_id@, opt_text(request.format)) is None
                &&& format_of_query(opt_text(request.format)) == Ok::<OutputFormat, Seq<char>>(f)
                &&& match answer {
                    Some(resp) => {
                        &&& room is Some
                        &&& room->0.doc is Some
                        &&& room->0.ctx is Some
                        &&& room->0.ctx->0.doc_version == request.version
                        &&& resp.version == request.version
                        &&& resp.peer_map@ == room->0.ctx->0.peer_map@
                        &&& resp.json is Some == f.wants_json()
                        &&& resp.binary is Some == f.wants_binary()
                        &&& request.version_v matches Some(v) ==> resp.version_v@ == v@
                    },
                    None => room is None || room->0.doc is None || room->0.ctx is None
                        || room->0.ctx->0.doc_version != request.version,
                }
            },
            Err(e) => match request_refused(prpls@, doc_id@, opt_text(request.format)) {
                Some(why) => e.says(why.kind, why.message),
                None => room is Some && room->0.doc is Some && room->0.ctx is Some
                    && room->0.ctx->0.doc_version == request.version && e.code == 500,
            },
        },
{
    let checked = match check_doc_request(prpls, doc_id, request.format.clone()) {
        Ok(r) => r,
        Err(e) => {
            return Err(e);
        },
    };
    match version_from_room(room, doc_id, request, checked.format) {
        Ok(answer) => Ok((checked.format, answer)),
        Err(e) => Err(e),
    }
}

/// The first step of exporting a document: the request is checked, and the
/// state is read from the room where the room is open. `None` says that
/// the store has to be asked: `export_from_store` then makes the answer
/// from what was fetched.
pub fn doc_export(prpls: &Vec<String>, doc_id: &str, room: Option<&Room>) -> (r: Result<
    Option<DocumentExportResponse>,
    ErrorResponse,
>)
    ensures
        match r {
            Ok(Some(resp)) => change_refused(prpls@, doc_id@) is None && room is Some
                && room->0.doc is Some && room->0.ctx is Some && resp.peer_map@
                == room->0.ctx->0.peer_map@,
            Ok(None) => change_refused(prpls@, doc_id@) is None && (room is None
                || room->0.doc is None || room->0.ctx is None),
            Err(e) => match change_refused(prpls@, doc_id@) {
                Some(why) => e.says(why.kind, why.message),
                None => room is Some && room->0.doc is Some && room->0.ctx is Some && e.says(
                    ErrorKind::Internal,
                    versions_failure(doc_id@),
                ),
            },
        },
{
    match check_change(prpls, doc_id) {
        Ok(_) => {},
        Err(e) => {
            return Err(e);
        },
    }
    match room {
        Some(it) => match (&it.doc, &it.ctx) {
            (Some(doc), Some(ctx)) => match export_response(doc, &ctx.peer_map, doc_id) {
                Ok(resp) => Ok(Some(resp)),
                Err(e) => Err(e),
            },
            _ => Ok(None),
        },
        None => Ok(None),
    }
}

} // verus!
