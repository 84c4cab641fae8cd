//! A farm: one host that runs many hubs, with its policy, its users and its sessions.
pub mod admin;
pub mod hubs;

use vstd::prelude::*;
use crate::text::{begins_with, opt_text, same, strip_prefix};

verus! {

/// Why a request to the farm is refused, and with which status.
pub struct FarmError {
    pub status: u16,
    pub error: String,
    pub details: Option<String>,
}

/// What a refusal says.
pub ghost struct FarmRefusal {
    pub status: int,
    pub error: Seq<char>,
    pub details: Option<Seq<char>>,
}

impl View for FarmError {
    type V = FarmRefusal;

    open spec fn view(&self) -> FarmRefusal {
        FarmRefusal {
            status: self.status as int,
            error: self.error@,
            details: opt_text(self.details),
        }
    }
}

/// A refusal without details.
pub open spec fn refusal(status: int, error: Seq<char>) -> FarmRefusal {
    FarmRefusal { status, error, details: None }
}

/// A refusal with details.
pub open spec fn refusal_with(status: int, error: Seq<char>, details: Seq<char>) -> FarmRefusal {
    FarmRefusal { status, error, details: Some(details) }
}

/// A refusal without details.
pub fn refuse(status: u16, error: &str) -> (e: FarmError)
    ensures
        e@ == refusal(status as int, error@),
{
    FarmError { status, error: error.to_owned(), details: None }
}

/// A refusal with details.
pub fn refuse_with(status: u16, error: &str, details: String) -> (e: FarmError)
    ensures
        e@ == refusal_with(status as int, error@, details@),
{
    FarmError { status, error: error.to_owned(), details: Some(details) }
}

/// What the storage said when it failed, as the answer to the request.
pub fn db_error(text: &str) -> (e: FarmError)
    ensures
        e@ == refusal(500, "db_error: "@ + text@),
{
    FarmError { status: 500, error: crate::text::concat2("db_error: ", text), details: None }
}

/// What a farm token says of its bearer.
pub struct FarmTokenPayload {
    pub sub: String,
}

/// Who asks: the `Authorization` header of the request, and what its bearer token says
/// where the token is genuine.
pub struct Caller {
    pub header: Option<String>,
    pub payload: Option<FarmTokenPayload>,
}

impl Caller {
    /// The identity that the token names.
    pub open spec fn sub(self) -> Seq<char> {
        self.payload->0.sub@
    }

    /// Why the caller is not authenticated, where they are not.
    pub open spec fn auth_refusal(self) -> Option<FarmRefusal> {
        if !(self.header is Some && begins_with(self.header->0@, "Bearer "@)) {
            Some(refusal(401, "missing_token"@))
        } else if self.payload is None {
            Some(refusal(401, "invalid_token"@))
        } else {
            None
        }
    }

    /// Why the caller may not act as the admin of the farm, where they may not.
    pub open spec fn admin_refusal(self, admin: Option<Seq<char>>) -> Option<FarmRefusal> {
        if self.auth_refusal() is Some {
            self.auth_refusal()
        } else if admin != Some(self.sub()) {
            Some(refusal(403, "farm_admin_only"@))
        } else {
            None
        }
    }
}

/// The token that an `Authorization` header carries.
pub fn bearer_token(header: &Option<String>) -> (r: Result<String, FarmError>)
    ensures
        match header {
            Some(h) => if begins_with(h@, "Bearer "@) {
                r matches Ok(t) && t@ == h@.skip("Bearer "@.len() as int)
            } else {
                r matches Err(e) && e@ == refusal(401, "missing_token"@)
            },
            None => r matches Err(e) && e@ == refusal(401, "missing_token"@),
        },
{
    match header {
        Some(h) => match strip_prefix(h.as_str(), "Bearer ") {
            Some(t) => Ok(t),
            None => Err(refuse(401, "missing_token")),
        },
        None => Err(refuse(401, "missing_token")),
    }
}

/// The identity of an authenticated caller.
pub fn require_auth(caller: &Caller) -> (r: Result<String, FarmError>)
    ensures
        match caller.auth_refusal() {
            Some(d) => r matches Err(e) && e@ == d,
            None => r matches Ok(s) && s@ == caller.sub(),
        },
{
    match bearer_token(&caller.header) {
        Ok(_) => match &caller.payload {
            Some(p) => Ok(p.sub.clone()),
            None => Err(refuse(401, "invalid_token")),
        },
        Err(e) => Err(e),
    }
}

/// The identity of the caller, who must be the admin of the farm.
pub fn require_admin(caller: &Caller, admin_pubkey: &Option<String>) -> (r: Result<
    String,
    FarmError,
>)
    ensures
        match caller.admin_refusal(opt_text(*admin_pubkey)) {
            Some(d) => r matches Err(e) && e@ == d,
            None => r matches Ok(s) && s@ == caller.sub(),
        },
{
    match require_auth(caller) {
        Ok(sub) => if is_admin(admin_pubkey, sub.as_str()) {
            Ok(sub)
        } else {
            Err(refuse(403, "farm_admin_only"))
        },
        Err(e) => Err(e),
    }
}

/// Whether the identity is that of the admin.
pub fn is_admin(admin_pubkey: &Option<String>, sub: &str) -> (r: bool)
    ensures
        r == (opt_text(*admin_pubkey) == Some(sub@)),
{
    match admin_pubkey {
        Some(a) => same(a.as_str(), sub),
        None => false,
    }
}

/// Only a bearer token that is genuine makes someone known, and they are then who it names.
pub proof fn only_a_genuine_token_names_its_bearer(caller: &Caller, r: Result<String, FarmError>)
    requires
        call_ensures(require_auth, (caller,), r),
    ensures
        r is Ok <==> caller.header is Some && "Bearer "@.is_prefix_of(caller.header->0@)
            && caller.payload is Some,
        r matches Ok(s) ==> s@ == caller.payload->0.sub@,
        r matches Err(e) ==> e.status == 401 && e.error@ == if caller.header is Some
            && "Bearer "@.is_prefix_of(caller.header->0@) {
            "invalid_token"@
        } else {
            "missing_token"@
        },
{
}

/// Only the one whose key the farm has as its admin is the admin; a farm without one has none.
pub proof fn only_the_admin_is_the_admin(
    caller: &Caller,
    admin: &Option<String>,
    known: Result<String, FarmError>,
    r: Result<String, FarmError>,
    is: bool,
    sub: &str,
)
    requires
        call_ensures(require_auth, (caller,), known),
        call_ensures(require_admin, (caller, admin), r),
        call_ensures(is_admin, (admin, sub), is),
    ensures
        r is Ok <==> known is Ok && admin is Some && admin->0@ == known->Ok_0@,
        r matches Ok(s) ==> s@ == known->Ok_0@,
        known matches Err(e) ==> r is Err && r->Err_0@ == e@,
        known is Ok && r is Err ==> r->Err_0.status == 403 && r->Err_0.error@ == "farm_admin_only"@,
        is <==> admin is Some && admin->0@ == sub@,
{
}

/// The token of a header is what follows the word for a bearer.
pub proof fn the_token_follows_the_word(
    header: &Option<String>,
    r: Result<String, FarmError>,
    token: Seq<char>,
)
    requires
        call_ensures(bearer_token, (header,), r),
    ensures
        header is Some && header->0@ == "Bearer "@ + token ==> r is Ok && r->Ok_0@ == token,
        r matches Ok(t) ==> header is Some && header->0@ == "Bearer "@ + t@,
        r matches Err(e) ==> e.status == 401,
{
    if header is Some {
        let h = header->0@;
        if h == "Bearer "@ + token {
            assert(h.skip("Bearer "@.len() as int) =~= token);
            assert("Bearer "@ =~= h.take("Bearer "@.len() as int));
        }
        if "Bearer "@.is_prefix_of(h) {
            assert(h =~= "Bearer "@ + h.skip("Bearer "@.len() as int));
        }
    }
}

/// A refusal says what it was made with.
pub proof fn a_refusal_says_its_status(
    status: u16,
    error: &str,
    details: String,
    e: FarmError,
    f: FarmError,
)
    requires
        call_ensures(refuse, (status, error), e),
        call_ensures(refuse_with, (status, error, details), f),
    ensures
        e.status == status && e.error@ == error@ && e.details is None,
        f.status == status && f.error@ == error@ && f.details is Some && f.details->0@ == details@,
{
    assert(e@.status == e.status && e@.error == e.error@ && e@.details == opt_text(e.details));
    assert(f@.status == f.status && f@.error == f.error@ && f@.details == opt_text(f.details));
}

} // verus!
