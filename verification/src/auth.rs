use vstd::prelude::*;

use crate::text::{
    append_json_escaped, bytes_as_chars, bytes_to_string_from, decimal_digits, json_escaped,
    u16_decimal,
};
use crate::tsp::{RelationStatus, RelationStore, StoreError};

verus! {

/// A terminated request: the HTTP status to answer with and the message
/// placed in the response body.
#[derive(Debug)]
pub struct Denial {
    pub code: u16,
    pub message: String,
}

/// What the middleware decides for one request: let it through unchanged,
/// or end it with an error response.
#[derive(Debug)]
pub enum AuthOutcome {
    Allow,
    Deny(Denial),
}

/// True of the byte values that a header value may hold and still be
/// decodable as text: horizontal tab or visible ASCII (space through `~`).
pub open spec fn text_byte(b: u8) -> bool {
    b == 9 || (32 <= b && b < 127)
}

/// Executable check for a single header byte.
pub fn is_text_byte(b: u8) -> (r: bool)
    ensures
        r == text_byte(b),
{
    b == 9 || (32 <= b && b < 127)
}

/// True when every byte of a header value decodes as text.
pub open spec fn text_header(bs: Seq<u8>) -> bool {
    forall|i: int| 0 <= i < bs.len() ==> text_byte(bs[i])
}

/// The bytes of the literal prefix `Bearer ` (with exactly one space).
pub open spec fn bearer_prefix() -> Seq<u8> {
    seq![66u8, 101u8, 97u8, 114u8, 101u8, 114u8, 32u8]
}

/// True when the header value starts with the literal prefix `Bearer `.
pub open spec fn has_bearer_prefix(bs: Seq<u8>) -> bool {
    bs.len() >= 7 && bs.take(7) == bearer_prefix()
}

/// The credential of a well-formed header value: everything after the
/// `Bearer ` prefix, unmodified.
pub open spec fn credential_chars(bs: Seq<u8>) -> Seq<char> {
    bytes_as_chars(bs.skip(7))
}

fn starts_with_bearer(bs: &Vec<u8>) -> (r: bool)
    ensures
        r == has_bearer_prefix(bs@),
{
    if bs.len() < 7 {
        return false;
    }
    let r = bs[0] == 66 && bs[1] == 101 && bs[2] == 97 && bs[3] == 114 && bs[4] == 101 && bs[5]
        == 114 && bs[6] == 32;
    proof {
        if r {
            assert(bs@.take(7) =~= bearer_prefix());
        } else {
            if bs@.take(7) == bearer_prefix() {
                assert(bs@[0] == bs@.take(7)[0]);
                assert(bs@[1] == bs@.take(7)[1]);
                assert(bs@[2] == bs@.take(7)[2]);
                assert(bs@[3] == bs@.take(7)[3]);
                assert(bs@[4] == bs@.take(7)[4]);
                assert(bs@[5] == bs@.take(7)[5]);
                assert(bs@[6] == bs@.take(7)[6]);
            }
        }
    }
    r
}

/// Finds the bearer credential in the `Authorization` header value, or the
/// denial owed for a missing or malformed header.
pub fn extract_credential(header: Option<&Vec<u8>>) -> (r: Result<String, Denial>)
    ensures
        match header {
            None => r matches Err(d) && d.code == 401 && d.message@
                == "Missing Authorization header"@,
            Some(bs) => if !text_header(bs@) {
                r matches Err(d) && d.code == 400 && d.message@
                    == "Invalid Authorization header encoding"@
            } else if !has_bearer_prefix(bs@) {
                r matches Err(d) && d.code == 400 && d.message@ == "Invalid Authorization format"@
            } else {
                r matches Ok(k) && k@ == credential_chars(bs@)
            },
        },
{
    match header {
        None => Err(
            Denial { code: 401, message: String::from_str("Missing Authorization header") },
        ),
        Some(bs) => extract_from_value(bs),
    }
}

fn extract_from_value(bs: &Vec<u8>) -> (r: Result<String, Denial>)
    ensures
        !text_header(bs@) ==> (r matches Err(d) && d.code == 400 && d.message@
            == "Invalid Authorization header encoding"@),
        text_header(bs@) && !has_bearer_prefix(bs@) ==> (r matches Err(d) && d.code == 400
            && d.message@ == "Invalid Authorization format"@),
        text_header(bs@) && has_bearer_prefix(bs@) ==> (r matches Ok(k) && k@ == credential_chars(
            bs@,
        )),
{
    let mut i: usize = 0;
    while i < bs.len()
        invariant
            i <= bs@.len(),
            forall|j: int| 0 <= j < i ==> text_byte(bs@[j]),
        decreases bs@.len() - i,
    {
        if !is_text_byte(bs[i]) {
            proof {
                assert(!text_byte(bs@[i as int]));
            }
            return Err(
                Denial {
                    code: 400,
                    message: String::from_str("Invalid Authorization header encoding"),
                },
            );
        }
        i += 1;
    }
    if !starts_with_bearer(bs) {
        return Err(
            Denial { code: 400, message: String::from_str("Invalid Authorization format") },
        );
    }
    Ok(bytes_to_string_from(bs, 7))
}

/// True when an outcome denies with the given status and message.
pub open spec fn denied_with(out: AuthOutcome, code: u16, message: Seq<char>) -> bool {
    out matches AuthOutcome::Deny(d) && d.code == code && d.message@ == message
}

/// The capability deciding allow or deny for a credential.  A verifier is
/// read-only per call: what it answers is a function of its state and of
/// the credential alone.
pub trait KeyVerifier {
    /// The verifier's own validity; constructors establish it and nothing
    /// under this crate breaks it.
    spec fn inv(&self) -> bool;

    /// Whether the verifier allows this credential against its current state.
    spec fn accepts(&self, key: Seq<char>) -> bool;

    /// The reason the verifier gives when it denies this credential.
    spec fn deny_reason(&self, key: Seq<char>) -> Seq<char>;

    /// Decides the credential; `Ok` exactly when the verifier allows it.
    fn verify(&self, key: &str) -> (r: Result<(), String>)
        requires
            self.inv(),
        ensures
            r is Ok <==> self.accepts(key@),
            r matches Err(m) ==> m@ == self.deny_reason(key@),
    ;
}

/// Turns a verifier's verdict into the middleware outcome: an allowed
/// credential forwards the request, a denied one answers 401 with the
/// verifier's reason.
pub fn settle_verdict(verdict: Result<(), String>) -> (out: AuthOutcome)
    ensures
        verdict is Ok ==> out is Allow,
        verdict matches Err(m) ==> denied_with(out, 401, m@),
{
    match verdict {
        Ok(()) => AuthOutcome::Allow,
        Err(m) => AuthOutcome::Deny(Denial { code: 401, message: m }),
    }
}

/// The whole request decision: find the `Authorization` header, extract the
/// bearer credential, consult the verifier exactly once, and let the request
/// through if and only if the verifier allows the credential.
pub fn key_verify_layer<V: KeyVerifier>(verifier: &V, header: Option<&Vec<u8>>) -> (out:
    AuthOutcome)
    requires
        verifier.inv(),
    ensures
        match header {
            None => denied_with(out, 401, "Missing Authorization header"@),
            Some(bs) => if !text_header(bs@) {
                denied_with(out, 400, "Invalid Authorization header encoding"@)
            } else if !has_bearer_prefix(bs@) {
                denied_with(out, 400, "Invalid Authorization format"@)
            } else if verifier.accepts(credential_chars(bs@)) {
                out is Allow
            } else {
                denied_with(out, 401, verifier.deny_reason(credential_chars(bs@)))
            },
        },
{
    match extract_credential(header) {
        Err(d) => AuthOutcome::Deny(d),
        Ok(key) => settle_verdict(verifier.verify(key.as_str())),
    }
}

/// The JSON error document answered on a denial: the HTTP status mirrored
/// in `code`, the message as a JSON string.
pub open spec fn error_body(code: nat, message: Seq<char>) -> Seq<char> {
    "{\"code\":"@ + decimal_digits(code) + ",\"message\":\""@ + json_escaped(message) + "\"}"@
}

/// Renders the response body for a denial.
pub fn deny_response_json(d: &Denial) -> (r: String)
    ensures
        r@ == error_body(d.code as nat, d.message@),
{
    let mut r = String::from_str("{\"code\":");
    let num = u16_decimal(d.code);
    r.append(num.as_str());
    r.append(",\"message\":\"");
    append_json_escaped(&mut r, d.message.as_str());
    r.append("\"}");
    r
}

/// What one remote reverse-lookup attempt came back with: an HTTP status,
/// or a transport-level failure described by the carrier of the call.
pub enum LookupOutcome {
    Status(u16),
    TransportError(String),
}

/// The successful status class: any 2xx answer approves the key.
pub open spec fn success_status(s: u16) -> bool {
    200 <= s < 300
}

/// The message a remote lookup denies with: the HTTP status for an
/// unsuccessful answer, the transport error's description otherwise.
pub open spec fn lookup_denial_message(outcome: LookupOutcome) -> Seq<char> {
    match outcome {
        LookupOutcome::Status(s) => "Invalid API key (HTTP "@ + decimal_digits(s as nat) + ")"@,
        LookupOutcome::TransportError(e) => "Request error: "@ + e@,
    }
}

/// The JSON body sent to the reverse-lookup service for one key.
pub open spec fn lookup_body(key: Seq<char>) -> Seq<char> {
    "{\"api_key\":\""@ + json_escaped(key) + "\"}"@
}

/// Verifies API keys by a reverse lookup against a remote service.  The
/// struct holds only the fixed base address; issuing the network call is
/// the carrier's business, and `decide` settles what any answer means.
pub struct ApiKeyVerifier {
    pub base_url: String,
}

impl ApiKeyVerifier {
    pub fn new(base_url: String) -> (v: Self)
        ensures
            v.base_url@ == base_url@,
    {
        ApiKeyVerifier { base_url }
    }

    /// The one address the lookup is sent to: the base plus a fixed path.
    pub fn lookup_url(&self) -> (u: String)
        ensures
            u@ == self.base_url@ + "/reverse-lookup"@,
    {
        let mut u = self.base_url.clone();
        u.append("/reverse-lookup");
        u
    }

    /// The request body carrying the key to the lookup service.
    pub fn lookup_request_body(api_key: &str) -> (b: String)
        ensures
            b@ == lookup_body(api_key@),
    {
        let mut b = String::from_str("{\"api_key\":\"");
        append_json_escaped(&mut b, api_key);
        b.append("\"}");
        b
    }

    /// What any outcome of the lookup call means: a successful status class
    /// allows the key; every other status and every transport failure denies
    /// it, with a message describing which it was.
    pub fn decide(outcome: &LookupOutcome) -> (r: Result<(), String>)
        ensures
            r is Ok <==> (outcome matches LookupOutcome::Status(s) && success_status(*s)),
            r matches Err(m) ==> m@ == lookup_denial_message(*outcome),
    {
        match outcome {
            LookupOutcome::Status(s) => {
                if 200 <= *s && *s < 300 {
                    Ok(())
                } else {
                    let mut m = String::from_str("Invalid API key (HTTP ");
                    let num = u16_decimal(*s);
                    m.append(num.as_str());
                    m.append(")");
                    Err(m)
                }
            },
            LookupOutcome::TransportError(e) => {
                let mut m = String::from_str("Request error: ");
                m.append(e.as_str());
                Err(m)
            },
        }
    }
}

/// Verifies peer identities against the relationship store: a peer is
/// allowed if and only if the store reports the relationship between the
/// endpoint's own identity and the peer as exactly `Bidirectional`.  This
/// verifier only ever reads the store.
pub struct TspKeyVerifier {
    pub store: RelationStore,
    pub vid: String,
}

impl TspKeyVerifier {
    pub fn new(store: RelationStore, vid: String) -> (v: Self)
        ensures
            v.store == store,
            v.vid == vid,
    {
        TspKeyVerifier { store, vid }
    }
}

/// The message a relationship verification denies with: a relation that is
/// not bidirectional, or the description of the store error met.
pub open spec fn status_denial_message(r: Result<RelationStatus, StoreError>) -> Seq<char> {
    match r {
        Ok(_) => "Relation is not bidirectional"@,
        Err(e) => "Failed to get relation status: "@ + e.spec_describe(),
    }
}

/// What a store's answer about a relationship means: only a status of
/// exactly `Bidirectional` allows the peer; every other status and every
/// store error denies, with a message distinguishing the two.
pub fn decide_status(r: &Result<RelationStatus, StoreError>) -> (out: Result<(), String>)
    ensures
        out is Ok <==> (r matches Ok(st) && st == RelationStatus::Bidirectional),
        out matches Err(m) ==> m@ == status_denial_message(*r),
{
    match r {
        Ok(st) => {
            if *st == RelationStatus::Bidirectional {
                Ok(())
            } else {
                Err(String::from_str("Relation is not bidirectional"))
            }
        },
        Err(e) => {
            let mut m = String::from_str("Failed to get relation status: ");
            let d = e.describe();
            m.append(d.as_str());
            Err(m)
        },
    }
}

impl KeyVerifier for TspKeyVerifier {
    open spec fn inv(&self) -> bool {
        self.store.wf()
    }

    open spec fn accepts(&self, key: Seq<char>) -> bool {
        self.store.local_id() == Some(self.vid@) && self.store.status_of(key)
            == RelationStatus::Bidirectional
    }

    open spec fn deny_reason(&self, key: Seq<char>) -> Seq<char> {
        if self.store.local_id() == Some(self.vid@) {
            "Relation is not bidirectional"@
        } else {
            "Failed to get relation status: "@ + StoreError::UnknownIdentity.spec_describe()
        }
    }

    fn verify(&self, key: &str) -> (r: Result<(), String>) {
        let status = self.store.relation_status(self.vid.as_str(), key);
        decide_status(&status)
    }
}

/// Law: a peer with no recorded relationship is never allowed by the
/// relationship verifier, and its denial names the missing bidirectional
/// relation.
pub proof fn lemma_unrelated_peer_denied(v: TspKeyVerifier, key: Seq<char>)
    requires
        v.store.local_id() == Some(v.vid@),
        !v.store.has_relation(key),
    ensures
        !v.accepts(key),
        v.deny_reason(key) == "Relation is not bidirectional"@,
{
    v.store.lemma_status_default(key);
}

/// Law: once the store reports `Bidirectional` for a peer under the
/// registered identity, the relationship verifier allows that peer.
pub proof fn lemma_bidirectional_allowed(v: TspKeyVerifier, key: Seq<char>)
    requires
        v.store.local_id() == Some(v.vid@),
        v.store.status_of(key) == RelationStatus::Bidirectional,
    ensures
        v.accepts(key),
{
}

} // verus!
