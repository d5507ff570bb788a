//! Agent registration, quota registration and quota issuing.
//!
//! Record identifiers are the lower-case hexadecimal text of a digest of the
//! request's fields, the local time and a random nonce: this module builds
//! the bytes to digest and, from the digest, the record.
//!
//! Issuing a quota passes through stages: the caller loads the signing key,
//! checks the request's signature, signs it anew, digests the identifier
//! source and stores the delivery, handing each outcome to the current stage.

use crate::entropy::local_time_text;
use crate::entropy::random_nonce;
use crate::hexcode::from_hex;
use crate::hexcode::hex_decode;
use crate::hexcode::hex_lower;
use crate::hexcode::to_hex;
use crate::response::ResponseBody;
use crate::text::decimal_bytes;
use crate::text::push_bytes;
use crate::text::push_decimal;
use crate::text::push_utf8;
use crate::text::str_eq;
use vstd::prelude::*;
use vstd::utf8::encode_utf8;

verus! {

/// A request to register an agent by its certificate.
pub struct DcdsRegistRequest {
    pub cert: String,
    pub extra: serde_json::Value,
}

/// The answer to an agent registration: the certificate and the new agent id.
#[derive(Clone, Debug, PartialEq, Eq)]
pub struct DcdsRegistResponse {
    pub cert: String,
    pub aid: String,
}

/// A request to register a quota of an agent.
pub struct QuotaManageRequest {
    pub aid: String,
    pub value: i64,
    pub ttype: String,
    pub extra: serde_json::Value,
}

/// A request to issue a quota: the agent and the hexadecimal text of the
/// signed issue request.
#[derive(Clone, Debug, PartialEq, Eq)]
pub struct DcdsQuotaRequest {
    pub aid: String,
    pub issue: String,
}

/// The bytes whose digest identifies a new agent.
pub open spec fn agent_id_source(cert: Seq<char>, time: Seq<char>, nonce: Seq<u8>) -> Seq<u8> {
    encode_utf8(cert) + encode_utf8(time) + nonce
}

/// The bytes whose digest identifies a new quota: the agent, the value in
/// decimal, the type, the time and the nonce.
pub open spec fn quota_id_source(
    aid: Seq<char>,
    value: i64,
    ttype: Seq<char>,
    time: Seq<char>,
    nonce: Seq<u8>,
) -> Seq<u8> {
    encode_utf8(aid) + decimal_bytes(value as int) + encode_utf8(ttype) + encode_utf8(time) + nonce
}

/// The bytes whose digest identifies a new delivery.
pub open spec fn delivery_id_source(
    aid: Seq<char>,
    issue: Seq<char>,
    time: Seq<char>,
    nonce: Seq<u8>,
) -> Seq<u8> {
    encode_utf8(aid) + encode_utf8(issue) + encode_utf8(time) + nonce
}

/// The identifier source of an agent with certificate `cert`, at `time`, with
/// `nonce`.
pub fn agent_id_source_at(cert: &str, time: &str, nonce: &[u8]) -> (res: Vec<u8>)
    ensures
        res@ == agent_id_source(cert@, time@, nonce@),
{
    let mut out: Vec<u8> = Vec::new();
    push_utf8(&mut out, cert);
    push_utf8(&mut out, time);
    push_bytes(&mut out, nonce);
    out
}

/// The identifier source of an agent with certificate `cert`, now, with a
/// fresh random nonce of 32 bytes.
pub fn agent_id_source_now(cert: &str) -> (res: Vec<u8>)
    ensures
        exists|time: Seq<char>, nonce: Seq<u8>|
            nonce.len() == 32 && res@ == agent_id_source(cert@, time, nonce),
{
    let time = local_time_text();
    let nonce = random_nonce();
    let res = agent_id_source_at(cert, time.as_str(), &nonce);
    assert(nonce@.len() == 32);
    res
}

/// The identifier source of the quota of `req`, at `time`, with `nonce`.
pub fn quota_id_source_at(req: &QuotaManageRequest, time: &str, nonce: &[u8]) -> (res: Vec<u8>)
    ensures
        res@ == quota_id_source(req.aid@, req.value, req.ttype@, time@, nonce@),
{
    let mut out: Vec<u8> = Vec::new();
    push_utf8(&mut out, req.aid.as_str());
    push_decimal(&mut out, req.value);
    push_utf8(&mut out, req.ttype.as_str());
    push_utf8(&mut out, time);
    push_bytes(&mut out, nonce);
    out
}

/// The identifier source of the quota of `req`, now, with a fresh random
/// nonce of 32 bytes.
pub fn quota_id_source_now(req: &QuotaManageRequest) -> (res: Vec<u8>)
    ensures
        exists|time: Seq<char>, nonce: Seq<u8>|
            nonce.len() == 32 && res@ == quota_id_source(
                req.aid@,
                req.value,
                req.ttype@,
                time,
                nonce,
            ),
{
    let time = local_time_text();
    let nonce = random_nonce();
    let res = quota_id_source_at(req, time.as_str(), &nonce);
    assert(nonce@.len() == 32);
    res
}

/// A new agent, as it is stored.
pub struct AgentRecord {
    pub id: String,
    pub cert: String,
    pub extra: serde_json::Value,
    pub state: String,
}

/// Registers the agent of `req` under the identifier digest `digest`: the id
/// is the digest in lower-case hexadecimal, the state `begin`.
pub fn register_agent(req: DcdsRegistRequest, digest: &[u8]) -> (res: AgentRecord)
    ensures
        res.id@ == hex_lower(digest@),
        res.cert == req.cert,
        res.extra == req.extra,
        res.state@ == "begin"@,
{
    AgentRecord { id: to_hex(digest), cert: req.cert, extra: req.extra, state: "begin".to_owned() }
}

impl AgentRecord {
    /// The reply to the registration of this agent: its certificate and id.
    pub fn reply(&self) -> (res: ResponseBody<DcdsRegistResponse>)
        ensures
            res == ResponseBody::Success(
                Some(DcdsRegistResponse { cert: self.cert, aid: self.id }),
            ),
    {
        ResponseBody::Success(Some(DcdsRegistResponse { cert: self.cert.clone(), aid: self.id.clone() }))
    }
}

/// The quota types that a registration may have.
pub open spec fn is_quota_type(t: Seq<char>) -> bool {
    t == "withdraw"@ || t == "delivery"@
}

/// Whether `ttype` is a quota type that a registration may have.
pub fn quota_type_allowed(ttype: &str) -> (res: bool)
    ensures
        res == is_quota_type(ttype@),
{
    str_eq(ttype, "withdraw") || str_eq(ttype, "delivery")
}

/// A new quota, as it is stored.
pub struct QuotaRecord {
    pub id: String,
    pub aid: String,
    pub extra: serde_json::Value,
    pub value: i64,
    pub ttype: String,
    pub state: String,
}

/// Registers the quota of `req` under the identifier digest `digest`: a type
/// other than `withdraw` or `delivery` is refused; otherwise the id is the
/// digest in lower-case hexadecimal and the state `registe`.
pub fn register_quota(req: QuotaManageRequest, digest: &[u8]) -> (res: Result<
    QuotaRecord,
    ResponseBody<()>,
>)
    ensures
        res is Ok <==> is_quota_type(req.ttype@),
        res matches Err(e) ==> e == ResponseBody::<()>::JsonParseError,
        res matches Ok(r) ==> {
            &&& r.id@ == hex_lower(digest@)
            &&& r.aid == req.aid
            &&& r.extra == req.extra
            &&& r.value == req.value
            &&& r.ttype == req.ttype
            &&& r.state@ == "registe"@
        },
{
    if !quota_type_allowed(req.ttype.as_str()) {
        return Err(ResponseBody::JsonParseError);
    }
    Ok(
        QuotaRecord {
            id: to_hex(digest),
            aid: req.aid,
            extra: req.extra,
            value: req.value,
            ttype: req.ttype,
            state: "registe".to_owned(),
        },
    )
}

/// Why the signing key could not be loaded.
#[derive(Clone, Copy, Debug, PartialEq, Eq, Structural)]
pub enum KeyLoadFailure {
    /// The key file could not be opened.
    OpenFailed,
    /// The key file could not be read as text.
    ReadFailed,
    /// The text is not a key pair.
    ParseFailed,
}

/// A new delivery, as it is stored (with the issue request's details, which
/// the caller adds).
pub struct DeliveryRecord {
    pub id: String,
    pub aid: String,
    pub issue: String,
}

/// Issuing, first stage: waiting for the signing key.
pub struct IssueAwaitKey {
    request: DcdsQuotaRequest,
}

/// Issuing: waiting for the check of the request's signature.
pub struct IssueAwaitVerdict {
    request: DcdsQuotaRequest,
    issue_bytes: Vec<u8>,
}

/// Issuing: the signature held; waiting for the request signed anew.
pub struct IssueAwaitResigned {
    request: DcdsQuotaRequest,
}

/// Issuing: waiting for the digest of the delivery's identifier source.
pub struct IssueAwaitDigest {
    request: DcdsQuotaRequest,
    reply_hex: String,
}

/// Issuing, last stage: waiting for the delivery to be stored.
pub struct IssueAwaitStored {
    reply_hex: String,
}

impl IssueAwaitKey {
    /// The request being issued.
    pub closed spec fn request(&self) -> DcdsQuotaRequest {
        self.request
    }

    /// Starts issuing the quota of `req`.
    pub fn new(req: DcdsQuotaRequest) -> (res: IssueAwaitKey)
        ensures
            res.request() == req,
    {
        IssueAwaitKey { request: req }
    }

    /// Takes the outcome of loading the signing key: a file that cannot be
    /// opened ends the request with `FileError`, one that cannot be read or
    /// parsed with `StrConverError`; otherwise the issue request's bytes,
    /// decoded from hexadecimal, are handed out for the signature check.
    pub fn key_loaded(self, outcome: Result<(), KeyLoadFailure>) -> (res: Result<
        IssueAwaitVerdict,
        ResponseBody<String>,
    >)
        requires
            outcome is Ok ==> hex_decode(encode_utf8(self.request().issue@)) is Ok,
        ensures
            outcome == Err::<(), _>(KeyLoadFailure::OpenFailed) ==> res == Err::<
                IssueAwaitVerdict,
                _,
            >(ResponseBody::<String>::FileError),
            outcome == Err::<(), _>(KeyLoadFailure::ReadFailed) ==> res == Err::<
                IssueAwaitVerdict,
                _,
            >(ResponseBody::<String>::StrConverError),
            outcome == Err::<(), _>(KeyLoadFailure::ParseFailed) ==> res == Err::<
                IssueAwaitVerdict,
                _,
            >(ResponseBody::<String>::StrConverError),
            outcome is Ok ==> (res matches Ok(next) && next.request() == self.request()
                && next.issue_bytes() == hex_decode(encode_utf8(self.request().issue@))->Ok_0),
    {
        match outcome {
            Err(KeyLoadFailure::OpenFailed) => Err(ResponseBody::FileError),
            Err(KeyLoadFailure::ReadFailed) => Err(ResponseBody::StrConverError),
            Err(KeyLoadFailure::ParseFailed) => Err(ResponseBody::StrConverError),
            Ok(()) => {
                let decoded = from_hex(self.request.issue.as_str());
                match decoded {
                    Ok(bytes) => Ok(IssueAwaitVerdict { request: self.request, issue_bytes: bytes }),
                    Err(_) => {
                        assert(false);
                        Err(ResponseBody::StrConverError)
                    },
                }
            },
        }
    }
}

impl IssueAwaitVerdict {
    /// The request being issued.
    pub closed spec fn request(&self) -> DcdsQuotaRequest {
        self.request
    }

    /// The issue request's bytes.
    pub closed spec fn issue_bytes(&self) -> Seq<u8> {
        self.issue_bytes@
    }

    /// The issue request's bytes, whose signature is to be checked.
    pub fn bytes(&self) -> (res: &Vec<u8>)
        ensures
            res@ == self.issue_bytes(),
    {
        &self.issue_bytes
    }

    /// Takes the outcome of the signature check: a failed check ends the
    /// request with `JsonParseError`; otherwise the request is to be signed
    /// anew.
    pub fn verdict(self, verified: bool) -> (res: Result<IssueAwaitResigned, ResponseBody<String>>)
        ensures
            !verified ==> res == Err::<IssueAwaitResigned, _>(
                ResponseBody::<String>::JsonParseError,
            ),
            verified ==> (res matches Ok(next) && next.request() == self.request()),
    {
        if verified {
            Ok(IssueAwaitResigned { request: self.request })
        } else {
            Err(ResponseBody::JsonParseError)
        }
    }
}

impl IssueAwaitResigned {
    /// The request being issued.
    pub closed spec fn request(&self) -> DcdsQuotaRequest {
        self.request
    }

    /// Takes the request signed anew, `signed`: its hexadecimal text becomes
    /// the reply, and the identifier source of the delivery at `time` with
    /// `nonce` is handed out to be digested.
    pub fn resigned_at(self, signed: &[u8], time: &str, nonce: &[u8]) -> (res: (
        IssueAwaitDigest,
        Vec<u8>,
    ))
        ensures
            res.0.request() == self.request(),
            res.0.reply_hex() == hex_lower(signed@),
            res.1@ == delivery_id_source(
                self.request().aid@,
                self.request().issue@,
                time@,
                nonce@,
            ),
    {
        let reply_hex = to_hex(signed);
        let mut source: Vec<u8> = Vec::new();
        push_utf8(&mut source, self.request.aid.as_str());
        push_utf8(&mut source, self.request.issue.as_str());
        push_utf8(&mut source, time);
        push_bytes(&mut source, nonce);
        (IssueAwaitDigest { request: self.request, reply_hex }, source)
    }

    /// As `resigned_at`, now and with a fresh random nonce of 32 bytes.
    pub fn resigned(self, signed: &[u8]) -> (res: (IssueAwaitDigest, Vec<u8>))
        ensures
            res.0.request() == self.request(),
            res.0.reply_hex() == hex_lower(signed@),
            exists|time: Seq<char>, nonce: Seq<u8>|
                nonce.len() == 32 && res.1@ == delivery_id_source(
                    self.request().aid@,
                    self.request().issue@,
                    time,
                    nonce,
                ),
    {
        let time = local_time_text();
        let nonce = random_nonce();
        let res = self.resigned_at(signed, time.as_str(), &nonce);
        assert(nonce@.len() == 32);
        res
    }
}

impl IssueAwaitDigest {
    /// The request being issued.
    pub closed spec fn request(&self) -> DcdsQuotaRequest {
        self.request
    }

    /// The reply that awaits the stored delivery.
    pub closed spec fn reply_hex(&self) -> Seq<char> {
        self.reply_hex@
    }

    /// Takes the identifier digest: the delivery to store, with the digest in
    /// lower-case hexadecimal as id.
    pub fn digest(self, digest: &[u8]) -> (res: (IssueAwaitStored, DeliveryRecord))
        ensures
            res.0.reply_hex() == self.reply_hex(),
            res.1.id@ == hex_lower(digest@),
            res.1.aid == self.request().aid,
            res.1.issue == self.request().issue,
    {
        let record = DeliveryRecord {
            id: to_hex(digest),
            aid: self.request.aid,
            issue: self.request.issue,
        };
        (IssueAwaitStored { reply_hex: self.reply_hex }, record)
    }
}

impl IssueAwaitStored {
    /// The reply that awaits the stored delivery.
    pub closed spec fn reply_hex(&self) -> Seq<char> {
        self.reply_hex@
    }

    /// The delivery is stored: the reply carries the hexadecimal text of the
    /// request signed anew.
    pub fn stored(self) -> (res: ResponseBody<String>)
        ensures
            res matches ResponseBody::Success(Some(h)) && h@ == self.reply_hex(),
    {
        ResponseBody::Success(Some(self.reply_hex))
    }
}

/// Law: the quota types a registration may have are exactly the two distinct
/// texts `withdraw` and `delivery`; every other text is refused.
pub proof fn lemma_quota_types(t: Seq<char>)
    ensures
        is_quota_type(t) <==> (t == "withdraw"@ || t == "delivery"@),
        Set::new(|x: Seq<char>| is_quota_type(x)) == set!["withdraw"@, "delivery"@],
        set!["withdraw"@, "delivery"@].len() == 2,
{
    reveal_strlit("withdraw");
    reveal_strlit("delivery");
    assert("withdraw"@[0] != "delivery"@[0]);
    assert(Set::new(|x: Seq<char>| is_quota_type(x)) =~= set!["withdraw"@, "delivery"@]);
    let a = set!["withdraw"@];
    assert(a.len() == 1) by {
        assert(a =~= Set::<Seq<char>>::empty().insert("withdraw"@));
    }
    assert(set!["withdraw"@, "delivery"@] =~= a.insert("delivery"@));
}

/// Law: an identifier source starts with the UTF-8 bytes of the request's
/// first field and ends with the nonce, so two sources of the same fields and
/// time differ whenever their nonces do; the quota source holds the value in
/// decimal right after the agent id.
pub proof fn lemma_id_sources(
    first: Seq<char>,
    second: Seq<char>,
    value: i64,
    time: Seq<char>,
    nonce: Seq<u8>,
    other_nonce: Seq<u8>,
)
    ensures
        agent_id_source(first, time, nonce).len() == encode_utf8(first).len() + encode_utf8(time).len()
            + nonce.len(),
        agent_id_source(first, time, nonce).take(encode_utf8(first).len() as int) == encode_utf8(
            first,
        ),
        agent_id_source(first, time, nonce).skip(
            agent_id_source(first, time, nonce).len() - nonce.len(),
        ) == nonce,
        agent_id_source(first, time, nonce) == agent_id_source(first, time, other_nonce) ==> nonce
            == other_nonce,
        delivery_id_source(first, second, time, nonce).take(encode_utf8(first).len() as int)
            == encode_utf8(first),
        delivery_id_source(first, second, time, nonce).skip(
            delivery_id_source(first, second, time, nonce).len() - nonce.len(),
        ) == nonce,
        delivery_id_source(first, second, time, nonce) == delivery_id_source(
            first,
            second,
            time,
            other_nonce,
        ) ==> nonce == other_nonce,
        quota_id_source(first, value, second, time, nonce).take(encode_utf8(first).len() as int)
            == encode_utf8(first),
        quota_id_source(first, value, second, time, nonce).subrange(
            encode_utf8(first).len() as int,
            encode_utf8(first).len() as int + decimal_bytes(value as int).len(),
        ) == decimal_bytes(value as int),
        quota_id_source(first, value, second, time, nonce).skip(
            quota_id_source(first, value, second, time, nonce).len() - nonce.len(),
        ) == nonce,
        quota_id_source(first, value, second, time, nonce) == quota_id_source(
            first,
            value,
            second,
            time,
            other_nonce,
        ) ==> nonce == other_nonce,
{
    let a = agent_id_source(first, time, nonce);
    assert(a.take(encode_utf8(first).len() as int) =~= encode_utf8(first));
    assert(a.skip(a.len() - nonce.len()) =~= nonce);
    let a2 = agent_id_source(first, time, other_nonce);
    if a == a2 {
        assert(a2.skip(a2.len() - other_nonce.len()) =~= other_nonce);
    }
    let dl = delivery_id_source(first, second, time, nonce);
    assert(dl.take(encode_utf8(first).len() as int) =~= encode_utf8(first));
    assert(dl.skip(dl.len() - nonce.len()) =~= nonce);
    let dl2 = delivery_id_source(first, second, time, other_nonce);
    if dl == dl2 {
        assert(dl2.skip(dl2.len() - other_nonce.len()) =~= other_nonce);
    }
    let q = quota_id_source(first, value, second, time, nonce);
    assert(q.take(encode_utf8(first).len() as int) =~= encode_utf8(first));
    assert(q.subrange(
        encode_utf8(first).len() as int,
        encode_utf8(first).len() as int + decimal_bytes(value as int).len(),
    ) =~= decimal_bytes(value as int));
    assert(q.skip(q.len() - nonce.len()) =~= nonce);
    let q2 = quota_id_source(first, value, second, time, other_nonce);
    if q == q2 {
        assert(q2.skip(q2.len() - other_nonce.len()) =~= other_nonce);
    }
}

} // verus!
