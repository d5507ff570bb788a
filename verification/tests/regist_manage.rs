use central_manage::dcds_regist_manage::{
    agent_id_source_at, agent_id_source_now, quota_id_source_at, quota_id_source_now,
    quota_type_allowed, register_agent, register_quota, DcdsQuotaRequest, DcdsRegistRequest,
    DcdsRegistResponse, IssueAwaitKey, KeyLoadFailure, QuotaManageRequest,
};
use central_manage::response::ResponseBody;

fn quota(ttype: &str, value: i64) -> QuotaManageRequest {
    QuotaManageRequest {
        aid: "ag".to_string(),
        value,
        ttype: ttype.to_string(),
        extra: serde_json::Value::Bool(true),
    }
}

#[test]
fn agent_id_source_concatenates() {
    let src = agent_id_source_at("cert", "2020-01-01", &[1, 2]);
    let mut expect = b"cert2020-01-01".to_vec();
    expect.extend_from_slice(&[1, 2]);
    assert_eq!(src, expect);
}

#[test]
fn agent_id_source_now_has_cert_then_nonce() {
    let a = agent_id_source_now("cert");
    let b = agent_id_source_now("cert");
    assert!(a.starts_with(b"cert"));
    assert!(a.len() >= 4 + 32);
    assert_ne!(a, b);
}

#[test]
fn quota_id_source_writes_value_in_decimal() {
    let src = quota_id_source_at(&quota("withdraw", -42), "T", &[9]);
    let mut expect = b"ag-42withdrawT".to_vec();
    expect.push(9);
    assert_eq!(src, expect);
    let now = quota_id_source_now(&quota("delivery", 5));
    assert!(now.starts_with(b"ag5delivery"));
    assert!(now.len() >= 11 + 32);
}

#[test]
fn register_agent_uses_hex_of_digest() {
    let req = DcdsRegistRequest { cert: "C".to_string(), extra: serde_json::Value::Null };
    let rec = register_agent(req, &[0xab, 0x01]);
    assert_eq!(rec.id, "ab01");
    assert_eq!(rec.cert, "C");
    assert_eq!(rec.state, "begin");
    assert_eq!(
        rec.reply(),
        ResponseBody::Success(Some(DcdsRegistResponse { cert: "C".to_string(), aid: "ab01".to_string() }))
    );
}

#[test]
fn quota_types() {
    assert!(quota_type_allowed("withdraw"));
    assert!(quota_type_allowed("delivery"));
    assert!(!quota_type_allowed("deliver"));
}

#[test]
fn register_quota_refuses_unknown_type() {
    assert!(matches!(
        register_quota(quota("gift", 1), &[1]),
        Err(ResponseBody::JsonParseError)
    ));
}

#[test]
fn register_quota_keeps_the_request() {
    let rec = register_quota(quota("delivery", 77), &[0x0f, 0xf0]).ok().unwrap();
    assert_eq!(rec.id, "0ff0");
    assert_eq!(rec.aid, "ag");
    assert_eq!(rec.value, 77);
    assert_eq!(rec.ttype, "delivery");
    assert_eq!(rec.state, "registe");
    assert_eq!(rec.extra, serde_json::Value::Bool(true));
}

fn issue_request() -> DcdsQuotaRequest {
    DcdsQuotaRequest { aid: "ag".to_string(), issue: "0A0b".to_string() }
}

#[test]
fn issuing_stops_when_the_key_is_missing() {
    let s = IssueAwaitKey::new(issue_request());
    assert!(matches!(s.key_loaded(Err(KeyLoadFailure::OpenFailed)), Err(ResponseBody::FileError)));
    let s = IssueAwaitKey::new(issue_request());
    assert!(matches!(s.key_loaded(Err(KeyLoadFailure::ReadFailed)), Err(ResponseBody::StrConverError)));
    let s = IssueAwaitKey::new(issue_request());
    assert!(matches!(s.key_loaded(Err(KeyLoadFailure::ParseFailed)), Err(ResponseBody::StrConverError)));
}

#[test]
fn issuing_stops_when_the_signature_fails() {
    let s = IssueAwaitKey::new(issue_request());
    let s = s.key_loaded(Ok(())).ok().unwrap();
    assert_eq!(s.bytes(), &vec![0x0a, 0x0b]);
    assert!(matches!(s.verdict(false), Err(ResponseBody::JsonParseError)));
}

#[test]
fn issuing_replies_with_the_new_signature() {
    let s = IssueAwaitKey::new(issue_request());
    let s = s.key_loaded(Ok(())).ok().unwrap();
    let s = s.verdict(true).ok().unwrap();
    let (s, source) = s.resigned_at(&[1, 2, 0xff], "T", &[7, 8]);
    let mut expect = b"ag0A0bT".to_vec();
    expect.extend_from_slice(&[7, 8]);
    assert_eq!(source, expect);
    let (s, record) = s.digest(&[0xc0, 0xde]);
    assert_eq!(record.id, "c0de");
    assert_eq!(record.aid, "ag");
    assert_eq!(record.issue, "0A0b");
    assert_eq!(s.stored(), ResponseBody::Success(Some("0102ff".to_string())));
}

#[test]
fn issuing_with_fresh_time_and_nonce() {
    let s = IssueAwaitKey::new(issue_request());
    let s = s.key_loaded(Ok(())).ok().unwrap();
    let s = s.verdict(true).ok().unwrap();
    let (s, source) = s.resigned(&[0x10]);
    assert!(source.starts_with(b"ag0A0b"));
    assert!(source.len() >= 6 + 32);
    let (s, _) = s.digest(&[1]);
    assert_eq!(s.stored(), ResponseBody::Success(Some("10".to_string())));
}
