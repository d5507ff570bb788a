use central_manage::get_quota_infor::{
    approval_reply, approval_state_allowed, plan_approval, QuotaApproveRequest, StatesRequest,
    StatesRespones, StatsAwaitTotal, StatsScope,
};
use central_manage::response::ResponseBody;

fn approve(state: &str) -> QuotaApproveRequest {
    QuotaApproveRequest {
        aid: "agent01".to_string(),
        extra: serde_json::Value::Null,
        state: state.to_string(),
    }
}

#[test]
fn approval_states() {
    assert!(approval_state_allowed("approve"));
    assert!(approval_state_allowed("registe"));
    assert!(approval_state_allowed("deined"));
    assert!(!approval_state_allowed("denied"));
    assert!(!approval_state_allowed(""));
}

#[test]
fn plan_approval_refuses_unknown_state() {
    match plan_approval(approve("approved"), "u1".to_string()) {
        Err(e) => assert_eq!(e, ResponseBody::JsonParseError),
        Ok(_) => panic!("accepted an unknown state"),
    }
}

#[test]
fn plan_approval_keeps_the_fields() {
    let u = plan_approval(approve("approve"), "u1".to_string()).ok().unwrap();
    assert_eq!(u.state, "approve");
    assert_eq!(u.aid, "agent01");
    assert_eq!(u.user_id, "u1");
    assert_eq!(u.extra, serde_json::Value::Null);
}

#[test]
fn approval_replies() {
    assert_eq!(approval_reply(Ok(())), ResponseBody::Success(None));
    assert_eq!(
        approval_reply(Err("db down".to_string())),
        ResponseBody::DatabaseRunningError(Some("db down".to_string()))
    );
}

fn req(aid: &str) -> StatesRequest {
    StatesRequest { aid: aid.to_string() }
}

#[test]
fn long_agent_id_selects_one_agent() {
    let (stage, plan) = StatsAwaitTotal::start(&req("abcdef"), "user-9");
    assert_eq!(stage.scope, StatsScope::OneAgent);
    assert_eq!(
        plan.statement,
        "SELECT value from quota_admin where aid = $1 AND type = $2 AND cloud_user_id = $3"
    );
    assert_eq!(plan.params, vec!["abcdef", "delivery", "user-9"]);
}

#[test]
fn short_agent_id_selects_all_agents() {
    // five bytes: not longer than five
    let (stage, plan) = StatsAwaitTotal::start(&req("abcde"), "user-9");
    assert_eq!(stage.scope, StatsScope::AllAgents);
    assert_eq!(
        plan.statement,
        "SELECT value from quota_admin where type = $1 AND cloud_user_id = $2"
    );
    assert_eq!(plan.params, vec!["delivery", "user-9"]);
    // two characters of three bytes each: six bytes
    let (stage, _) = StatsAwaitTotal::start(&req("額度"), "user-9");
    assert_eq!(stage.scope, StatsScope::OneAgent);
}

#[test]
fn statistics_of_one_agent() {
    let (stage, _) = StatsAwaitTotal::start(&req("agent01"), "u");
    let (stage, plan) = stage.receive(Ok(vec![100, 50])).ok().unwrap();
    assert_eq!(
        plan.statement,
        "SELECT (issue_info->'t_obj'->'issue_info') from quota_delivery where aid = $1 and cloud_user_id = $2"
    );
    assert_eq!(plan.params, vec!["agent01", "u"]);
    let (stage, plan) = stage
        .receive(Ok(vec![vec![vec![2, 10]], vec![vec![3, 5], vec![9]]]), true)
        .ok()
        .unwrap();
    assert_eq!(plan.params, vec!["agent01", "withdraw", "u"]);
    let rows = vec![7, 1];
    assert!(stage.completes(&rows));
    assert_eq!(
        stage.receive(Ok(rows)),
        ResponseBody::Success(Some(StatesRespones { tatol: 150, issued: 35, waitly: 115, recycle: 8 }))
    );
}

#[test]
fn statistics_of_all_agents_without_recycle() {
    let (stage, _) = StatsAwaitTotal::start(&req(""), "u");
    let (stage, plan) = stage.receive(Ok(vec![10])).ok().unwrap();
    assert_eq!(
        plan.statement,
        "SELECT (issue_info->'t_obj'->'issue_info') from quota_delivery where $1 !='' AND cloud_user_id = $2"
    );
    assert_eq!(plan.params, vec!["aid", "u"]);
    let (stage, plan) = stage.receive(Ok(vec![vec![vec![2, 5]]]), true).ok().unwrap();
    assert_eq!(
        plan.statement,
        "SELECT value from quota_admin where type = $1 AND cloud_user_id = $2"
    );
    assert_eq!(plan.params, vec!["withdraw", "u"]);
    assert_eq!(
        stage.receive(Ok(vec![])),
        ResponseBody::Success(Some(StatesRespones { tatol: 10, issued: 10, waitly: 0, recycle: 0 }))
    );
}

#[test]
fn statistics_refuse_more_issued_than_delivered() {
    let (stage, _) = StatsAwaitTotal::start(&req("agent01"), "u");
    let (stage, _) = stage.receive(Ok(vec![10])).ok().unwrap();
    let (stage, _) = stage.receive(Ok(vec![vec![vec![3, 4]]]), true).ok().unwrap();
    assert_eq!(stage.receive(Ok(vec![1])), ResponseBody::JsonParseError);
}

#[test]
fn statistics_stop_on_missing_rows() {
    let (stage, _) = StatsAwaitTotal::start(&req("agent01"), "u");
    assert!(matches!(stage.receive(Ok(vec![])), Err(ResponseBody::DatabaseBuildError)));
    let (stage, _) = StatsAwaitTotal::start(&req("agent01"), "u");
    let (stage, _) = stage.receive(Ok(vec![1])).ok().unwrap();
    assert!(matches!(stage.receive(Ok(vec![]), true), Err(ResponseBody::DatabaseBuildError)));
}

#[test]
fn statistics_stop_on_database_errors() {
    let (stage, _) = StatsAwaitTotal::start(&req("agent01"), "u");
    match stage.receive(Err("e1".to_string())) {
        Err(ResponseBody::DatabaseRunningError(Some(m))) => assert_eq!(m, "e1"),
        _ => panic!("wrong reply"),
    }
    let (stage, _) = StatsAwaitTotal::start(&req("agent01"), "u");
    let (stage, _) = stage.receive(Ok(vec![1])).ok().unwrap();
    match stage.receive(Err("e2".to_string()), true) {
        Err(ResponseBody::DatabaseRunningError(Some(m))) => assert_eq!(m, "e2"),
        _ => panic!("wrong reply"),
    }
    let (stage, _) = StatsAwaitTotal::start(&req("agent01"), "u");
    let (stage, _) = stage.receive(Ok(vec![1])).ok().unwrap();
    let (stage, _) = stage.receive(Ok(vec![vec![]]), true).ok().unwrap();
    assert_eq!(
        stage.receive(Err("e3".to_string())),
        ResponseBody::DatabaseRunningError(Some("e3".to_string()))
    );
}

#[test]
fn statistics_detect_overflow() {
    let (stage, _) = StatsAwaitTotal::start(&req("agent01"), "u");
    let (stage, _) = stage.receive(Ok(vec![i64::MAX])).ok().unwrap();
    let (stage, _) = stage.receive(Ok(vec![vec![vec![-1, 1]]]), true).ok().unwrap();
    // tatol - issued would overflow
    assert!(!stage.completes(&vec![]));
    let (stage, _) = StatsAwaitTotal::start(&req("agent01"), "u");
    let (stage, _) = stage.receive(Ok(vec![1])).ok().unwrap();
    let (stage, _) = stage.receive(Ok(vec![vec![vec![1, 1]]]), true).ok().unwrap();
    assert!(!stage.completes(&vec![i64::MAX, 1]));
    assert!(stage.completes(&vec![i64::MAX]));
}

#[test]
fn statistics_need_readable_issue_rows() {
    let (stage, _) = StatsAwaitTotal::start(&req("agent01"), "u");
    let (stage, _) = stage.receive(Ok(vec![5])).ok().unwrap();
    let (stage, _) = stage.receive(Ok(vec![vec![]]), false).ok().unwrap();
    assert!(!stage.issued_readable);
    assert!(!stage.completes(&vec![]));
    // a query error still ends the request with its message
    assert_eq!(
        stage.receive(Err("e".to_string())),
        ResponseBody::DatabaseRunningError(Some("e".to_string()))
    );
}
