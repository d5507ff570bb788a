//! Quota approval and quota statistics.
//!
//! Statistics are gathered in three database queries; the caller runs each
//! query that a stage hands out and gives the stage the rows it got back. A
//! stage either hands out the next query or ends the request with a reply.

use crate::response::ResponseBody;
use crate::statistics::amounts_fit;
use crate::statistics::amounts_fit_check;
use crate::statistics::in_i64;
use crate::statistics::issued_total;
use crate::statistics::sum_of_issued;
use crate::statistics::sum_of_values;
use crate::statistics::sum_values;
use crate::statistics::values_fit;
use crate::statistics::values_fit_check;
use crate::text::str_eq;
use vstd::prelude::*;
use vstd::utf8::encode_utf8;

verus! {

/// A request to set the state of an agent's quota.
pub struct QuotaApproveRequest {
    pub aid: String,
    pub extra: serde_json::Value,
    pub state: String,
}

/// The states that an approval may set.
pub open spec fn is_approval_state(s: Seq<char>) -> bool {
    s == "approve"@ || s == "registe"@ || s == "deined"@
}

/// The update that an accepted approval makes.
pub struct ApprovalUpdate {
    pub extra: serde_json::Value,
    pub state: String,
    pub aid: String,
    pub user_id: String,
}

/// Whether `state` is a state that an approval may set.
pub fn approval_state_allowed(state: &str) -> (res: bool)
    ensures
        res == is_approval_state(state@),
{
    str_eq(state, "approve") || str_eq(state, "registe") || str_eq(state, "deined")
}

/// Checks an approval request of user `user_id`: a state other than
/// `approve`, `registe` or `deined` is refused; otherwise the update to run.
pub fn plan_approval(req: QuotaApproveRequest, user_id: String) -> (res: Result<
    ApprovalUpdate,
    ResponseBody<String>,
>)
    ensures
        res is Ok <==> is_approval_state(req.state@),
        res matches Err(e) ==> e == ResponseBody::<String>::JsonParseError,
        res matches Ok(u) ==> {
            &&& u.extra == req.extra
            &&& u.state == req.state
            &&& u.aid == req.aid
            &&& u.user_id == user_id
        },
{
    if !approval_state_allowed(req.state.as_str()) {
        return Err(ResponseBody::JsonParseError);
    }
    Ok(ApprovalUpdate { extra: req.extra, state: req.state, aid: req.aid, user_id })
}

/// The reply to an approval whose update the database carried out (`Ok`) or
/// refused with a message (`Err`).
pub fn approval_reply(outcome: Result<(), String>) -> (res: ResponseBody<String>)
    ensures
        outcome is Ok ==> res == ResponseBody::<String>::Success(None),
        outcome matches Err(m) ==> res == ResponseBody::<String>::DatabaseRunningError(Some(m)),
{
    match outcome {
        Ok(()) => ResponseBody::Success(None),
        Err(m) => ResponseBody::DatabaseRunningError(Some(m)),
    }
}

/// A request for quota statistics: of one agent when its id is longer than
/// five bytes, of all agents of the user otherwise.
pub struct StatesRequest {
    pub aid: String,
}

/// Quota statistics.
#[derive(Clone, Copy, Debug, PartialEq, Eq, Structural)]
pub struct StatesRespones {
    /// Sum of the values of `delivery` quotas.
    pub tatol: i64,
    /// Sum of the amounts issued.
    pub issued: i64,
    /// What is left to issue: `tatol - issued`.
    pub waitly: i64,
    /// Sum of the values of `withdraw` quotas.
    pub recycle: i64,
}

/// Whose quotas the statistics cover.
#[derive(Clone, Copy, Debug, PartialEq, Eq, Structural)]
pub enum StatsScope {
    /// The agent named in the request.
    OneAgent,
    /// Every agent of the user.
    AllAgents,
}

/// The scope for the agent id `aid`: one agent when its UTF-8 text is longer
/// than five bytes.
pub open spec fn scope_for(aid: Seq<char>) -> StatsScope {
    if encode_utf8(aid).len() > 5 {
        StatsScope::OneAgent
    } else {
        StatsScope::AllAgents
    }
}

/// A database query: a statement and its text parameters, in order.
pub struct QueryPlan {
    pub statement: String,
    pub params: Vec<String>,
}

impl View for QueryPlan {
    type V = (Seq<char>, Seq<Seq<char>>);

    open spec fn view(&self) -> (Seq<char>, Seq<Seq<char>>) {
        (self.statement@, self.params@.map_values(|p: String| p@))
    }
}

/// The query for the values of `delivery` quotas.
pub open spec fn total_plan(scope: StatsScope, aid: Seq<char>, user: Seq<char>) -> (Seq<char>, Seq<Seq<char>>) {
    match scope {
        StatsScope::OneAgent => (
            "SELECT value from quota_admin where aid = $1 AND type = $2 AND cloud_user_id = $3"@,
            seq![aid, "delivery"@, user],
        ),
        StatsScope::AllAgents => (
            "SELECT value from quota_admin where type = $1 AND cloud_user_id = $2"@,
            seq!["delivery"@, user],
        ),
    }
}

/// The query for the issue entries of deliveries.
pub open spec fn issued_plan(scope: StatsScope, aid: Seq<char>, user: Seq<char>) -> (Seq<char>, Seq<Seq<char>>) {
    match scope {
        StatsScope::OneAgent => (
            "SELECT (issue_info->'t_obj'->'issue_info') from quota_delivery where aid = $1 and cloud_user_id = $2"@,
            seq![aid, user],
        ),
        StatsScope::AllAgents => (
            "SELECT (issue_info->'t_obj'->'issue_info') from quota_delivery where $1 !='' AND cloud_user_id = $2"@,
            seq!["aid"@, user],
        ),
    }
}

/// The query for the values of `withdraw` quotas.
pub open spec fn recycle_plan(scope: StatsScope, aid: Seq<char>, user: Seq<char>) -> (Seq<char>, Seq<Seq<char>>) {
    match scope {
        StatsScope::OneAgent => (
            "SELECT value from quota_admin where aid = $1 AND type = $2 AND cloud_user_id = $3"@,
            seq![aid, "withdraw"@, user],
        ),
        StatsScope::AllAgents => (
            "SELECT value from quota_admin where type = $1 AND cloud_user_id = $2"@,
            seq!["withdraw"@, user],
        ),
    }
}

/// Whether the sums of the statistics stay within `i64` all along, the
/// difference `tatol - issued` included where it is taken.
pub open spec fn statistics_computable(
    total: Seq<i64>,
    issued: Seq<Seq<Seq<i64>>>,
    recycle: Seq<i64>,
) -> bool {
    &&& values_fit(total)
    &&& values_fit(recycle)
    &&& amounts_fit(issued)
    &&& sum_values(total) >= issued_total(issued) ==> in_i64(
        sum_values(total) - issued_total(issued),
    )
}

/// The reply to a statistics request whose three queries gave `total`,
/// `issued` and `recycle`: refused when more was issued than delivered.
pub open spec fn statistics_reply(
    total: Seq<i64>,
    issued: Seq<Seq<Seq<i64>>>,
    recycle: Seq<i64>,
) -> ResponseBody<StatesRespones> {
    let t = sum_values(total);
    let i = issued_total(issued);
    if t >= i {
        ResponseBody::Success(
            Some(
                StatesRespones {
                    tatol: t as i64,
                    issued: i as i64,
                    waitly: (t - i) as i64,
                    recycle: sum_values(recycle) as i64,
                },
            ),
        )
    } else {
        ResponseBody::JsonParseError
    }
}

fn make_plan(statement: &str, params: Vec<String>) -> (res: QueryPlan)
    ensures
        res.statement@ == statement@,
        res.params@ == params@,
{
    QueryPlan { statement: statement.to_owned(), params }
}

fn scoped_plan(
    scope: StatsScope,
    one: &str,
    all: &str,
    kind: &str,
    aid: &String,
    user_id: &String,
) -> (res: QueryPlan)
    ensures
        scope == StatsScope::OneAgent ==> res@ == (one@, seq![aid@, kind@, user_id@]),
        scope == StatsScope::AllAgents ==> res@ == (all@, seq![kind@, user_id@]),
{
    match scope {
        StatsScope::OneAgent => {
            let p = make_plan(one, vec![aid.clone(), kind.to_owned(), user_id.clone()]);
            assert(p@.1 =~= seq![aid@, kind@, user_id@]);
            p
        },
        StatsScope::AllAgents => {
            let p = make_plan(all, vec![kind.to_owned(), user_id.clone()]);
            assert(p@.1 =~= seq![kind@, user_id@]);
            p
        },
    }
}

/// The first stage of a statistics request: waiting for the `delivery` values.
pub struct StatsAwaitTotal {
    pub scope: StatsScope,
    pub aid: String,
    pub user_id: String,
}

/// The second stage: waiting for the issue entries.
pub struct StatsAwaitIssued {
    pub scope: StatsScope,
    pub aid: String,
    pub user_id: String,
    pub total: Vec<i64>,
}

/// The last stage: waiting for the `withdraw` values.
pub struct StatsAwaitRecycle {
    pub scope: StatsScope,
    pub aid: String,
    pub user_id: String,
    pub total: Vec<i64>,
    pub issued: Vec<Vec<Vec<i64>>>,
    /// Whether every issue row held a list of lists of numbers.
    pub issued_readable: bool,
}

impl StatsAwaitTotal {
    /// Starts a statistics request of user `user_id`: picks the scope and hands
    /// out the query for the `delivery` values.
    pub fn start(req: &StatesRequest, user_id: &str) -> (res: (StatsAwaitTotal, QueryPlan))
        ensures
            res.0.scope == scope_for(req.aid@),
            res.0.aid@ == req.aid@,
            res.0.user_id@ == user_id@,
            res.1@ == total_plan(res.0.scope, req.aid@, user_id@),
    {
        let scope = if req.aid.as_str().as_bytes().len() > 5 {
            StatsScope::OneAgent
        } else {
            StatsScope::AllAgents
        };
        let stage = StatsAwaitTotal { scope, aid: req.aid.clone(), user_id: user_id.to_owned() };
        let plan = scoped_plan(
            scope,
            "SELECT value from quota_admin where aid = $1 AND type = $2 AND cloud_user_id = $3",
            "SELECT value from quota_admin where type = $1 AND cloud_user_id = $2",
            "delivery",
            &stage.aid,
            &stage.user_id,
        );
        (stage, plan)
    }

    /// Takes the `delivery` values (or the database's error): an error or no
    /// row at all ends the request; otherwise hands out the query for the
    /// issue entries.
    pub fn receive(self, rows: Result<Vec<i64>, String>) -> (res: Result<
        (StatsAwaitIssued, QueryPlan),
        ResponseBody<StatesRespones>,
    >)
        ensures
            match rows {
                Err(m) => res == Err::<(StatsAwaitIssued, QueryPlan), _>(
                    ResponseBody::<StatesRespones>::DatabaseRunningError(Some(m)),
                ),
                Ok(v) => if v@.len() == 0 {
                    res == Err::<(StatsAwaitIssued, QueryPlan), _>(
                        ResponseBody::<StatesRespones>::DatabaseBuildError,
                    )
                } else {
                    &&& res is Ok
                    &&& res->Ok_0.0.scope == self.scope
                    &&& res->Ok_0.0.aid == self.aid
                    &&& res->Ok_0.0.user_id == self.user_id
                    &&& res->Ok_0.0.total == v
                    &&& res->Ok_0.1@ == issued_plan(self.scope, self.aid@, self.user_id@)
                },
            },
    {
        match rows {
            Err(m) => Err(ResponseBody::DatabaseRunningError(Some(m))),
            Ok(v) => {
                if v.len() == 0 {
                    return Err(ResponseBody::DatabaseBuildError);
                }
                let plan = match self.scope {
                    StatsScope::OneAgent => {
                        let p = make_plan(
                            "SELECT (issue_info->'t_obj'->'issue_info') from quota_delivery where aid = $1 and cloud_user_id = $2",
                            vec![self.aid.clone(), self.user_id.clone()],
                        );
                        assert(p@.1 =~= seq![self.aid@, self.user_id@]);
                        p
                    },
                    StatsScope::AllAgents => {
                        let p = make_plan(
                            "SELECT (issue_info->'t_obj'->'issue_info') from quota_delivery where $1 !='' AND cloud_user_id = $2",
                            vec!["aid".to_owned(), self.user_id.clone()],
                        );
                        assert(p@.1 =~= seq!["aid"@, self.user_id@]);
                        p
                    },
                };
                Ok((StatsAwaitIssued { scope: self.scope, aid: self.aid, user_id: self.user_id, total: v }, plan))
            },
        }
    }
}

impl StatsAwaitIssued {
    /// Takes the issue entries of each delivery row (or the database's error):
    /// an error or no row at all ends the request; otherwise hands out the
    /// query for the `withdraw` values. `readable` tells whether every row held
    /// a list of lists of numbers; a row that did not stands in `rows` as an
    /// empty list.
    pub fn receive(self, rows: Result<Vec<Vec<Vec<i64>>>, String>, readable: bool) -> (res: Result<
        (StatsAwaitRecycle, QueryPlan),
        ResponseBody<StatesRespones>,
    >)
        ensures
            match rows {
                Err(m) => res == Err::<(StatsAwaitRecycle, QueryPlan), _>(
                    ResponseBody::<StatesRespones>::DatabaseRunningError(Some(m)),
                ),
                Ok(v) => if v@.len() == 0 {
                    res == Err::<(StatsAwaitRecycle, QueryPlan), _>(
                        ResponseBody::<StatesRespones>::DatabaseBuildError,
                    )
                } else {
                    &&& res is Ok
                    &&& res->Ok_0.0.scope == self.scope
                    &&& res->Ok_0.0.aid == self.aid
                    &&& res->Ok_0.0.user_id == self.user_id
                    &&& res->Ok_0.0.total == self.total
                    &&& res->Ok_0.0.issued == v
                    &&& res->Ok_0.0.issued_readable == readable
                    &&& res->Ok_0.1@ == recycle_plan(self.scope, self.aid@, self.user_id@)
                },
            },
    {
        match rows {
            Err(m) => Err(ResponseBody::DatabaseRunningError(Some(m))),
            Ok(v) => {
                if v.len() == 0 {
                    return Err(ResponseBody::DatabaseBuildError);
                }
                let plan = scoped_plan(
                    self.scope,
                    "SELECT value from quota_admin where aid = $1 AND type = $2 AND cloud_user_id = $3",
                    "SELECT value from quota_admin where type = $1 AND cloud_user_id = $2",
                    "withdraw",
                    &self.aid,
                    &self.user_id,
                );
                Ok(
                    (
                        StatsAwaitRecycle {
                            scope: self.scope,
                            aid: self.aid,
                            user_id: self.user_id,
                            total: self.total,
                            issued: v,
                            issued_readable: readable,
                        },
                        plan,
                    ),
                )
            },
        }
    }
}

impl StatsAwaitRecycle {
    /// Whether the statistics of this stage's rows and the `withdraw` values
    /// `rows` can be taken: every issue row was readable and the sums stay
    /// within `i64`.
    pub fn completes(&self, rows: &Vec<i64>) -> (res: bool)
        ensures
            res == (self.issued_readable && statistics_computable(
                self.total@,
                self.issued.deep_view(),
                rows@,
            )),
    {
        if !self.issued_readable || !values_fit_check(&self.total) || !values_fit_check(rows) || !amounts_fit_check(
            &self.issued,
        ) {
            return false;
        }
        let t = sum_of_values(&self.total);
        let i = sum_of_issued(&self.issued);
        if t >= i {
            let d: i128 = t as i128 - i as i128;
            d <= i64::MAX as i128
        } else {
            true
        }
    }

    /// Takes the `withdraw` values (or the database's error) and ends the
    /// request: with the error, or with the statistics of all three queries.
    /// No `withdraw` value at all counts as zero.
    pub fn receive(self, rows: Result<Vec<i64>, String>) -> (res: ResponseBody<StatesRespones>)
        requires
            rows matches Ok(v) ==> self.issued_readable && statistics_computable(
                self.total@,
                self.issued.deep_view(),
                v@,
            ),
        ensures
            match rows {
                Err(m) => res == ResponseBody::<StatesRespones>::DatabaseRunningError(Some(m)),
                Ok(v) => res == statistics_reply(self.total@, self.issued.deep_view(), v@),
            },
    {
        match rows {
            Err(m) => ResponseBody::DatabaseRunningError(Some(m)),
            Ok(v) => {
                let tatol = sum_of_values(&self.total);
                let recycle = sum_of_values(&v);
                let issued = sum_of_issued(&self.issued);
                if tatol >= issued {
                    ResponseBody::Success(
                        Some(StatesRespones { tatol, issued, waitly: tatol - issued, recycle }),
                    )
                } else {
                    ResponseBody::JsonParseError
                }
            },
        }
    }
}

/// Law: when the sums can be taken, the statistics are a success exactly when
/// no more was issued than delivered; a success reports the sums of the rows
/// and `waitly == tatol - issued`, never negative; the other outcome is a
/// refusal of the request.
pub proof fn lemma_statistics_reply(
    total: Seq<i64>,
    issued: Seq<Seq<Seq<i64>>>,
    recycle: Seq<i64>,
)
    requires
        statistics_computable(total, issued, recycle),
    ensures
        statistics_reply(total, issued, recycle) is Success <==> sum_values(total) >= issued_total(
            issued,
        ),
        !(statistics_reply(total, issued, recycle) is Success) ==> statistics_reply(
            total,
            issued,
            recycle,
        ) == ResponseBody::<StatesRespones>::JsonParseError,
        statistics_reply(total, issued, recycle) matches ResponseBody::Success(Some(r)) ==> {
            &&& r.tatol == sum_values(total)
            &&& r.issued == issued_total(issued)
            &&& r.recycle == sum_values(recycle)
            &&& r.waitly == r.tatol - r.issued
            &&& r.waitly >= 0
        },
        sum_values(total) >= issued_total(issued) ==> (statistics_reply(
            total,
            issued,
            recycle,
        ) matches ResponseBody::Success(Some(r)) && r.tatol == sum_values(total) && r.issued
            == issued_total(issued) && r.recycle == sum_values(recycle) && r.waitly == r.tatol
            - r.issued),
{
    assert(total.take(total.len() as int) =~= total);
    assert(recycle.take(recycle.len() as int) =~= recycle);
    let a = crate::statistics::issued_amounts(issued);
    assert(a.take(a.len() as int) =~= a);
    assert(in_i64(sum_values(total.take(total.len() as int))));
    assert(in_i64(sum_values(recycle.take(recycle.len() as int))));
    assert(in_i64(crate::statistics::sum_ints(a.take(a.len() as int))));
}

/// Law: with no `withdraw` value, the statistics count nothing as recycled
/// and otherwise depend on the `delivery` values and issue entries alone.
pub proof fn lemma_statistics_without_recycle(total: Seq<i64>, issued: Seq<Seq<Seq<i64>>>)
    requires
        statistics_computable(total, issued, Seq::empty()),
    ensures
        statistics_reply(total, issued, Seq::empty()) matches ResponseBody::Success(Some(r)) ==> r.recycle
            == 0,
        statistics_reply(total, issued, Seq::empty()) is Success <==> sum_values(total)
            >= issued_total(issued),
        sum_values(total) >= issued_total(issued) ==> (statistics_reply(
            total,
            issued,
            Seq::empty(),
        ) matches ResponseBody::Success(Some(r)) && r.tatol == sum_values(total) && r.issued
            == issued_total(issued) && r.recycle == 0 && r.waitly == r.tatol - r.issued),
{
    lemma_statistics_reply(total, issued, Seq::empty());
    crate::statistics::lemma_sum_values_empty();
}

/// Whether `part` occurs in `text`.
pub open spec fn mentions(text: Seq<char>, part: Seq<char>) -> bool {
    exists|i: int| 0 <= i && i + part.len() <= text.len() && #[trigger] text.subrange(i, i + part.len()) == part
}

/// Law: the `withdraw` query is the `delivery` query of the same scope with
/// `withdraw` in place of `delivery`; one-agent queries filter on the
/// request's agent id (`aid = $1`, first parameter) and on the user (last
/// parameter); all-agent queries pass no agent id and keep the user last.
pub proof fn lemma_stats_queries(aid: Seq<char>, user: Seq<char>)
    ensures
        recycle_plan(StatsScope::OneAgent, aid, user).0 == total_plan(StatsScope::OneAgent, aid, user).0,
        recycle_plan(StatsScope::AllAgents, aid, user).0 == total_plan(StatsScope::AllAgents, aid, user).0,
        recycle_plan(StatsScope::OneAgent, aid, user).1 == total_plan(
            StatsScope::OneAgent,
            aid,
            user,
        ).1.update(1, "withdraw"@),
        recycle_plan(StatsScope::AllAgents, aid, user).1 == total_plan(
            StatsScope::AllAgents,
            aid,
            user,
        ).1.update(0, "withdraw"@),
        total_plan(StatsScope::OneAgent, aid, user).1 == seq![aid, "delivery"@, user],
        total_plan(StatsScope::AllAgents, aid, user).1 == total_plan(
            StatsScope::OneAgent,
            aid,
            user,
        ).1.drop_first(),
        issued_plan(StatsScope::OneAgent, aid, user).1 == seq![aid, user],
        issued_plan(StatsScope::AllAgents, aid, user).1 == seq!["aid"@, user],
        mentions(issued_plan(StatsScope::AllAgents, aid, user).0, "cloud_user_id = $2"@),
        mentions(total_plan(StatsScope::OneAgent, aid, user).0, "aid = $1"@),
        mentions(total_plan(StatsScope::OneAgent, aid, user).0, "type = $2"@),
        mentions(total_plan(StatsScope::OneAgent, aid, user).0, "cloud_user_id = $3"@),
        mentions(recycle_plan(StatsScope::OneAgent, aid, user).0, "aid = $1"@),
        mentions(issued_plan(StatsScope::OneAgent, aid, user).0, "aid = $1"@),
        mentions(issued_plan(StatsScope::OneAgent, aid, user).0, "cloud_user_id = $2"@),
        mentions(total_plan(StatsScope::AllAgents, aid, user).0, "type = $1"@),
        mentions(total_plan(StatsScope::AllAgents, aid, user).0, "cloud_user_id = $2"@),
        "withdraw"@ != "delivery"@,
{
    reveal_strlit("SELECT value from quota_admin where aid = $1 AND type = $2 AND cloud_user_id = $3");
    reveal_strlit("SELECT value from quota_admin where type = $1 AND cloud_user_id = $2");
    reveal_strlit("SELECT (issue_info->'t_obj'->'issue_info') from quota_delivery where aid = $1 and cloud_user_id = $2");
    reveal_strlit("aid = $1");
    reveal_strlit("type = $1");
    reveal_strlit("type = $2");
    reveal_strlit("cloud_user_id = $2");
    reveal_strlit("cloud_user_id = $3");
    reveal_strlit("withdraw");
    reveal_strlit("delivery");
    let one = total_plan(StatsScope::OneAgent, aid, user).0;
    assert(one.subrange(36int, 36int + "aid = $1"@.len()) =~= "aid = $1"@);
    assert(mentions(one, "aid = $1"@));
    assert(one.subrange(49int, 49int + "type = $2"@.len()) =~= "type = $2"@);
    assert(mentions(one, "type = $2"@));
    assert(one.subrange(63int, 63int + "cloud_user_id = $3"@.len()) =~= "cloud_user_id = $3"@);
    assert(mentions(one, "cloud_user_id = $3"@));
    let all = total_plan(StatsScope::AllAgents, aid, user).0;
    assert(all.subrange(36int, 36int + "type = $1"@.len()) =~= "type = $1"@);
    assert(mentions(all, "type = $1"@));
    assert(all.subrange(50int, 50int + "cloud_user_id = $2"@.len()) =~= "cloud_user_id = $2"@);
    assert(mentions(all, "cloud_user_id = $2"@));
    let iss = issued_plan(StatsScope::OneAgent, aid, user).0;
    assert(iss.subrange(69int, 69int + "aid = $1"@.len()) =~= "aid = $1"@);
    assert(mentions(iss, "aid = $1"@));
    assert(iss.subrange(82int, 82int + "cloud_user_id = $2"@.len()) =~= "cloud_user_id = $2"@);
    assert(mentions(iss, "cloud_user_id = $2"@));
    let iss_all = issued_plan(StatsScope::AllAgents, aid, user).0;
    reveal_strlit("SELECT (issue_info->'t_obj'->'issue_info') from quota_delivery where $1 !='' AND cloud_user_id = $2");
    assert(iss_all.subrange(81int, 81int + "cloud_user_id = $2"@.len()) =~= "cloud_user_id = $2"@);
    assert(mentions(iss_all, "cloud_user_id = $2"@));
    assert(total_plan(StatsScope::AllAgents, aid, user).1 =~= total_plan(StatsScope::OneAgent, aid, user).1.drop_first());
    assert(recycle_plan(StatsScope::OneAgent, aid, user).1 =~= total_plan(StatsScope::OneAgent, aid, user).1.update(1, "withdraw"@));
    assert(recycle_plan(StatsScope::AllAgents, aid, user).1 =~= total_plan(StatsScope::AllAgents, aid, user).1.update(0, "withdraw"@));
    assert("withdraw"@[0] != "delivery"@[0]);
}

/// Law: the states an approval may set are exactly the three distinct texts
/// `approve`, `registe` and `deined`; every other text is refused.
pub proof fn lemma_approval_states(s: Seq<char>)
    ensures
        is_approval_state(s) <==> (s == "approve"@ || s == "registe"@ || s == "deined"@),
        Set::new(|t: Seq<char>| is_approval_state(t)) == set!["approve"@, "registe"@, "deined"@],
        set!["approve"@, "registe"@, "deined"@].len() == 3,
{
    reveal_strlit("approve");
    reveal_strlit("registe");
    reveal_strlit("deined");
    assert("approve"@[0] != "registe"@[0]);
    assert("approve"@.len() != "deined"@.len());
    assert("registe"@.len() != "deined"@.len());
    assert(Set::new(|t: Seq<char>| is_approval_state(t)) =~= set!["approve"@, "registe"@, "deined"@]);
    let a = set!["approve"@];
    assert(a.len() == 1) by {
        assert(a =~= Set::<Seq<char>>::empty().insert("approve"@));
    }
    assert(set!["approve"@, "registe"@] =~= a.insert("registe"@));
    assert(set!["approve"@, "registe"@, "deined"@] =~= a.insert("registe"@).insert("deined"@));
}

/// Law: an ASCII agent id selects one agent exactly when it has more than
/// five characters (so `abcde` covers every agent and `abcdef` one).
pub proof fn lemma_scope_for_ascii(aid: Seq<char>)
    requires
        vstd::utf8::is_ascii_chars(aid),
    ensures
        scope_for(aid) == StatsScope::OneAgent <==> aid.len() > 5,
        scope_for(aid) == StatsScope::AllAgents <==> aid.len() <= 5,
{
    vstd::utf8::is_ascii_chars_encode_utf8(aid);
}

} // verus!
