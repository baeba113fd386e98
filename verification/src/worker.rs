//! Slow calls, made off the event loop.
//!
//! A job is a series of requests to the daemon. What is reported of it goes out
//! before the call that it is about, so that a user sees what they are waiting
//! for.

use vstd::prelude::*;

use crate::proto::{Request, RequestView, Response};
use crate::text::views;

verus! {

/// What kind of work was done.
#[derive(Debug, Clone, Copy, PartialEq, Eq, Structural)]
pub enum JobKind {
    Refresh,
    Trade,
}

/// Work to do.
#[derive(Debug, Clone)]
pub enum Job {
    /// Refresh these tickers, one request each.
    Refresh { tickers: Vec<String> },
    /// A buy or sell.
    Trade { request: Request, label: String },
}

/// A [`Job`] with its texts as sequences.
#[verifier::ext_equal]
pub enum JobView {
    Refresh { tickers: Seq<Seq<char>> },
    Trade { request: RequestView, label: Seq<char> },
}

impl View for Job {
    type V = JobView;

    open spec fn view(&self) -> JobView {
        match *self {
            Job::Refresh { tickers } => JobView::Refresh { tickers: views(tickers@) },
            Job::Trade { request, label } => JobView::Trade { request: request@, label: label@ },
        }
    }
}

/// What is reported of a job.
#[derive(Debug, Clone)]
pub enum Update {
    Started { label: String, total: usize },
    /// `done` items are finished; `current` is the one now in flight.
    Progress { done: usize, current: String },
    Finished { kind: JobKind, ok: usize, failed: Vec<String> },
    /// The connection broke. No job is done after this.
    Disconnected { message: String },
}

/// An [`Update`] with its texts as sequences.
#[verifier::ext_equal]
pub enum UpdateView {
    Started { label: Seq<char>, total: nat },
    Progress { done: nat, current: Seq<char> },
    Finished { kind: JobKind, ok: nat, failed: Seq<Seq<char>> },
    Disconnected { message: Seq<char> },
}

impl View for Update {
    type V = UpdateView;

    open spec fn view(&self) -> UpdateView {
        match *self {
            Update::Started { label, total } => UpdateView::Started {
                label: label@,
                total: total as nat,
            },
            Update::Progress { done, current } => UpdateView::Progress {
                done: done as nat,
                current: current@,
            },
            Update::Finished { kind, ok, failed } => UpdateView::Finished {
                kind,
                ok: ok as nat,
                failed: views(failed@),
            },
            Update::Disconnected { message } => UpdateView::Disconnected { message: message@ },
        }
    }
}

/// The views of the updates.
pub open spec fn update_views(updates: Seq<Update>) -> Seq<UpdateView> {
    updates.map_values(|u: Update| u@)
}

/// A job under way.
#[derive(Debug, Clone)]
pub enum JobRun {
    /// Waiting for the answer on the ticker it is at.
    Refresh { tickers: Vec<String>, at: usize, ok: usize, failed: Vec<String> },
    /// Waiting for the answer to a trade.
    Trade,
}

/// A [`JobRun`] with its texts as sequences.
#[verifier::ext_equal]
pub enum JobRunView {
    Refresh { tickers: Seq<Seq<char>>, at: nat, ok: nat, failed: Seq<Seq<char>> },
    Trade,
}

impl View for JobRun {
    type V = JobRunView;

    open spec fn view(&self) -> JobRunView {
        match *self {
            JobRun::Refresh { tickers, at, ok, failed } => JobRunView::Refresh {
                tickers: views(tickers@),
                at: at as nat,
                ok: ok as nat,
                failed: views(failed@),
            },
            JobRun::Trade => JobRunView::Trade,
        }
    }
}

/// What to do next for a job, after reporting the updates.
#[derive(Debug, Clone)]
pub enum JobStep {
    /// Send a request, and go on from its answer.
    Call { updates: Vec<Update>, request: Request, run: JobRun },
    /// Nothing; the job is done, or the connection is gone and no other job
    /// can be done either.
    End { updates: Vec<Update>, connected: bool },
}

/// A [`JobStep`] with its texts as sequences.
#[verifier::ext_equal]
pub enum JobStepView {
    Call { updates: Seq<UpdateView>, request: RequestView, run: JobRunView },
    End { updates: Seq<UpdateView>, connected: bool },
}

impl View for JobStep {
    type V = JobStepView;

    open spec fn view(&self) -> JobStepView {
        match *self {
            JobStep::Call { updates, request, run } => JobStepView::Call {
                updates: update_views(updates@),
                request: request@,
                run: run@,
            },
            JobStep::End { updates, connected } => JobStepView::End {
                updates: update_views(updates@),
                connected,
            },
        }
    }
}

/// What a refresh does at a ticker: asks for it, or ends where there is none.
pub open spec fn refresh_from(
    updates: Seq<UpdateView>,
    tickers: Seq<Seq<char>>,
    at: nat,
    ok: nat,
    failed: Seq<Seq<char>>,
) -> JobStepView {
    if at < tickers.len() {
        let ticker = tickers[at as int];
        JobStepView::Call {
            updates: updates.push(UpdateView::Progress { done: at, current: ticker }),
            request: RequestView::RefreshTicker { ticker },
            run: JobRunView::Refresh { tickers, at, ok, failed },
        }
    } else {
        JobStepView::End {
            updates: updates.push(UpdateView::Finished { kind: JobKind::Refresh, ok, failed }),
            connected: true,
        }
    }
}

/// How a job starts.
pub open spec fn started(job: JobView) -> JobStepView {
    match job {
        JobView::Refresh { tickers } => refresh_from(
            seq![UpdateView::Started { label: "Refreshing"@, total: tickers.len() }],
            tickers,
            0,
            0,
            seq![],
        ),
        JobView::Trade { request, label } => JobStepView::Call {
            updates: seq![
                UpdateView::Started { label, total: 1 },
                UpdateView::Progress { done: 0, current: label },
            ],
            request,
            run: JobRunView::Trade,
        },
    }
}

/// What a response to a request that asks for nothing back says went wrong.
pub open spec fn response_problem(r: Response) -> Option<Seq<char>> {
    match r {
        Response::Done => None,
        Response::Error { message } => Some(message@),
        _ => Some("unexpected response"@),
    }
}

impl JobRunView {
    /// Whether a refresh is at one of its tickers, and those before it are
    /// accounted for.
    pub open spec fn under_way(self) -> bool {
        self matches JobRunView::Refresh { tickers, at, ok, failed } ==> at < tickers.len() && ok
            + failed.len() == at
    }

    /// What follows once the daemon has answered, or the connection broke.
    pub open spec fn answered(self, result: Result<Response, String>) -> JobStepView {
        match result {
            Err(e) => JobStepView::End {
                updates: seq![UpdateView::Disconnected { message: e@ }],
                connected: false,
            },
            Ok(response) => match self {
                JobRunView::Refresh { tickers, at, ok, failed } => match response_problem(
                    response,
                ) {
                    None => refresh_from(seq![], tickers, at + 1, ok + 1, failed),
                    Some(e) => refresh_from(
                        seq![],
                        tickers,
                        at + 1,
                        ok,
                        failed.push(tickers[at as int] + ": "@ + e),
                    ),
                },
                JobRunView::Trade => JobStepView::End {
                    updates: seq![
                        match response_problem(response) {
                            None => UpdateView::Finished {
                                kind: JobKind::Trade,
                                ok: 1,
                                failed: seq![],
                            },
                            Some(e) => UpdateView::Finished {
                                kind: JobKind::Trade,
                                ok: 0,
                                failed: seq![e],
                            },
                        },
                    ],
                    connected: true,
                },
            },
        }
    }
}

fn go_on(
    updates: Vec<Update>,
    tickers: Vec<String>,
    at: usize,
    ok: usize,
    failed: Vec<String>,
) -> (step: JobStep)
    ensures
        step@ == refresh_from(
            update_views(updates@),
            views(tickers@),
            at as nat,
            ok as nat,
            views(failed@),
        ),
{
    let mut out = updates;
    let ghost was = update_views(updates@);
    assert(views(tickers@).len() == tickers@.len());
    if at < tickers.len() {
        let ticker = tickers[at].clone();
        assert(views(tickers@)[at as int] == ticker@);
        let update = Update::Progress { done: at, current: ticker.clone() };
        let ghost u = update@;
        out.push(update);
        assert(update_views(out@) =~= was.push(u));
        JobStep::Call {
            updates: out,
            request: Request::RefreshTicker { ticker },
            run: JobRun::Refresh { tickers, at, ok, failed },
        }
    } else {
        let update = Update::Finished { kind: JobKind::Refresh, ok, failed };
        let ghost u = update@;
        out.push(update);
        assert(update_views(out@) =~= was.push(u));
        JobStep::End { updates: out, connected: true }
    }
}

/// Starts a job.
pub fn run_job(job: Job) -> (step: JobStep)
    ensures
        step@ == started(job@),
{
    let mut updates: Vec<Update> = Vec::new();
    match job {
        Job::Refresh { tickers } => {
            let total: usize = tickers.len();
            updates.push(Update::Started { label: "Refreshing".to_owned(), total });
            assert(update_views(updates@) =~= seq![
                UpdateView::Started { label: "Refreshing"@, total: total as nat },
            ]);
            let failed: Vec<String> = Vec::new();
            assert(views(failed@) =~= seq![]);
            go_on(updates, tickers, 0, 0, failed)
        },
        Job::Trade { request, label } => {
            updates.push(Update::Started { label: label.clone(), total: 1 });
            updates.push(Update::Progress { done: 0, current: label });
            assert(update_views(updates@) =~= seq![
                UpdateView::Started { label: label@, total: 1 },
                UpdateView::Progress { done: 0, current: label@ },
            ]);
            JobStep::Call { updates, request, run: JobRun::Trade }
        },
    }
}

fn problem(response: Response) -> (trouble: Option<String>)
    ensures
        match trouble {
            Some(t) => response_problem(response) == Some(t@),
            None => response_problem(response) is None,
        },
{
    match response {
        Response::Done => None,
        Response::Error { message } => Some(message),
        _ => Some("unexpected response".to_owned()),
    }
}

impl JobRun {
    /// Goes on from the daemon's answer. Where the connection broke it is in an
    /// unknown state and not used again.
    pub fn answer(self, result: Result<Response, String>) -> (step: JobStep)
        requires
            self@.under_way(),
        ensures
            step@ == self@.answered(result),
    {
        let mut updates: Vec<Update> = Vec::new();
        assert(update_views(updates@) =~= seq![]);
        let response = match result {
            Err(e) => {
                updates.push(Update::Disconnected { message: e });
                assert(update_views(updates@) =~= seq![
                    UpdateView::Disconnected { message: e@ },
                ]);
                return JobStep::End { updates, connected: false };
            },
            Ok(response) => response,
        };
        let trouble = problem(response);
        match self {
            JobRun::Refresh { tickers, at, ok, failed } => {
                assert(views(tickers@).len() == tickers@.len());
                assert(views(failed@).len() == failed@.len());
                let total: usize = tickers.len();
                assert(at < total);
                match trouble {
                    None => go_on(updates, tickers, at + 1, ok + 1, failed),
                    Some(e) => {
                        let ghost was = views(failed@);
                        let mut failed = failed;
                        let mut message = tickers[at].clone();
                        assert(views(tickers@)[at as int] == message@);
                        message.append(": ");
                        message.append(e.as_str());
                        let ghost m = message@;
                        failed.push(message);
                        assert(views(failed@) =~= was.push(m));
                        go_on(updates, tickers, at + 1, ok, failed)
                    },
                }
            },
            JobRun::Trade => {
                let mut failed: Vec<String> = Vec::new();
                let mut ok: usize = 1;
                match trouble {
                    None => {
                        assert(views(failed@) =~= seq![]);
                    },
                    Some(e) => {
                        ok = 0;
                        let ghost m = e@;
                        failed.push(e);
                        assert(views(failed@) =~= seq![m]);
                    },
                }
                let update = Update::Finished { kind: JobKind::Trade, ok, failed };
                let ghost u = update@;
                updates.push(update);
                assert(update_views(updates@) =~= seq![u]);
                JobStep::End { updates, connected: true }
            },
        }
    }
}

/// A job that starts is under way, and stays so from call to call.
pub proof fn runs_stay_under_way(job: JobView, run: JobRunView, result: Result<Response, String>)
    ensures
        started(job) matches JobStepView::Call { run: first, .. } ==> first.under_way(),
        run.under_way() ==> (run.answered(result) matches JobStepView::Call { run: next, .. }
            ==> next.under_way()),
{
}

/// A refresh that ends with the connection standing accounts for every ticker:
/// it was refreshed or it failed.
pub proof fn refreshes_account_for_every_ticker(
    tickers: Seq<Seq<char>>,
    at: nat,
    ok: nat,
    failed: Seq<Seq<char>>,
    result: Result<Response, String>,
)
    requires
        (JobRunView::Refresh { tickers, at, ok, failed }).under_way(),
    ensures
        match (JobRunView::Refresh { tickers, at, ok, failed }).answered(result) {
            JobStepView::End { updates, connected: true } => updates.last() matches UpdateView::Finished {
                kind: JobKind::Refresh,
                ok: n,
                failed: f,
            } && n + f.len() == tickers.len(),
            _ => true,
        },
{
}

/// A trade's job sends its request and no other, and tells what came of it: one
/// done where the daemon did it, else the daemon's words.
pub proof fn trades_are_sent_as_they_are(
    request: RequestView,
    label: Seq<char>,
    response: Response,
)
    ensures
        started(JobView::Trade { request, label }) matches JobStepView::Call {
            request: sent,
            run,
            ..
        } && sent == request && run == JobRunView::Trade,
        JobRunView::Trade.answered(Ok(response)) matches JobStepView::End {
            updates,
            connected,
        } && connected && updates.len() == 1 && match updates[0] {
            UpdateView::Finished { kind, ok, failed } => kind == JobKind::Trade && (ok == 1
                && failed.len() == 0 <==> response is Done) && (response matches Response::Error {
                message,
            } ==> ok == 0 && failed == seq![message@]),
            _ => false,
        },
{
    assert(JobRunView::Trade.answered(Ok(response))->End_updates.len() == 1);
}

/// A refresh asks for one ticker after another, from the first to the last, and
/// reports each before it is asked for; what the daemon answers on one counts
/// for that one.
pub proof fn refreshes_ask_for_each_ticker(
    tickers: Seq<Seq<char>>,
    at: nat,
    ok: nat,
    failed: Seq<Seq<char>>,
    response: Response,
)
    requires
        at < tickers.len(),
    ensures
        started(JobView::Refresh { tickers }) matches JobStepView::Call { request, updates, run }
            && request == (RequestView::RefreshTicker { ticker: tickers[0] }) && updates.len() == 2
            && updates[1] == (UpdateView::Progress { done: 0, current: tickers[0] }) && run == (
        JobRunView::Refresh { tickers, at: 0, ok: 0, failed: seq![] }),
        match (JobRunView::Refresh { tickers, at, ok, failed }).answered(Ok(response)) {
            JobStepView::Call { request, updates, run } => {
                &&& at + 1 < tickers.len()
                &&& request == (RequestView::RefreshTicker { ticker: tickers[at as int + 1] })
                &&& updates == seq![
                    UpdateView::Progress { done: at + 1, current: tickers[at as int + 1] },
                ]
                &&& run matches JobRunView::Refresh { tickers: t, at: a, ok: o, failed: f } && t
                    == tickers && a == at + 1 && (response is Done ==> o == ok + 1 && f == failed)
                    && (response matches Response::Error { message } ==> o == ok && f
                    == failed.push(tickers[at as int] + ": "@ + message@))
            },
            JobStepView::End { updates, connected } => {
                &&& at + 1 == tickers.len()
                &&& connected
                &&& updates.len() == 1
                &&& updates[0] matches UpdateView::Finished { kind, ok: o, failed: f } && kind
                    == JobKind::Refresh && (response is Done ==> o == ok + 1 && f == failed) && (
                response matches Response::Error { message } ==> o == ok && f == failed.push(
                    tickers[at as int] + ": "@ + message@,
                ))
            },
        },
{
    let one = seq![UpdateView::Started { label: "Refreshing"@, total: tickers.len() }];
    let two = one.push(UpdateView::Progress { done: 0, current: tickers[0] });
    assert(two.len() == 2 && two[1] == (UpdateView::Progress { done: 0, current: tickers[0] }));
    let none = Seq::<UpdateView>::empty();
    if at + 1 < tickers.len() {
        let p = UpdateView::Progress { done: at + 1, current: tickers[at as int + 1] };
        assert(none.push(p) =~= seq![p]);
    }
}

/// Where the connection breaks, the job ends and no other is done; the words it
/// broke with are told.
pub proof fn broken_connections_end_the_work(run: JobRunView, e: String)
    ensures
        run.answered(Err(e)) == (JobStepView::End {
            updates: seq![UpdateView::Disconnected { message: e@ }],
            connected: false,
        }),
{
}

/// The laws on jobs hold of what the worker does: of the step that [`run_job`]
/// begins with, and of every step that a reply leads to.
pub proof fn laws_hold_of_every_step(
    job: Job,
    run: JobRun,
    result: Result<Response, String>,
    step: JobStep,
)
    ensures
        call_ensures(run_job, (job,), step) ==> step@ == started(job@),
        call_ensures(JobRun::answer, (run, result), step) ==> step@ == run@.answered(result),
{
}

} // verus!
