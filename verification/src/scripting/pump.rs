//! One round of the network pump: the reads that scripts queued are started,
//! answered probes let reads out or fail them, and finished loads settle the
//! reads that wait for them.
use crate::browser::cors::{CheckModel, CorsGrant, GrantModel, Headers, ScriptCredentials};
use crate::browser::history::{LoadError, LoadErrorModel};
use crate::browser::request::{BodyModel, ResourceResponse, ResponseModel};
use crate::browser::session::{self, Session, SessionModel};
use crate::browser::url::{Url, UrlModel};
use crate::scripting::bridge::{FetchCall, FetchModel, XhrCall, XhrModel};
use crate::scripting::natives;
use crate::scripting::network::{self, NetworkQueue, QueueModel, Start, StartModel, TaskModel};
use crate::scripting::reads::{
    self, FailureModel, InFlightModel, ProbeStep, ReadFailure, ReadStart, Reads, ReadsModel,
    SettleTarget,
};
use vstd::prelude::*;

verus! {

/// A read that ended, with what the script gets: the text, or a failure.
pub type Settlement = (SettleTarget, Result<String, ReadFailure>);

pub type SettlementModel = (SettleTarget, Result<Seq<char>, FailureModel>);

pub open spec fn settlement_model(s: Settlement) -> SettlementModel {
    match s.1 {
        Ok(text) => (s.0, Ok(text@)),
        Err(f) => (s.0, Err(f@)),
    }
}

pub open spec fn settlement_models(list: Seq<Settlement>) -> Seq<SettlementModel> {
    Seq::new(list.len(), |i: int| settlement_model(list[i]))
}

/// What a round has settled so far: fetches and XHRs apart.
#[derive(Debug)]
pub struct Round {
    pub fetches: Vec<Settlement>,
    pub xhrs: Vec<Settlement>,
}

#[verifier::ext_equal]
pub struct RoundModel {
    pub fetches: Seq<SettlementModel>,
    pub xhrs: Seq<SettlementModel>,
}

impl View for Round {
    type V = RoundModel;

    open spec fn view(&self) -> RoundModel {
        RoundModel {
            fetches: settlement_models(self.fetches@),
            xhrs: settlement_models(self.xhrs@),
        }
    }
}

impl RoundModel {
    pub open spec fn noted(self, s: SettlementModel) -> RoundModel {
        match s.0 {
            SettleTarget::Fetch(_) => RoundModel { fetches: self.fetches.push(s), ..self },
            SettleTarget::Xhr(_) => RoundModel { xhrs: self.xhrs.push(s), ..self },
        }
    }

    /// The order in which scripts see what was settled: fetches before XHRs,
    /// each in the order in which they ended.
    pub open spec fn order(self) -> Seq<SettlementModel> {
        self.fetches + self.xhrs
    }

    /// Fetches and XHRs are kept apart.
    pub open spec fn sorted(self) -> bool {
        &&& forall|i: int| 0 <= i < self.fetches.len() ==> (#[trigger] self.fetches[i]).0 is Fetch
        &&& forall|i: int| 0 <= i < self.xhrs.len() ==> (#[trigger] self.xhrs[i]).0 is Xhr
    }
}

// ---------------------------------------------------------------------------
// Starting
// ---------------------------------------------------------------------------
/// A read that a script asked for.
pub struct ReadModel {
    pub resolved: Result<UrlModel, Seq<char>>,
    pub body: BodyModel,
    pub credentials: ScriptCredentials,
    pub method: Seq<char>,
    pub headers: Headers,
    pub target: SettleTarget,
}

/// fetch() is always a plain GET without custom headers.
pub open spec fn fetch_read(call: FetchModel, resolved: Result<UrlModel, Seq<char>>) -> ReadModel {
    ReadModel {
        resolved,
        body: None,
        credentials: reads::credentials_of(call.with_credentials),
        method: "GET"@,
        headers: Seq::empty(),
        target: SettleTarget::Fetch(call.settle),
    }
}

pub open spec fn xhr_read(call: XhrModel, resolved: Result<UrlModel, Seq<char>>) -> ReadModel {
    ReadModel {
        resolved,
        body: natives::xhr_body_model(call.method, call.headers, call.body),
        credentials: reads::credentials_of(call.with_credentials),
        method: call.method,
        headers: call.headers,
        target: SettleTarget::Xhr(call.xhr),
    }
}

/// The queued fetches with what their targets resolve to.
pub open spec fn fetch_reads(list: Seq<(FetchCall, Result<Url, String>)>) -> Seq<ReadModel> {
    Seq::new(
        list.len(),
        |i: int| fetch_read(list[i].0@, reads::resolved_model(list[i].1)),
    )
}

/// The queued XHRs with what their targets resolve to.
pub open spec fn xhr_reads(list: Seq<(XhrCall, Result<Url, String>)>) -> Seq<ReadModel> {
    Seq::new(list.len(), |i: int| xhr_read(list[i].0@, reads::resolved_model(list[i].1)))
}

/// What a round works on while it starts reads.
#[verifier::ext_equal]
pub struct StartingModel {
    pub reads: ReadsModel,
    pub network: QueueModel,
    pub round: RoundModel,
    pub starts: Seq<StartModel>,
}

/// One more read started: it goes out under the next id or, where it cannot
/// be prepared, fails at once.
pub open spec fn read_started(p: StartingModel, s: SessionModel, read: ReadModel) -> StartingModel {
    match reads::read_of(
        s,
        read.resolved,
        read.body,
        read.credentials,
        read.method,
        read.headers,
    ) {
        Ok((request, check)) => {
            let id = p.network.next_id;
            let task = reads::first_task(request, check, id);
            StartingModel {
                reads: reads::submitted(p.reads, request, check, read.target, id),
                network: p.network.numbered().started(task),
                starts: p.starts.push(network::placed(p.network.executor, task)),
                ..p
            }
        },
        Err(f) => StartingModel { round: p.round.noted((read.target, Err(f))), ..p },
    }
}

/// The first `n` reads started.
pub open spec fn reads_started(
    p: StartingModel,
    s: SessionModel,
    list: Seq<ReadModel>,
    n: int,
) -> StartingModel
    decreases n,
{
    if n <= 0 {
        p
    } else {
        read_started(reads_started(p, s, list, n - 1), s, list[n - 1])
    }
}

pub open spec fn start_models(list: Seq<Start>) -> Seq<StartModel> {
    Seq::new(list.len(), |i: int| list[i]@)
}

// ---------------------------------------------------------------------------
// Answering probes
// ---------------------------------------------------------------------------
#[verifier::ext_equal]
pub struct AnsweringModel {
    pub session: SessionModel,
    pub starting: StartingModel,
}

pub open spec fn answer_models(list: Seq<(u64, Result<CorsGrant, LoadError>)>) -> Seq<
    (u64, Result<GrantModel, LoadErrorModel>),
> {
    Seq::new(list.len(), |i: int| (list[i].0, reads::answer_model(list[i].1)))
}

/// One more probe answered: a passing grant is kept and the read goes out; a
/// refused one fails the read. An answer nobody waits for changes nothing.
pub open spec fn probe_answered(
    a: AnsweringModel,
    id: u64,
    answer: Result<GrantModel, LoadErrorModel>,
) -> AnsweringModel {
    let p = a.starting;
    match reads::place_in(p.reads.preflights, id, 0) {
        None => a,
        Some(i) => {
            let pending = p.reads.preflights[i].1;
            let rest = ReadsModel { preflights: p.reads.preflights.remove(i), ..p.reads };
            if reads::granted(pending.check, answer) {
                let next = p.network.next_id;
                let check = CheckModel { preflight: None, ..pending.check };
                let task = TaskModel::Fetch { id: next, request: pending.request };
                AnsweringModel {
                    session: reads::with_grant(
                        a.session,
                        pending.check.page_origin,
                        pending.request.url,
                    ),
                    starting: StartingModel {
                        reads: reads::submitted(
                            rest,
                            pending.request,
                            Some(check),
                            pending.target,
                            next,
                        ),
                        network: p.network.numbered().started(task),
                        starts: p.starts.push(network::placed(p.network.executor, task)),
                        ..p
                    },
                }
            } else {
                AnsweringModel {
                    starting: StartingModel {
                        reads: rest,
                        round: p.round.noted((pending.target, Err(reads::refusal(answer)))),
                        ..p
                    },
                    ..a
                }
            }
        },
    }
}

pub open spec fn probes_answered(
    a: AnsweringModel,
    list: Seq<(u64, Result<GrantModel, LoadErrorModel>)>,
    n: int,
) -> AnsweringModel
    decreases n,
{
    if n <= 0 {
        a
    } else {
        probe_answered(probes_answered(a, list, n - 1), list[n - 1].0, list[n - 1].1)
    }
}

// ---------------------------------------------------------------------------
// Completing
// ---------------------------------------------------------------------------
#[verifier::ext_equal]
pub struct CompletingModel {
    pub session: SessionModel,
    pub reads: ReadsModel,
    pub round: RoundModel,
}

pub type LandedModel = (u64, Result<ResponseModel, LoadErrorModel>);

pub open spec fn landed_models(list: Seq<(u64, Result<ResourceResponse, LoadError>)>) -> Seq<
    LandedModel,
> {
    Seq::new(list.len(), |i: int| (list[i].0, reads::response_model(list[i].1)))
}

/// One more load taken in: its cookies land in the jar, each stored at its
/// own time, and the read that waits for it is settled.
pub open spec fn load_completed(
    c: CompletingModel,
    landed: LandedModel,
    times: Seq<int>,
) -> CompletingModel {
    let session = match landed.1 {
        Ok(response) => SessionModel {
            cookies: session::stored_all(
                c.session.cookies,
                response.final_url,
                response.set_cookies,
                times,
                response.set_cookies.len() as int,
            ),
            ..c.session
        },
        Err(_) => c.session,
    };
    match reads::place_in(c.reads.in_flight, landed.0, 0) {
        None => CompletingModel { session, ..c },
        Some(i) => {
            let flight = c.reads.in_flight[i].1;
            CompletingModel {
                session,
                reads: ReadsModel { in_flight: c.reads.in_flight.remove(i), ..c.reads },
                round: c.round.noted((flight.target, reads::readable_text(flight.check, landed.1))),
            }
        },
    }
}

pub open spec fn loads_completed(
    c: CompletingModel,
    list: Seq<LandedModel>,
    times: Seq<Seq<int>>,
    n: int,
) -> CompletingModel
    decreases n,
{
    if n <= 0 {
        c
    } else {
        load_completed(loads_completed(c, list, times, n - 1), list[n - 1], times[n - 1])
    }
}

proof fn lemma_loads_completed_prefix(
    c: CompletingModel,
    list: Seq<LandedModel>,
    times: Seq<Seq<int>>,
    last: Seq<int>,
    n: int,
)
    requires
        n <= times.len(),
    ensures
        loads_completed(c, list, times.push(last), n) == loads_completed(c, list, times, n),
    decreases n,
{
    if n > 0 {
        lemma_loads_completed_prefix(c, list, times, last, n - 1);
        assert(times.push(last)[n - 1] == times[n - 1]);
    }
}

impl Round {
    pub fn new() -> (r: Round)
        ensures
            r@ == (RoundModel { fetches: Seq::empty(), xhrs: Seq::empty() }),
    {
        let r = Round { fetches: Vec::new(), xhrs: Vec::new() };
        assert(r@ =~= (RoundModel { fetches: Seq::empty(), xhrs: Seq::empty() }));
        r
    }

    fn note(&mut self, settlement: Settlement)
        ensures
            final(self)@ == old(self)@.noted(settlement_model(settlement)),
    {
        let ghost before = self@;
        let ghost model = settlement_model(settlement);
        match settlement.0 {
            SettleTarget::Fetch(_) => {
                self.fetches.push(settlement);
                assert(self@.fetches =~= before.fetches.push(model));
            },
            SettleTarget::Xhr(_) => {
                self.xhrs.push(settlement);
                assert(self@.xhrs =~= before.xhrs.push(model));
            },
        }
    }

    /// Starts the reads that scripts queued, fetches before XHRs. Gives what
    /// has to be executed; a read that cannot be prepared is settled at once.
    pub fn start(
        &mut self,
        reads: &mut Reads,
        session: &Session,
        network: &mut NetworkQueue,
        fetches: Vec<(FetchCall, Result<Url, String>)>,
        xhrs: Vec<(XhrCall, Result<Url, String>)>,
    ) -> (r: Vec<Start>)
        requires
            session@.history.wf(),
            old(network)@.next_id + fetches@.len() + xhrs@.len() <= u64::MAX,
        ensures
            ({
                let list = fetch_reads(fetches@) + xhr_reads(xhrs@);
                let p = StartingModel {
                    reads: old(reads)@,
                    network: old(network)@,
                    round: old(self)@,
                    starts: Seq::empty(),
                };
                let after = reads_started(p, session@, list, list.len() as int);
                &&& final(reads)@ == after.reads
                &&& final(network)@ == after.network
                &&& final(self)@ == after.round
                &&& start_models(r@) == after.starts
            }),
    {
        let ghost list = fetch_reads(fetches@) + xhr_reads(xhrs@);
        let ghost p = StartingModel {
            reads: reads@,
            network: network@,
            round: self@,
            starts: Seq::empty(),
        };
        let mut starts: Vec<Start> = Vec::new();
        assert(start_models(starts@) =~= Seq::empty());
        let ghost fv = fetches@;
        let ghost xv = xhrs@;
        for item in it: fetches
            invariant
                session@.history.wf(),
                it.seq() == fv,
                p.network.next_id + fv.len() + xv.len() <= u64::MAX,
                network@.next_id <= p.network.next_id + it.index(),
                list == fetch_reads(fv) + xhr_reads(xv),
                reads_started(p, session@, list, it.index() as int) == (StartingModel {
                    reads: reads@,
                    network: network@,
                    round: self@,
                    starts: start_models(starts@),
                }),
        {
            let ghost i = it.index() as int;
            let ghost before = start_models(starts@);
            let (call, resolved) = item;
            assert(list[i] == fetch_read(call@, reads::resolved_model(resolved)));
            let target = SettleTarget::Fetch(call.settle);
            match reads.start_fetch(session, network, &call, resolved) {
                ReadStart::Started(start) => {
                    starts.push(start);
                    assert(start_models(starts@) =~= before.push(start@));
                },
                ReadStart::Failed(failure) => {
                    self.note((target, Err(failure)));
                },
            }
        }
        for item in it: xhrs
            invariant
                session@.history.wf(),
                it.seq() == xv,
                p.network.next_id + fv.len() + xv.len() <= u64::MAX,
                network@.next_id <= p.network.next_id + fv.len() + it.index(),
                list == fetch_reads(fv) + xhr_reads(xv),
                reads_started(p, session@, list, fv.len() + it.index()) == (StartingModel {
                    reads: reads@,
                    network: network@,
                    round: self@,
                    starts: start_models(starts@),
                }),
        {
            let ghost i = fv.len() + it.index();
            let ghost before = start_models(starts@);
            let (call, resolved) = item;
            assert(list[i] == xhr_read(call@, reads::resolved_model(resolved)));
            let target = SettleTarget::Xhr(call.xhr);
            match reads.start_xhr(session, network, &call, resolved) {
                ReadStart::Started(start) => {
                    starts.push(start);
                    assert(start_models(starts@) =~= before.push(start@));
                },
                ReadStart::Failed(failure) => {
                    self.note((target, Err(failure)));
                },
            }
        }
        starts
    }

    /// Takes the answers to preflight probes. Gives what has to be executed.
    pub fn answer(
        &mut self,
        reads: &mut Reads,
        session: &mut Session,
        network: &mut NetworkQueue,
        answers: Vec<(u64, Result<CorsGrant, LoadError>)>,
    ) -> (r: Vec<Start>)
        requires
            old(network)@.next_id + answers@.len() <= u64::MAX,
        ensures
            ({
                let a = AnsweringModel {
                    session: old(session)@,
                    starting: StartingModel {
                        reads: old(reads)@,
                        network: old(network)@,
                        round: old(self)@,
                        starts: Seq::empty(),
                    },
                };
                let after = probes_answered(a, answer_models(answers@), answers@.len() as int);
                &&& final(session)@ == after.session
                &&& final(reads)@ == after.starting.reads
                &&& final(network)@ == after.starting.network
                &&& final(self)@ == after.starting.round
                &&& start_models(r@) == after.starting.starts
            }),
    {
        let ghost list = answer_models(answers@);
        let ghost av = answers@;
        let ghost a = AnsweringModel {
            session: session@,
            starting: StartingModel {
                reads: reads@,
                network: network@,
                round: self@,
                starts: Seq::empty(),
            },
        };
        let mut starts: Vec<Start> = Vec::new();
        assert(start_models(starts@) =~= Seq::empty());
        for item in it: answers
            invariant
                it.seq() == av,
                list == answer_models(av),
                a.starting.network.next_id + av.len() <= u64::MAX,
                network@.next_id <= a.starting.network.next_id + it.index(),
                probes_answered(a, list, it.index() as int) == (AnsweringModel {
                    session: session@,
                    starting: StartingModel {
                        reads: reads@,
                        network: network@,
                        round: self@,
                        starts: start_models(starts@),
                    },
                }),
        {
            let ghost i = it.index() as int;
            let ghost before = start_models(starts@);
            let (id, answer) = item;
            assert(list[i] == (id, reads::answer_model(answer)));
            match reads.answer_probe(session, network, id, answer) {
                ProbeStep::Unknown => {},
                ProbeStep::Resubmitted(start) => {
                    starts.push(start);
                    assert(start_models(starts@) =~= before.push(start@));
                },
                ProbeStep::Settled(target, failure) => {
                    self.note((target, Err(failure)));
                },
            }
        }
        starts
    }

    /// Takes finished loads in.
    pub fn complete(
        &mut self,
        reads: &mut Reads,
        session: &mut Session,
        landed: Vec<(u64, Result<ResourceResponse, LoadError>)>,
    )
        ensures
            exists|times: Seq<Seq<int>>|
                (CompletingModel {
                    session: final(session)@,
                    reads: final(reads)@,
                    round: final(self)@,
                }) == #[trigger] loads_completed(
                    CompletingModel {
                        session: old(session)@,
                        reads: old(reads)@,
                        round: old(self)@,
                    },
                    landed_models(landed@),
                    times,
                    landed@.len() as int,
                ),
    {
        let ghost list = landed_models(landed@);
        let ghost lv = landed@;
        let ghost c = CompletingModel { session: session@, reads: reads@, round: self@ };
        let ghost mut times: Seq<Seq<int>> = Seq::empty();
        for item in it: landed
            invariant
                it.seq() == lv,
                list == landed_models(lv),
                times.len() == it.index(),
                loads_completed(c, list, times, it.index() as int) == (CompletingModel {
                    session: session@,
                    reads: reads@,
                    round: self@,
                }),
        {
            let ghost i = it.index() as int;
            let ghost before = session@;
            let (id, result) = item;
            let ghost response = reads::response_model(result);
            assert(list[i] == (id, response));
            let settled = reads.complete(session, id, result);
            proof {
                let last = match response {
                    Ok(r) => choose|t: Seq<int>|
                        session@ == (SessionModel {
                            cookies: #[trigger] session::stored_all(
                                before.cookies,
                                r.final_url,
                                r.set_cookies,
                                t,
                                r.set_cookies.len() as int,
                            ),
                            ..before
                        }),
                    Err(_) => Seq::empty(),
                };
                lemma_loads_completed_prefix(c, list, times, last, i);
                times = times.push(last);
            }
            if let Some(settlement) = settled {
                self.note(settlement);
            }
        }
    }

    /// What was settled, in the order in which scripts see it.
    pub fn finish(self) -> (r: Vec<Settlement>)
        ensures
            settlement_models(r@) == self@.order(),
    {
        let ghost model = self@;
        let mut list = self.fetches;
        let mut last = self.xhrs;
        list.append(&mut last);
        assert(settlement_models(list@) =~= model.order());
        list
    }
}

// ---------------------------------------------------------------------------
// Laws
// ---------------------------------------------------------------------------
/// A whole round: the queued reads are started, then probes are answered,
/// then loads are completed.
pub open spec fn round_done(
    p: StartingModel,
    s: SessionModel,
    list: Seq<ReadModel>,
    answers: Seq<(u64, Result<GrantModel, LoadErrorModel>)>,
    landed: Seq<LandedModel>,
    times: Seq<Seq<int>>,
) -> CompletingModel {
    let started = reads_started(p, s, list, list.len() as int);
    let answered = probes_answered(
        AnsweringModel { session: s, starting: started },
        answers,
        answers.len() as int,
    );
    loads_completed(
        CompletingModel {
            session: answered.session,
            reads: answered.starting.reads,
            round: answered.starting.round,
        },
        landed,
        times,
        landed.len() as int,
    )
}

/// How many reads are accounted for: those that wait for an answer or a load,
/// and those that were settled.
pub open spec fn accounted(reads: ReadsModel, round: RoundModel) -> nat {
    reads.in_flight.len() + reads.preflights.len() + round.order().len()
}

proof fn lemma_place_in_bounds<T>(list: Seq<(u64, T)>, id: u64, i: int)
    requires
        0 <= i,
    ensures
        reads::place_in(list, id, i) matches Some(k) ==> i <= k < list.len(),
    decreases list.len() - i,
{
    if i < list.len() && list[i].0 != id {
        lemma_place_in_bounds(list, id, i + 1);
    }
}

proof fn lemma_noted(round: RoundModel, s: SettlementModel)
    ensures
        round.noted(s).order().len() == round.order().len() + 1,
        round.sorted() ==> round.noted(s).sorted(),
{
}

proof fn lemma_started(p: StartingModel, s: SessionModel, list: Seq<ReadModel>, n: int)
    requires
        0 <= n,
    ensures
        ({
            let after = reads_started(p, s, list, n);
            &&& accounted(after.reads, after.round) == accounted(p.reads, p.round) + n
            &&& p.round.sorted() ==> after.round.sorted()
        }),
    decreases n,
{
    if n > 0 {
        lemma_started(p, s, list, n - 1);
        let before = reads_started(p, s, list, n - 1);
        let read = list[n - 1];
        let read_of = reads::read_of(
            s,
            read.resolved,
            read.body,
            read.credentials,
            read.method,
            read.headers,
        );
        if let Err(f) = read_of {
            lemma_noted(before.round, (read.target, Err(f)));
        }
    }
}

proof fn lemma_answered(
    a: AnsweringModel,
    list: Seq<(u64, Result<GrantModel, LoadErrorModel>)>,
    n: int,
)
    ensures
        ({
            let after = probes_answered(a, list, n).starting;
            &&& accounted(after.reads, after.round) == accounted(a.starting.reads, a.starting.round)
            &&& a.starting.round.sorted() ==> after.round.sorted()
        }),
    decreases n,
{
    if n > 0 {
        lemma_answered(a, list, n - 1);
        let before = probes_answered(a, list, n - 1).starting;
        let (id, answer) = list[n - 1];
        lemma_place_in_bounds(before.reads.preflights, id, 0);
        if let Some(i) = reads::place_in(before.reads.preflights, id, 0) {
            let pending = before.reads.preflights[i].1;
            lemma_noted(before.round, (pending.target, Err(reads::refusal(answer))));
        }
    }
}

proof fn lemma_completed(
    c: CompletingModel,
    list: Seq<LandedModel>,
    times: Seq<Seq<int>>,
    n: int,
)
    ensures
        ({
            let after = loads_completed(c, list, times, n);
            &&& accounted(after.reads, after.round) == accounted(c.reads, c.round)
            &&& c.round.sorted() ==> after.round.sorted()
        }),
    decreases n,
{
    if n > 0 {
        lemma_completed(c, list, times, n - 1);
        let before = loads_completed(c, list, times, n - 1);
        let landed = list[n - 1];
        lemma_place_in_bounds(before.reads.in_flight, landed.0, 0);
        if let Some(i) = reads::place_in(before.reads.in_flight, landed.0, 0) {
            let flight = before.reads.in_flight[i].1;
            lemma_noted(
                before.round,
                (flight.target, reads::readable_text(flight.check, landed.1)),
            );
        }
    }
}

/// No read is lost in a round, and none is added: as many wait or are settled
/// after it as before, and the ones that were started.
pub proof fn law_no_read_is_lost(
    p: StartingModel,
    s: SessionModel,
    list: Seq<ReadModel>,
    answers: Seq<(u64, Result<GrantModel, LoadErrorModel>)>,
    landed: Seq<LandedModel>,
    times: Seq<Seq<int>>,
)
    ensures
        ({
            let after = round_done(p, s, list, answers, landed, times);
            accounted(after.reads, after.round) == accounted(p.reads, p.round) + list.len()
        }),
{
    lemma_started(p, s, list, list.len() as int);
    let started = reads_started(p, s, list, list.len() as int);
    let a = AnsweringModel { session: s, starting: started };
    lemma_answered(a, answers, answers.len() as int);
    let answered = probes_answered(a, answers, answers.len() as int);
    let c = CompletingModel {
        session: answered.session,
        reads: answered.starting.reads,
        round: answered.starting.round,
    };
    lemma_completed(c, landed, times, landed.len() as int);
}

/// Within a round scripts see every settled fetch before any settled XHR.
pub proof fn law_fetches_settle_first(
    p: StartingModel,
    s: SessionModel,
    list: Seq<ReadModel>,
    answers: Seq<(u64, Result<GrantModel, LoadErrorModel>)>,
    landed: Seq<LandedModel>,
    times: Seq<Seq<int>>,
)
    requires
        p.round.sorted(),
    ensures
        ({
            let order = round_done(p, s, list, answers, landed, times).round.order();
            forall|i: int, j: int|
                0 <= i < j < order.len() && (#[trigger] order[i]).0 is Xhr ==> (
                #[trigger] order[j]).0 is Xhr
        }),
{
    lemma_started(p, s, list, list.len() as int);
    let started = reads_started(p, s, list, list.len() as int);
    let a = AnsweringModel { session: s, starting: started };
    lemma_answered(a, answers, answers.len() as int);
    let answered = probes_answered(a, answers, answers.len() as int);
    let c = CompletingModel {
        session: answered.session,
        reads: answered.starting.reads,
        round: answered.starting.round,
    };
    lemma_completed(c, landed, times, landed.len() as int);
    let round = loads_completed(c, landed, times, landed.len() as int).round;
    let order = round.order();
    assert forall|i: int, j: int|
        0 <= i < j < order.len() && (#[trigger] order[i]).0 is Xhr implies (
    #[trigger] order[j]).0 is Xhr by {
        if i < round.fetches.len() {
            assert(order[i] == round.fetches[i]);
        } else {
            assert(order[j] == round.xhrs[j - round.fetches.len()]);
        }
    }
}

/// A fetch reads with `GET`, without a body and without headers; a request
/// reads with its own method, headers and body. Each settles its own target
/// and takes cookies along where its script asks for it.
pub proof fn law_calls_become_reads(
    fetch: FetchModel,
    xhr: XhrModel,
    resolved: Result<UrlModel, Seq<char>>,
)
    ensures
        ({
            let f = fetch_read(fetch, resolved);
            let x = xhr_read(xhr, resolved);
            &&& f.method == seq!['G', 'E', 'T'] && f.body is None && f.headers.len() == 0
            &&& f.target == SettleTarget::Fetch(fetch.settle) && f.resolved == resolved
            &&& f.credentials is Include <==> fetch.with_credentials
            &&& x.method == xhr.method && x.headers == xhr.headers && x.resolved == resolved
            &&& x.target == SettleTarget::Xhr(xhr.xhr)
            &&& x.credentials is Include <==> xhr.with_credentials
            &&& x.body == natives::xhr_body_model(xhr.method, xhr.headers, xhr.body)
        }),
{
    reveal_strlit("GET");
    assert("GET"@ =~= seq!['G', 'E', 'T']);
}

/// A read that can be sent gets the next number and is sent or probed first;
/// one that fails is settled at once with its failure, and takes no number.
pub proof fn law_reads_start_or_settle(p: StartingModel, s: SessionModel, read: ReadModel)
    requires
        p.network.next_id < u64::MAX,
    ensures
        ({
            let next = read_started(p, s, read);
            match reads::read_of(
                s,
                read.resolved,
                read.body,
                read.credentials,
                read.method,
                read.headers,
            ) {
                Ok((request, check)) => {
                    &&& next.network.next_id == p.network.next_id + 1
                    &&& next.starts.len() == p.starts.len() + 1
                    &&& next.round == p.round
                    &&& next.reads.in_flight.len() + next.reads.preflights.len()
                        == p.reads.in_flight.len() + p.reads.preflights.len() + 1
                },
                Err(f) => {
                    &&& next.network == p.network && next.reads == p.reads && next.starts
                        == p.starts
                    &&& read.target is Fetch ==> next.round.fetches == p.round.fetches.push(
                        (read.target, Err(f)),
                    ) && next.round.xhrs == p.round.xhrs
                    &&& read.target is Xhr ==> next.round.xhrs == p.round.xhrs.push(
                        (read.target, Err(f)),
                    ) && next.round.fetches == p.round.fetches
                },
            }
        }),
{
}

/// An answered probe leaves the waiting ones. Where it is granted the read is
/// sent, without a probe, under a new number, and the grant is remembered;
/// where it is not the read is settled as refused, and nothing is sent. An
/// answer that nothing waits for changes nothing.
pub proof fn law_answered_probes(
    a: AnsweringModel,
    id: u64,
    answer: Result<GrantModel, LoadErrorModel>,
)
    requires
        a.starting.network.next_id < u64::MAX,
    ensures
        ({
            let p = a.starting;
            let next = probe_answered(a, id, answer);
            match reads::place_in(p.reads.preflights, id, 0) {
                None => next == a,
                Some(i) => {
                    let pending = p.reads.preflights[i].1;
                    &&& next.starting.reads.preflights == p.reads.preflights.remove(i)
                    &&& reads::granted(pending.check, answer) ==> {
                        &&& next.starting.reads.in_flight == p.reads.in_flight.push(
                            (
                                p.network.next_id,
                                InFlightModel {
                                    target: pending.target,
                                    check: Some(CheckModel { preflight: None, ..pending.check }),
                                },
                            ),
                        )
                        &&& next.starting.network.next_id == p.network.next_id + 1
                        &&& next.session.preflight_cache.contains(
                            (pending.check.page_origin, pending.request.url.text),
                        )
                        &&& next.starting.round == p.round
                    }
                    &&& !reads::granted(pending.check, answer) ==> {
                        &&& next.starting.reads.in_flight == p.reads.in_flight
                        &&& next.starting.network == p.network
                        &&& next.session == a.session
                        &&& next.starting.round == p.round.noted(
                            (
                                pending.target,
                                Err(
                                    match answer {
                                        Ok(_) => FailureModel::PreflightRefused,
                                        Err(e) => FailureModel::Load(e),
                                    },
                                ),
                            ),
                        )
                    }
                },
            }
        }),
{
    let p = a.starting;
    if let Some(i) = reads::place_in(p.reads.preflights, id, 0) {
        let pending = p.reads.preflights[i].1;
        reads::law_grants_are_remembered_once(
            a.session,
            pending.check.page_origin,
            pending.request.url,
        );
    }
}

/// A load that landed leaves the reads in flight and settles its target with
/// what the script may see of it; the cookies of a response are stored whether
/// or not a read waits for it, and a failed load stores none.
pub proof fn law_landed_loads(c: CompletingModel, landed: LandedModel, times: Seq<int>)
    ensures
        ({
            let next = load_completed(c, landed, times);
            &&& landed.1 is Err ==> next.session == c.session
            &&& landed.1 matches Ok(response) ==> next.session.cookies == session::stored_all(
                c.session.cookies,
                response.final_url,
                response.set_cookies,
                times,
                response.set_cookies.len() as int,
            ) && next.session.history == c.session.history
            &&& match reads::place_in(c.reads.in_flight, landed.0, 0) {
                None => next.reads == c.reads && next.round == c.round,
                Some(i) => {
                    &&& next.reads.in_flight == c.reads.in_flight.remove(i)
                    &&& next.reads.preflights == c.reads.preflights
                    &&& next.round == c.round.noted(
                        (
                            c.reads.in_flight[i].1.target,
                            reads::readable_text(c.reads.in_flight[i].1.check, landed.1),
                        ),
                    )
                },
            }
        }),
{
}

} // verus!
