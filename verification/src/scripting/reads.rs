//! Script reads (fetch and XHR): submitting them, answering their preflight
//! probes, and settling them.
use crate::browser::cors::{
    CheckModel, CorsCheck, CorsGrant, GrantModel, Headers, ScriptCredentials,
};
use crate::browser::document;
use crate::browser::history::{LoadError, LoadErrorModel};
use crate::browser::request::{
    self, BodyModel, RequestModel, ResourceRequest, ResourceResponse, ResponseModel,
};
use crate::browser::session::{self, Session, SessionModel};
use crate::browser::url::{Url, UrlModel};
use crate::scripting::bridge::{FetchCall, XhrCall};
use crate::scripting::natives;
use crate::scripting::network::{self, NetworkQueue, Start, StartModel, TaskModel};
use crate::text;
use vstd::prelude::*;

verus! {

/// Who a finished (or refused) script read settles: a fetch promise or an XHR
/// object, by the number under which the shell keeps it.
#[derive(Debug, Clone, Copy, PartialEq, Eq, Structural)]
pub enum SettleTarget {
    Fetch(u64),
    Xhr(u64),
}

/// Why a script read failed.
#[derive(Debug)]
pub enum ReadFailure {
    /// There is no page to read from.
    NoPage,
    /// The target is no URL.
    BadTarget(String),
    /// The load failed, or was refused before it went out.
    Load(LoadError),
    /// The server's answer to the preflight probe does not cover the request.
    PreflightRefused,
    /// The server does not let this page read the response.
    NotReadable,
}

pub enum FailureModel {
    NoPage,
    BadTarget(Seq<char>),
    Load(LoadErrorModel),
    PreflightRefused,
    NotReadable,
}

impl View for ReadFailure {
    type V = FailureModel;

    open spec fn view(&self) -> FailureModel {
        match self {
            ReadFailure::NoPage => FailureModel::NoPage,
            ReadFailure::BadTarget(s) => FailureModel::BadTarget(s@),
            ReadFailure::Load(e) => FailureModel::Load(e@),
            ReadFailure::PreflightRefused => FailureModel::PreflightRefused,
            ReadFailure::NotReadable => FailureModel::NotReadable,
        }
    }
}

/// What a failure is called where scripts see it.
pub open spec fn failure_text(f: FailureModel) -> Seq<char> {
    match f {
        FailureModel::NoPage => "no page"@,
        FailureModel::BadTarget(s) => s,
        FailureModel::Load(LoadErrorModel::InvalidUrl(s)) => s,
        FailureModel::Load(LoadErrorModel::UnsupportedScheme(s)) => s,
        FailureModel::Load(LoadErrorModel::Http(s)) => s,
        FailureModel::PreflightRefused => "CORS preflight refused the request"@,
        FailureModel::NotReadable => {
            "CORS: cross-origin response is not readable by this page"@
        },
    }
}

impl ReadFailure {
    /// What the failure is called where scripts see it.
    pub fn message(&self) -> (r: String)
        ensures
            r@ == failure_text(self@),
    {
        match self {
            ReadFailure::NoPage => "no page".to_owned(),
            ReadFailure::BadTarget(s) => s.clone(),
            ReadFailure::Load(LoadError::InvalidUrl(s)) => s.clone(),
            ReadFailure::Load(LoadError::UnsupportedScheme(s)) => s.clone(),
            ReadFailure::Load(LoadError::Http(s)) => s.clone(),
            ReadFailure::PreflightRefused => "CORS preflight refused the request".to_owned(),
            ReadFailure::NotReadable => {
                "CORS: cross-origin response is not readable by this page".to_owned()
            },
        }
    }
}

/// A read whose response is awaited: who it settles and, across origins, the
/// check that gates the response.
#[derive(Debug)]
pub struct InFlight {
    pub target: SettleTarget,
    pub check: Option<CorsCheck>,
}

pub struct InFlightModel {
    pub target: SettleTarget,
    pub check: Option<CheckModel>,
}

impl View for InFlight {
    type V = InFlightModel;

    open spec fn view(&self) -> InFlightModel {
        InFlightModel { target: self.target, check: session::opt_check(self.check) }
    }
}

/// A script read waiting on its CORS preflight probe: the actual
/// request only goes out once the grant passes.
#[derive(Debug)]
pub struct PendingPreflight {
    pub request: ResourceRequest,
    pub check: CorsCheck,
    pub target: SettleTarget,
}

pub struct PendingModel {
    pub request: RequestModel,
    pub check: CheckModel,
    pub target: SettleTarget,
}

impl View for PendingPreflight {
    type V = PendingModel;

    open spec fn view(&self) -> PendingModel {
        PendingModel { request: self.request@, check: self.check@, target: self.target }
    }
}

/// The script reads of a page, by the ids of their loads.
#[derive(Debug)]
pub struct Reads {
    pub in_flight: Vec<(u64, InFlight)>,
    pub preflights: Vec<(u64, PendingPreflight)>,
}

#[verifier::ext_equal]
pub struct ReadsModel {
    pub in_flight: Seq<(u64, InFlightModel)>,
    pub preflights: Seq<(u64, PendingModel)>,
}

pub open spec fn flight_models(list: Seq<(u64, InFlight)>) -> Seq<(u64, InFlightModel)> {
    Seq::new(list.len(), |i: int| (list[i].0, list[i].1@))
}

pub open spec fn preflight_models(list: Seq<(u64, PendingPreflight)>) -> Seq<(u64, PendingModel)> {
    Seq::new(list.len(), |i: int| (list[i].0, list[i].1@))
}

impl View for Reads {
    type V = ReadsModel;

    open spec fn view(&self) -> ReadsModel {
        ReadsModel {
            in_flight: flight_models(self.in_flight@),
            preflights: preflight_models(self.preflights@),
        }
    }
}

/// The place of an id, from `i` on.
pub open spec fn place_in<T>(list: Seq<(u64, T)>, id: u64, i: int) -> Option<int>
    decreases list.len() - i,
{
    if i < 0 || i >= list.len() {
        None
    } else if list[i].0 == id {
        Some(i)
    } else {
        place_in(list, id, i + 1)
    }
}

/// The task that a read starts with: its probe, where one is needed, else
/// itself.
pub open spec fn first_task(request: RequestModel, check: Option<CheckModel>, id: u64) -> TaskModel {
    match check {
        Some(CheckModel { page_origin, credentialed, preflight: Some(probe) }) => {
            TaskModel::Preflight { id, probe }
        },
        _ => TaskModel::Fetch { id, request },
    }
}

/// The reads after one was submitted under an id.
pub open spec fn submitted(
    reads: ReadsModel,
    request: RequestModel,
    check: Option<CheckModel>,
    target: SettleTarget,
    id: u64,
) -> ReadsModel {
    match check {
        Some(c) => if c.preflight is Some {
            ReadsModel {
                preflights: reads.preflights.push((id, PendingModel { request, check: c, target })),
                ..reads
            }
        } else {
            ReadsModel {
                in_flight: reads.in_flight.push((id, InFlightModel { target, check })),
                ..reads
            }
        },
        None => ReadsModel {
            in_flight: reads.in_flight.push((id, InFlightModel { target, check })),
            ..reads
        },
    }
}

/// What the start of a read came to.
#[derive(Debug)]
pub enum ReadStart {
    Started(Start),
    Failed(ReadFailure),
}

pub enum ReadStartModel {
    Started(StartModel),
    Failed(FailureModel),
}

impl View for ReadStart {
    type V = ReadStartModel;

    open spec fn view(&self) -> ReadStartModel {
        match self {
            ReadStart::Started(start) => ReadStartModel::Started(start@),
            ReadStart::Failed(f) => ReadStartModel::Failed(f@),
        }
    }
}

pub open spec fn resolved_model(r: Result<Url, String>) -> Result<UrlModel, Seq<char>> {
    match r {
        Ok(url) => Ok(url@),
        Err(s) => Err(s@),
    }
}

/// What a read sends, with the check of its response: its target is resolved
/// against the page, and the session's policy applies.
pub open spec fn read_of(
    s: SessionModel,
    resolved: Result<UrlModel, Seq<char>>,
    body: BodyModel,
    credentials: ScriptCredentials,
    method: Seq<char>,
    headers: Headers,
) -> Result<(RequestModel, Option<CheckModel>), FailureModel> {
    if s.history.current() is None {
        Err(FailureModel::NoPage)
    } else {
        match resolved {
            Err(e) => Err(FailureModel::BadTarget(e)),
            Ok(url) => match s.script_read(url, body, credentials, method, headers) {
                Ok(read) => Ok(read),
                Err(e) => Err(FailureModel::Load(e)),
            },
        }
    }
}

/// The credentials mode of a read: cookies ride across origins only where the
/// script asked for it.
pub open spec fn credentials_of(included: bool) -> ScriptCredentials {
    if included {
        ScriptCredentials::Include
    } else {
        ScriptCredentials::SameOrigin
    }
}

fn credentials_mode(included: bool) -> (r: ScriptCredentials)
    ensures
        r == credentials_of(included),
{
    if included {
        ScriptCredentials::Include
    } else {
        ScriptCredentials::SameOrigin
    }
}

/// What the answer to a probe leads to.
#[derive(Debug)]
pub enum ProbeStep {
    /// No read waits for this probe.
    Unknown,
    /// The read goes out.
    Resubmitted(Start),
    /// The read fails.
    Settled(SettleTarget, ReadFailure),
}

pub enum ProbeModel {
    Unknown,
    Resubmitted(StartModel),
    Settled(SettleTarget, FailureModel),
}

impl View for ProbeStep {
    type V = ProbeModel;

    open spec fn view(&self) -> ProbeModel {
        match self {
            ProbeStep::Unknown => ProbeModel::Unknown,
            ProbeStep::Resubmitted(start) => ProbeModel::Resubmitted(start@),
            ProbeStep::Settled(target, f) => ProbeModel::Settled(*target, f@),
        }
    }
}

pub open spec fn answer_model(answer: Result<CorsGrant, LoadError>) -> Result<
    GrantModel,
    LoadErrorModel,
> {
    match answer {
        Ok(grant) => Ok(grant@),
        Err(e) => Err(e@),
    }
}

/// Whether an answered probe lets the read out.
pub open spec fn granted(check: CheckModel, answer: Result<GrantModel, LoadErrorModel>) -> bool {
    answer matches Ok(grant) && check.probe_passes(grant)
}

pub open spec fn refusal(answer: Result<GrantModel, LoadErrorModel>) -> FailureModel {
    match answer {
        Ok(_) => FailureModel::PreflightRefused,
        Err(e) => FailureModel::Load(e),
    }
}

/// The session with a grant cached.
pub open spec fn with_grant(s: SessionModel, page_origin: Seq<char>, url: UrlModel) -> SessionModel {
    SessionModel {
        preflight_cache: if s.preflight_cache.contains((page_origin, url.text)) {
            s.preflight_cache
        } else {
            s.preflight_cache.push((page_origin, url.text))
        },
        ..s
    }
}

pub open spec fn response_model(r: Result<ResourceResponse, LoadError>) -> Result<
    ResponseModel,
    LoadErrorModel,
> {
    match r {
        Ok(response) => Ok(response@),
        Err(e) => Err(e@),
    }
}

/// What a response is to the script that asked for it: its text, unless the
/// check keeps it from the page.
pub open spec fn readable_text(
    check: Option<CheckModel>,
    response: Result<ResponseModel, LoadErrorModel>,
) -> Result<Seq<char>, FailureModel> {
    match response {
        Err(e) => Err(FailureModel::Load(e)),
        Ok(response) => if check matches Some(c) && !c.readable(
            response.access_control_allow_origin,
        ) {
            Err(FailureModel::NotReadable)
        } else {
            Ok(response.text)
        },
    }
}

pub open spec fn settled_model(r: Option<(SettleTarget, Result<String, ReadFailure>)>) -> Option<
    (SettleTarget, Result<Seq<char>, FailureModel>),
> {
    match r {
        Some((target, Ok(text))) => Some((target, Ok(text@))),
        Some((target, Err(f))) => Some((target, Err(f@))),
        None => None,
    }
}

impl Reads {
    pub fn new() -> (r: Reads)
        ensures
            r@ == (ReadsModel { in_flight: Seq::empty(), preflights: Seq::empty() }),
    {
        let r = Reads { in_flight: Vec::new(), preflights: Vec::new() };
        assert(r@ =~= (ReadsModel { in_flight: Seq::empty(), preflights: Seq::empty() }));
        r
    }

    /// Submits a prepared script read to the network queue — or, when
    /// its CORS check still carries a preflight probe, submits the
    /// PROBE and parks the read until the grant lands.
    pub fn submit_read(
        &mut self,
        network: &mut NetworkQueue,
        request: ResourceRequest,
        check: Option<CorsCheck>,
        target: SettleTarget,
    ) -> (r: Start)
        requires
            old(network)@.next_id < u64::MAX,
        ensures
            ({
                let id = old(network)@.next_id;
                let task = first_task(request@, session::opt_check(check), id);
                &&& r@ == network::placed(old(network)@.executor, task)
                &&& final(network)@ == old(network)@.numbered().started(task)
                &&& final(self)@ == submitted(
                    old(self)@,
                    request@,
                    session::opt_check(check),
                    target,
                    id,
                )
            }),
    {
        let ghost before = self@;
        match check {
            Some(check) => {
                if let Some(probe) = &check.preflight {
                    let (id, start) = network.submit_preflight(probe.clone());
                    let ghost pending = PendingModel { request: request@, check: check@, target };
                    self.preflights.push((id, PendingPreflight { request, check, target }));
                    assert(self@.preflights =~= before.preflights.push((id, pending)));
                    return start;
                }
                let (id, start) = network.submit(request);
                let ghost flight = InFlightModel { target, check: Some(check@) };
                self.in_flight.push((id, InFlight { target, check: Some(check) }));
                assert(self@.in_flight =~= before.in_flight.push((id, flight)));
                start
            },
            None => {
                let (id, start) = network.submit(request);
                let ghost flight = InFlightModel { target, check: None };
                self.in_flight.push((id, InFlight { target, check: None }));
                assert(self@.in_flight =~= before.in_flight.push((id, flight)));
                start
            },
        }
    }

    /// Starts a read that a script asked for. Where it cannot be prepared (no
    /// page, a bad target, the `file:` gate) nothing goes out and it fails at
    /// once.
    pub fn start_read(
        &mut self,
        session: &Session,
        network: &mut NetworkQueue,
        resolved: Result<Url, String>,
        body: Option<(String, Vec<u8>)>,
        credentials: ScriptCredentials,
        method: &str,
        headers: &Vec<(String, String)>,
        target: SettleTarget,
    ) -> (r: ReadStart)
        requires
            session@.history.wf(),
            old(network)@.next_id < u64::MAX,
        ensures
            match read_of(
                session@,
                resolved_model(resolved),
                request::body_model(body),
                credentials,
                method@,
                document::pair_models(headers@),
            ) {
                Ok((request, check)) => {
                    let id = old(network)@.next_id;
                    let task = first_task(request, check, id);
                    &&& r@ == ReadStartModel::Started(
                        network::placed(old(network)@.executor, task),
                    )
                    &&& final(network)@ == old(network)@.numbered().started(task)
                    &&& final(self)@ == submitted(old(self)@, request, check, target, id)
                },
                Err(f) => {
                    &&& r@ == ReadStartModel::Failed(f)
                    &&& final(network)@ == old(network)@
                    &&& final(self)@ == old(self)@
                },
            },
    {
        if session.current_url().is_none() {
            return ReadStart::Failed(ReadFailure::NoPage);
        }
        let url = match resolved {
            Ok(url) => url,
            Err(e) => {
                return ReadStart::Failed(ReadFailure::BadTarget(e));
            },
        };
        match session.prepare_script_read(url, body, credentials, method, headers) {
            Ok((request, check)) => {
                ReadStart::Started(self.submit_read(network, request, check, target))
            },
            Err(e) => ReadStart::Failed(ReadFailure::Load(e)),
        }
    }

    /// Starts the read of a fetch() call: a plain GET without custom headers,
    /// so it needs no probe.
    pub fn start_fetch(
        &mut self,
        session: &Session,
        network: &mut NetworkQueue,
        call: &FetchCall,
        resolved: Result<Url, String>,
    ) -> (r: ReadStart)
        requires
            session@.history.wf(),
            old(network)@.next_id < u64::MAX,
        ensures
            match read_of(
                session@,
                resolved_model(resolved),
                None,
                credentials_of(call@.with_credentials),
                "GET"@,
                Seq::empty(),
            ) {
                Ok((request, check)) => {
                    let id = old(network)@.next_id;
                    let task = first_task(request, check, id);
                    let target = SettleTarget::Fetch(call@.settle);
                    &&& r@ == ReadStartModel::Started(
                        network::placed(old(network)@.executor, task),
                    )
                    &&& final(network)@ == old(network)@.numbered().started(task)
                    &&& final(self)@ == submitted(old(self)@, request, check, target, id)
                },
                Err(f) => {
                    &&& r@ == ReadStartModel::Failed(f)
                    &&& final(network)@ == old(network)@
                    &&& final(self)@ == old(self)@
                },
            },
    {
        let credentials = credentials_mode(call.with_credentials);
        let headers: Vec<(String, String)> = Vec::new();
        assert(document::pair_models(headers@) =~= Seq::empty());
        self.start_read(
            session,
            network,
            resolved,
            None,
            credentials,
            "GET",
            &headers,
            SettleTarget::Fetch(call.settle),
        )
    }

    /// Starts the read of an XHR, with the body that its method carries.
    pub fn start_xhr(
        &mut self,
        session: &Session,
        network: &mut NetworkQueue,
        call: &XhrCall,
        resolved: Result<Url, String>,
    ) -> (r: ReadStart)
        requires
            session@.history.wf(),
            old(network)@.next_id < u64::MAX,
        ensures
            match read_of(
                session@,
                resolved_model(resolved),
                natives::xhr_body_model(call@.method, call@.headers, call@.body),
                credentials_of(call@.with_credentials),
                call@.method,
                call@.headers,
            ) {
                Ok((request, check)) => {
                    let id = old(network)@.next_id;
                    let task = first_task(request, check, id);
                    let target = SettleTarget::Xhr(call@.xhr);
                    &&& r@ == ReadStartModel::Started(
                        network::placed(old(network)@.executor, task),
                    )
                    &&& final(network)@ == old(network)@.numbered().started(task)
                    &&& final(self)@ == submitted(old(self)@, request, check, target, id)
                },
                Err(f) => {
                    &&& r@ == ReadStartModel::Failed(f)
                    &&& final(network)@ == old(network)@
                    &&& final(self)@ == old(self)@
                },
            },
    {
        let credentials = credentials_mode(call.with_credentials);
        let body = natives::xhr_body(call.method.as_str(), &call.headers, &call.body);
        self.start_read(
            session,
            network,
            resolved,
            body,
            credentials,
            call.method.as_str(),
            &call.headers,
            SettleTarget::Xhr(call.xhr),
        )
    }

    fn preflight_place(&self, id: u64) -> (r: Option<usize>)
        ensures
            match place_in(self@.preflights, id, 0) {
                Some(i) => r is Some && r->0 == i && 0 <= i < self@.preflights.len(),
                None => r is None,
            },
    {
        let ghost all = self@.preflights;
        let mut i: usize = 0;
        while i < self.preflights.len()
            invariant
                i <= self.preflights@.len(),
                all == self@.preflights,
                place_in(all, id, i as int) == place_in(all, id, 0),
            decreases self.preflights@.len() - i,
        {
            assert(all[i as int].0 == self.preflights@[i as int].0);
            if self.preflights[i].0 == id {
                return Some(i);
            }
            i = i + 1;
        }
        None
    }

    fn flight_place(&self, id: u64) -> (r: Option<usize>)
        ensures
            match place_in(self@.in_flight, id, 0) {
                Some(i) => r is Some && r->0 == i && 0 <= i < self@.in_flight.len(),
                None => r is None,
            },
    {
        let ghost all = self@.in_flight;
        let mut i: usize = 0;
        while i < self.in_flight.len()
            invariant
                i <= self.in_flight@.len(),
                all == self@.in_flight,
                place_in(all, id, i as int) == place_in(all, id, 0),
            decreases self.in_flight@.len() - i,
        {
            assert(all[i as int].0 == self.in_flight@[i as int].0);
            if self.in_flight[i].0 == id {
                return Some(i);
            }
            i = i + 1;
        }
        None
    }

    /// Takes the answer to a preflight probe: a passing grant is cached on
    /// the session and the actual request goes out (its response is still
    /// checked when it lands); a refused probe fails the read, and the
    /// request never leaves.
    pub fn answer_probe(
        &mut self,
        session: &mut Session,
        network: &mut NetworkQueue,
        id: u64,
        answer: Result<CorsGrant, LoadError>,
    ) -> (r: ProbeStep)
        requires
            old(network)@.next_id < u64::MAX,
        ensures
            match place_in(old(self)@.preflights, id, 0) {
                None => {
                    &&& r@ == ProbeModel::Unknown
                    &&& final(self)@ == old(self)@
                    &&& final(session)@ == old(session)@
                    &&& final(network)@ == old(network)@
                },
                Some(i) => {
                    let pending = old(self)@.preflights[i].1;
                    let rest = ReadsModel {
                        preflights: old(self)@.preflights.remove(i),
                        ..old(self)@
                    };
                    if granted(pending.check, answer_model(answer)) {
                        let next = old(network)@.next_id;
                        let check = CheckModel { preflight: None, ..pending.check };
                        let task = TaskModel::Fetch { id: next, request: pending.request };
                        &&& r@ == ProbeModel::Resubmitted(
                            network::placed(old(network)@.executor, task),
                        )
                        &&& final(network)@ == old(network)@.numbered().started(task)
                        &&& final(session)@ == with_grant(
                            old(session)@,
                            pending.check.page_origin,
                            pending.request.url,
                        )
                        &&& final(self)@ == submitted(
                            rest,
                            pending.request,
                            Some(check),
                            pending.target,
                            next,
                        )
                    } else {
                        &&& r@ == ProbeModel::Settled(
                            pending.target,
                            refusal(answer_model(answer)),
                        )
                        &&& final(self)@ == rest
                        &&& final(session)@ == old(session)@
                        &&& final(network)@ == old(network)@
                    }
                },
            },
    {
        let ghost all = self@.preflights;
        let i = match self.preflight_place(id) {
            Some(i) => i,
            None => {
                return ProbeStep::Unknown;
            },
        };
        assert(all[i as int].1 == self.preflights@[i as int].1@);
        let ghost listed = self.preflights@;
        let (_, pending) = self.preflights.remove(i);
        assert(self@.preflights =~= all.remove(i as int));
        let passes = match &answer {
            Ok(grant) => !pending.check.preflight_blocks(grant),
            Err(_) => false,
        };
        if passes {
            let mut check = pending.check;
            session.cache_preflight(check.page_origin.as_str(), &pending.request.url);
            let _ = check.take_preflight();
            let start = self.submit_read(network, pending.request, Some(check), pending.target);
            return ProbeStep::Resubmitted(start);
        }
        let failure = match answer {
            Ok(_) => ReadFailure::PreflightRefused,
            Err(e) => ReadFailure::Load(e),
        };
        ProbeStep::Settled(pending.target, failure)
    }

    /// Takes a finished load: its cookies land in the jar before the result
    /// reaches JS. A cross-origin read only reaches JS when its CORS grant
    /// allows it; otherwise it settles as a network error. Nothing is settled
    /// where no read waits for the load.
    pub fn complete(
        &mut self,
        session: &mut Session,
        id: u64,
        result: Result<ResourceResponse, LoadError>,
    ) -> (r: Option<(SettleTarget, Result<String, ReadFailure>)>)
        ensures
            match place_in(old(self)@.in_flight, id, 0) {
                None => r is None && final(self)@ == old(self)@,
                Some(i) => {
                    let flight = old(self)@.in_flight[i].1;
                    &&& settled_model(r) == Some(
                        (flight.target, readable_text(flight.check, response_model(result))),
                    )
                    &&& final(self)@ == (ReadsModel {
                        in_flight: old(self)@.in_flight.remove(i),
                        ..old(self)@
                    })
                },
            },
            match response_model(result) {
                Ok(response) => exists|times: Seq<int>|
                    final(session)@ == (SessionModel {
                        cookies: #[trigger] session::stored_all(
                            old(session)@.cookies,
                            response.final_url,
                            response.set_cookies,
                            times,
                            response.set_cookies.len() as int,
                        ),
                        ..old(session)@
                    }),
                Err(_) => final(session)@ == old(session)@,
            },
    {
        if let Ok(response) = &result {
            session.store_response_cookies(&response.final_url, &response.set_cookies);
            assert(response@.set_cookies.len() == response.set_cookies@.len());
        }
        let ghost all = self@.in_flight;
        let i = match self.flight_place(id) {
            Some(i) => i,
            None => {
                return None;
            },
        };
        assert(all[i as int].1 == self.in_flight@[i as int].1@);
        let (_, flight) = self.in_flight.remove(i);
        assert(self@.in_flight =~= all.remove(i as int));
        let outcome = match result {
            Ok(response) => {
                let blocked = match &flight.check {
                    Some(check) => check.blocks(&response.access_control_allow_origin),
                    None => false,
                };
                if blocked {
                    Err(ReadFailure::NotReadable)
                } else {
                    Ok(response.text)
                }
            },
            Err(e) => Err(ReadFailure::Load(e)),
        };
        Some((flight.target, outcome))
    }

    /// Whether any script-initiated network load is still in flight.
    pub fn has_pending_network(&self) -> (r: bool)
        ensures
            r == (self@.in_flight.len() > 0 || self@.preflights.len() > 0),
    {
        self.in_flight.len() > 0 || self.preflights.len() > 0
    }
}

// ---------------------------------------------------------------------------
// Laws
// ---------------------------------------------------------------------------
/// A cross-origin read that needs a probe does not go out with it: what is
/// started is the probe, and the request waits.
pub proof fn law_probed_reads_wait(
    reads: ReadsModel,
    request: RequestModel,
    check: CheckModel,
    target: SettleTarget,
    id: u64,
)
    requires
        check.preflight is Some,
    ensures
        first_task(request, Some(check), id) is Preflight,
        submitted(reads, request, Some(check), target, id).in_flight == reads.in_flight,
{
}

/// No text reaches a script unless the page may read it: within its origin,
/// or by a grant that names it.
pub proof fn law_unreadable_responses_reach_no_script(
    check: Option<CheckModel>,
    response: ResponseModel,
)
    ensures
        readable_text(check, Ok(response)) is Ok <==> (check matches Some(c) ==> c.readable(
            response.access_control_allow_origin,
        )),
        readable_text(check, Ok(response)) matches Ok(text) ==> text == response.text,
{
}

/// After a granted probe the same read is not probed again: the grant is on
/// the session, and the resubmitted request goes out itself.
pub proof fn law_granted_probes_are_not_repeated(
    s: SessionModel,
    pending: PendingModel,
    body: BodyModel,
    method: Seq<char>,
    headers: Headers,
    id: u64,
)
    ensures
        with_grant(s, pending.check.page_origin, pending.request.url).probe(
            pending.check.page_origin,
            pending.request.url,
            body,
            method,
            headers,
        ) is None,
        first_task(
            pending.request,
            Some(CheckModel { preflight: None, ..pending.check }),
            id,
        ) == (TaskModel::Fetch { id, request: pending.request }),
{
    let key = (pending.check.page_origin, pending.request.url.text);
    if !s.preflight_cache.contains(key) {
        assert(s.preflight_cache.push(key)[s.preflight_cache.len() as int] == key);
    }
}

/// A script is told why its read failed.
pub proof fn law_failures_are_told(s: Seq<char>)
    ensures
        failure_text(FailureModel::NoPage) == "no page"@,
        failure_text(FailureModel::BadTarget(s)) == s,
        failure_text(FailureModel::Load(LoadErrorModel::InvalidUrl(s))) == s,
        failure_text(FailureModel::Load(LoadErrorModel::UnsupportedScheme(s))) == s,
        failure_text(FailureModel::Load(LoadErrorModel::Http(s))) == s,
        failure_text(FailureModel::PreflightRefused) == "CORS preflight refused the request"@,
        failure_text(FailureModel::NotReadable)
            == "CORS: cross-origin response is not readable by this page"@,
{
}

/// A read that needs a probe sends the probe first and waits; any other is sent
/// at once.
pub proof fn law_probes_go_first(
    reads: ReadsModel,
    request: RequestModel,
    check: Option<CheckModel>,
    target: SettleTarget,
    id: u64,
)
    ensures
        ({
            let probed = check matches Some(c) && c.preflight is Some;
            let next = submitted(reads, request, check, target, id);
            &&& probed ==> first_task(request, check, id) == TaskModel::Preflight {
                id,
                probe: check->0.preflight->0,
            }
            &&& !probed ==> first_task(request, check, id) == TaskModel::Fetch { id, request }
            &&& probed ==> next.preflights == reads.preflights.push(
                (id, PendingModel { request, check: check->0, target }),
            ) && next.in_flight == reads.in_flight
            &&& !probed ==> next.in_flight == reads.in_flight.push(
                (id, InFlightModel { target, check }),
            ) && next.preflights == reads.preflights
        }),
{
}

/// A read fails without a page and where its address does not resolve; cookies
/// ride across origins exactly where the script asks for it.
pub proof fn law_reads_need_a_page(
    s: SessionModel,
    url: UrlModel,
    e: Seq<char>,
    body: BodyModel,
    credentials: ScriptCredentials,
    method: Seq<char>,
    headers: Headers,
)
    ensures
        s.history.index is None ==> read_of(s, Ok(url), body, credentials, method, headers) == Err::<
            (RequestModel, Option<CheckModel>),
            FailureModel,
        >(FailureModel::NoPage),
        s.history.index is Some ==> read_of(s, Err(e), body, credentials, method, headers) == Err::<
            (RequestModel, Option<CheckModel>),
            FailureModel,
        >(FailureModel::BadTarget(e)),
        credentials_of(true) is Include,
        credentials_of(false) is SameOrigin,
{
}

/// A probe lets its read out where it was answered and passes; a failed probe
/// is told as its failure, a refused one as refused.
pub proof fn law_probes_are_answered(check: CheckModel, grant: GrantModel, e: LoadErrorModel)
    ensures
        granted(check, Ok(grant)) <==> check.probe_passes(grant),
        !granted(check, Err(e)),
        refusal(Ok(grant)) is PreflightRefused,
        refusal(Err(e)) == FailureModel::Load(e),
{
}

/// A response reaches the script as its text where nothing checks it or its
/// check passes, and as a failure otherwise.
pub proof fn law_responses_reach_the_script(
    check: CheckModel,
    response: ResponseModel,
    e: LoadErrorModel,
)
    ensures
        readable_text(None, Ok(response)) == Ok::<Seq<char>, FailureModel>(response.text),
        check.readable(response.access_control_allow_origin) ==> readable_text(
            Some(check),
            Ok(response),
        ) == Ok::<Seq<char>, FailureModel>(response.text),
        !check.readable(response.access_control_allow_origin) ==> readable_text(
            Some(check),
            Ok(response),
        ) == Err::<Seq<char>, FailureModel>(FailureModel::NotReadable),
        readable_text(Some(check), Err(e)) == Err::<Seq<char>, FailureModel>(FailureModel::Load(e)),
{
}

/// A grant is remembered once, for its page and its address.
pub proof fn law_grants_are_remembered_once(
    s: SessionModel,
    page_origin: Seq<char>,
    url: UrlModel,
)
    ensures
        with_grant(s, page_origin, url).preflight_cache.contains((page_origin, url.text)),
        s.preflight_cache.contains((page_origin, url.text)) ==> with_grant(s, page_origin, url) == s,
        !s.preflight_cache.contains((page_origin, url.text)) ==> with_grant(
            s,
            page_origin,
            url,
        ).preflight_cache == s.preflight_cache.push((page_origin, url.text)),
        with_grant(s, page_origin, url).history == s.history,
{
    let cache = s.preflight_cache.push((page_origin, url.text));
    assert(cache[s.preflight_cache.len() as int] == (page_origin, url.text));
}

} // verus!
