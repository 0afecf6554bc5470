//! The queue of script-initiated loads: which id a load gets, where it runs,
//! and which completions wait to be settled. Workers and channels are the
//! shell's part.
use crate::browser::cors::{CorsPreflight, PreflightModel};
use crate::browser::request::{RequestModel, ResourceRequest};
use crate::browser::url::{Url, UrlModel};
use crate::text;
use vstd::prelude::*;

verus! {

/// How submitted loads run.
#[derive(Debug, Clone, Copy, PartialEq, Eq, Structural)]
pub enum Executor {
    /// On the submitting thread, before the submit returns — deterministic.
    Inline,
    /// One short-lived thread per load; the submitting thread never
    /// blocks.
    Threads,
    /// Parked until [`NetworkQueue::drive`] hands the backlog out.
    Manual,
}

/// A load to be run.
#[derive(Debug)]
pub enum Task {
    Fetch { id: u64, request: ResourceRequest },
    Preflight { id: u64, probe: CorsPreflight },
    Module { slot: u64, request: ResourceRequest },
}

pub enum TaskModel {
    Fetch { id: u64, request: RequestModel },
    Preflight { id: u64, probe: PreflightModel },
    Module { slot: u64, request: RequestModel },
}

impl View for Task {
    type V = TaskModel;

    open spec fn view(&self) -> TaskModel {
        match self {
            Task::Fetch { id, request } => TaskModel::Fetch { id: *id, request: request@ },
            Task::Preflight { id, probe } => TaskModel::Preflight { id: *id, probe: probe@ },
            Task::Module { slot, request } => TaskModel::Module {
                slot: *slot,
                request: request@,
            },
        }
    }
}

pub open spec fn task_models(tasks: Seq<Task>) -> Seq<TaskModel> {
    Seq::new(tasks.len(), |i: int| tasks[i]@)
}

/// What the shell does with a submitted load.
#[derive(Debug)]
pub enum Start {
    /// Run it before going on.
    Now(Task),
    /// Run it on a thread of its own.
    Thread(Task),
    /// It is parked.
    Parked,
}

pub enum StartModel {
    Now(TaskModel),
    Thread(TaskModel),
    Parked,
}

impl View for Start {
    type V = StartModel;

    open spec fn view(&self) -> StartModel {
        match self {
            Start::Now(task) => StartModel::Now(task@),
            Start::Thread(task) => StartModel::Thread(task@),
            Start::Parked => StartModel::Parked,
        }
    }
}

/// The queue behind a page's scripts.
#[derive(Debug)]
pub struct NetworkQueue {
    pub next_id: u64,
    pub executor: Executor,
    pub parked: Vec<Task>,
    /// Completions sent by workers but not yet drained — registration
    /// of a late wake hook fires for these.
    pub undrained: usize,
    /// Module loads submitted but not yet delivered. The script job
    /// executor keeps polling while this is non-zero.
    pub module_in_flight: usize,
    /// `Set-Cookie` headers of module responses, kept for the jar.
    pub module_cookies: Vec<(Url, Vec<String>)>,
}

pub type CookieNotes = Seq<(UrlModel, Seq<Seq<char>>)>;

pub open spec fn note_models(notes: Seq<(Url, Vec<String>)>) -> CookieNotes {
    Seq::new(notes.len(), |i: int| (notes[i].0@, text::texts(notes[i].1@)))
}

#[verifier::ext_equal]
pub struct QueueModel {
    pub next_id: u64,
    pub executor: Executor,
    pub parked: Seq<TaskModel>,
    pub undrained: usize,
    pub module_in_flight: usize,
    pub module_cookies: CookieNotes,
}

impl View for NetworkQueue {
    type V = QueueModel;

    open spec fn view(&self) -> QueueModel {
        QueueModel {
            next_id: self.next_id,
            executor: self.executor,
            parked: task_models(self.parked@),
            undrained: self.undrained,
            module_in_flight: self.module_in_flight,
            module_cookies: note_models(self.module_cookies@),
        }
    }
}

impl QueueModel {
    /// The queue after a task was started.
    pub open spec fn started(self, task: TaskModel) -> QueueModel {
        if self.executor == Executor::Manual {
            QueueModel { parked: self.parked.push(task), ..self }
        } else {
            self
        }
    }

    /// The queue with the next id taken.
    pub open spec fn numbered(self) -> QueueModel {
        QueueModel { next_id: (self.next_id + 1) as u64, ..self }
    }
}

/// Where a task goes.
pub open spec fn placed(executor: Executor, task: TaskModel) -> StartModel {
    match executor {
        Executor::Inline => StartModel::Now(task),
        Executor::Threads => StartModel::Thread(task),
        Executor::Manual => StartModel::Parked,
    }
}

impl NetworkQueue {
    fn with_executor(executor: Executor) -> (r: NetworkQueue)
        ensures
            r@ == (QueueModel {
                next_id: 0,
                executor,
                parked: Seq::empty(),
                undrained: 0,
                module_in_flight: 0,
                module_cookies: Seq::empty(),
            }),
    {
        let r = NetworkQueue {
            next_id: 0,
            executor,
            parked: Vec::new(),
            undrained: 0,
            module_in_flight: 0,
            module_cookies: Vec::new(),
        };
        assert(r@.parked =~= Seq::empty());
        assert(r@.module_cookies =~= Seq::empty());
        r
    }

    /// Executes each submitted load on the submitting thread.
    pub fn inline() -> (r: NetworkQueue)
        ensures
            r@ == (QueueModel {
                next_id: 0,
                executor: Executor::Inline,
                parked: Seq::empty(),
                undrained: 0,
                module_in_flight: 0,
                module_cookies: Seq::empty(),
            }),
    {
        NetworkQueue::with_executor(Executor::Inline)
    }

    /// Executes each submitted load on its own short-lived thread.
    pub fn threaded() -> (r: NetworkQueue)
        ensures
            r@ == (QueueModel {
                next_id: 0,
                executor: Executor::Threads,
                parked: Seq::empty(),
                undrained: 0,
                module_in_flight: 0,
                module_cookies: Seq::empty(),
            }),
    {
        NetworkQueue::with_executor(Executor::Threads)
    }

    /// Parks submitted loads until [`NetworkQueue::drive`] hands them out.
    pub fn manual() -> (r: NetworkQueue)
        ensures
            r@ == (QueueModel {
                next_id: 0,
                executor: Executor::Manual,
                parked: Seq::empty(),
                undrained: 0,
                module_in_flight: 0,
                module_cookies: Seq::empty(),
            }),
    {
        NetworkQueue::with_executor(Executor::Manual)
    }

    fn start(&mut self, task: Task) -> (r: Start)
        ensures
            r@ == placed(old(self)@.executor, task@),
            final(self)@ == old(self)@.started(task@),
    {
        match self.executor {
            Executor::Inline => Start::Now(task),
            Executor::Threads => Start::Thread(task),
            Executor::Manual => {
                let ghost before = self@.parked;
                self.parked.push(task);
                assert(self@.parked =~= before.push(task@));
                Start::Parked
            },
        }
    }

    /// Submits a prepared fetch/XHR request; the id pairs the eventual
    /// completion with its waiting promise/XHR.
    pub fn submit(&mut self, request: ResourceRequest) -> (r: (u64, Start))
        requires
            old(self)@.next_id < u64::MAX,
        ensures
            r.0 == old(self)@.next_id,
            r.1@ == placed(
                old(self)@.executor,
                TaskModel::Fetch { id: r.0, request: request@ },
            ),
            final(self)@ == old(self)@.numbered().started(
                TaskModel::Fetch { id: r.0, request: request@ },
            ),
    {
        let id: u64 = self.next_id;
        self.next_id = id + 1;
        let start = self.start(Task::Fetch { id, request });
        (id, start)
    }

    /// Submits a CORS preflight probe; the id pairs its answer with the read
    /// that waits for it.
    pub fn submit_preflight(&mut self, probe: CorsPreflight) -> (r: (u64, Start))
        requires
            old(self)@.next_id < u64::MAX,
        ensures
            r.0 == old(self)@.next_id,
            r.1@ == placed(
                old(self)@.executor,
                TaskModel::Preflight { id: r.0, probe: probe@ },
            ),
            final(self)@ == old(self)@.numbered().started(
                TaskModel::Preflight { id: r.0, probe: probe@ },
            ),
    {
        let id: u64 = self.next_id;
        self.next_id = id + 1;
        let start = self.start(Task::Preflight { id, probe });
        (id, start)
    }

    /// Submits a prepared module-source request; the slot fills when the load
    /// lands.
    pub fn submit_module(&mut self, request: ResourceRequest) -> (r: (u64, Start))
        requires
            old(self)@.next_id < u64::MAX,
            old(self)@.module_in_flight < usize::MAX,
        ensures
            r.0 == old(self)@.next_id,
            r.1@ == placed(
                old(self)@.executor,
                TaskModel::Module { slot: r.0, request: request@ },
            ),
            final(self)@ == (QueueModel {
                module_in_flight: (old(self)@.module_in_flight + 1) as usize,
                ..old(self)@.numbered().started(
                    TaskModel::Module { slot: r.0, request: request@ },
                )
            }),
    {
        let slot: u64 = self.next_id;
        self.next_id = slot + 1;
        self.module_in_flight = self.module_in_flight + 1;
        let start = self.start(Task::Module { slot, request });
        (slot, start)
    }

    /// A module load was delivered.
    pub fn module_landed(&mut self)
        requires
            old(self)@.module_in_flight > 0,
        ensures
            final(self)@ == (QueueModel {
                module_in_flight: (old(self)@.module_in_flight - 1) as usize,
                ..old(self)@
            }),
    {
        self.module_in_flight = self.module_in_flight - 1;
    }

    /// Whether a module load is in flight.
    pub fn module_activity(&self) -> (r: bool)
        ensures
            r == (self@.module_in_flight > 0),
    {
        self.module_in_flight > 0
    }

    /// A completion was sent but not yet drained.
    pub fn landed(&mut self)
        requires
            old(self)@.undrained < usize::MAX,
        ensures
            final(self)@ == (QueueModel {
                undrained: (old(self)@.undrained + 1) as usize,
                ..old(self)@
            }),
    {
        self.undrained = self.undrained + 1;
    }

    /// That many completions were drained.
    pub fn drained(&mut self, count: usize)
        requires
            count <= old(self)@.undrained,
        ensures
            final(self)@ == (QueueModel {
                undrained: (old(self)@.undrained - count) as usize,
                ..old(self)@
            }),
    {
        self.undrained = self.undrained - count;
    }

    /// Whether a wake hook that is registered now has to fire at once:
    /// completions that already landed must not sit in the channel unnoticed.
    pub fn wakes_on_registration(&self) -> (r: bool)
        ensures
            r == (self@.undrained > 0),
    {
        self.undrained > 0
    }

    /// Hands the parked backlog out, in the order in which it was submitted.
    pub fn drive(&mut self) -> (r: Vec<Task>)
        ensures
            task_models(r@) == old(self)@.parked,
            final(self)@ == (QueueModel { parked: Seq::empty(), ..old(self)@ }),
    {
        let mut taken: Vec<Task> = Vec::new();
        std::mem::swap(&mut taken, &mut self.parked);
        assert(self@.parked =~= Seq::empty());
        taken
    }

    /// Keeps the `Set-Cookie` headers of a module response for the jar.
    pub fn note_module_cookies(&mut self, final_url: Url, set_cookies: Vec<String>)
        ensures
            final(self)@ == (QueueModel {
                module_cookies: old(self)@.module_cookies.push(
                    (final_url@, text::texts(set_cookies@)),
                ),
                ..old(self)@
            }),
    {
        let ghost before = self@.module_cookies;
        let ghost note = (final_url@, text::texts(set_cookies@));
        self.module_cookies.push((final_url, set_cookies));
        assert(self@.module_cookies =~= before.push(note));
    }

    /// Takes the kept `Set-Cookie` headers out.
    pub fn take_module_cookies(&mut self) -> (r: Vec<(Url, Vec<String>)>)
        ensures
            note_models(r@) == old(self)@.module_cookies,
            final(self)@ == (QueueModel { module_cookies: Seq::empty(), ..old(self)@ }),
    {
        let mut taken: Vec<(Url, Vec<String>)> = Vec::new();
        std::mem::swap(&mut taken, &mut self.module_cookies);
        assert(self@.module_cookies =~= Seq::empty());
        taken
    }
}

// ---------------------------------------------------------------------------
// Laws
// ---------------------------------------------------------------------------
pub open spec fn task_id(task: TaskModel) -> u64 {
    match task {
        TaskModel::Fetch { id, request } => id,
        TaskModel::Preflight { id, probe } => id,
        TaskModel::Module { slot, request } => slot,
    }
}

/// Every parked task has an id that was given out, and no two have the same.
pub open spec fn ids_given(q: QueueModel) -> bool {
    &&& forall|i: int| 0 <= i < q.parked.len() ==> task_id(#[trigger] q.parked[i]) < q.next_id
    &&& forall|i: int, j: int|
        0 <= i < j < q.parked.len() ==> task_id(#[trigger] q.parked[i]) != task_id(
            #[trigger] q.parked[j],
        )
}

/// A submitted load gets an id that no earlier load has, whatever kind it is.
pub proof fn law_ids_are_given_once(q: QueueModel, task: TaskModel)
    requires
        ids_given(q),
        q.next_id < u64::MAX,
        task_id(task) == q.next_id,
    ensures
        ids_given(q.numbered().started(task)),
        forall|i: int| 0 <= i < q.parked.len() ==> task_id(#[trigger] q.parked[i]) != task_id(task),
{
}

/// Each executor runs a task in its own way: at once, on a thread, or parked
/// until it is asked for. Only a parked task is kept, behind the others.
pub proof fn law_executors_place_tasks(q: QueueModel, task: TaskModel)
    ensures
        placed(Executor::Inline, task) == StartModel::Now(task),
        placed(Executor::Threads, task) == StartModel::Thread(task),
        placed(Executor::Manual, task) is Parked,
        q.executor is Manual ==> q.started(task).parked == q.parked.push(task),
        !(q.executor is Manual) ==> q.started(task) == q,
        q.next_id < u64::MAX ==> q.numbered().next_id == q.next_id + 1,
        q.numbered().parked == q.parked,
{
}

} // verus!
