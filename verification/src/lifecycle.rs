//! Application lifecycle as an event stream.
//!
//! Raw platform listeners are registered immediately after platform
//! construction; events that arrive before the shell is ready are queued by
//! [`EventQueue`] and drained after plugin init, in FIFO order.
//! [`ReentrantQueue`] guards delivery against re-entrancy: an event raised
//! while a delivery pass is running is deferred until the pass ends.

use std::collections::VecDeque;
use std::path::PathBuf;
use vstd::prelude::*;

verus! {

#[verifier::external_type_specification]
#[verifier::external_body]
pub struct ExPathBuf(std::path::PathBuf);

/// Copy a path. Trusted wrapper of `<PathBuf as Clone>::clone`, whose
/// documentation promises an equal, independent path; the contract states that
/// the copy is the same path value.
#[verifier::external_body]
fn clone_path(path: &PathBuf) -> (copy: PathBuf)
    ensures
        copy == *path,
{
    path.clone()
}

/// The characters of every string in a sequence.
pub open spec fn strings_view(strings: Seq<String>) -> Seq<Seq<char>> {
    strings.map_values(|s: String| s@)
}

/// Copy a list of strings.
pub fn copy_strings(strings: &Vec<String>) -> (copy: Vec<String>)
    ensures
        strings_view(copy@) == strings_view(strings@),
{
    let mut copy: Vec<String> = Vec::new();
    let mut i: usize = 0;
    while i < strings.len()
        invariant
            i <= strings@.len(),
            copy@.len() == i,
            forall|j: int| 0 <= j < i ==> (#[trigger] copy@[j])@ == strings@[j]@,
        decreases strings@.len() - i,
    {
        copy.push(strings[i].clone());
        i = i + 1;
    }
    assert(strings_view(copy@) =~= strings_view(strings@));
    copy
}

/// A lifecycle event delivered to plugins and app event handlers.
#[derive(Debug, Clone)]
#[non_exhaustive]
pub enum AppEvent {
    /// The application finished launching. Carries the initial launch request.
    Started(LaunchRequest),
    /// The application was reopened (e.g. dock icon clicked with no windows).
    Reopened,
    /// The platform asked the app to open URLs or files. May arrive before
    /// [`AppEvent::Started`]; such events are queued and delivered after it.
    OpenRequested(OpenRequest),
    /// The last application window closed.
    LastWindowClosed,
    /// A quit was requested through any path. Delivered once, before shutdown
    /// proceeds.
    ShutdownRequested(ShutdownReason),
    /// The process is about to exit.
    WillExit,
}

/// The content of an [`AppEvent`], with every string taken by its characters.
pub enum EventModel {
    /// See [`AppEvent::Started`].
    Started { args: Seq<Seq<char>>, cwd: Option<PathBuf>, urls: Seq<Seq<char>> },
    /// See [`AppEvent::Reopened`].
    Reopened,
    /// See [`AppEvent::OpenRequested`].
    OpenRequested { urls: Seq<Seq<char>> },
    /// See [`AppEvent::LastWindowClosed`].
    LastWindowClosed,
    /// See [`AppEvent::ShutdownRequested`].
    ShutdownRequested { reason: ShutdownReason },
    /// See [`AppEvent::WillExit`].
    WillExit,
}

impl View for AppEvent {
    type V = EventModel;

    open spec fn view(&self) -> EventModel {
        match self {
            AppEvent::Started(request) => EventModel::Started {
                args: strings_view(request.args@),
                cwd: request.cwd,
                urls: strings_view(request.urls@),
            },
            AppEvent::Reopened => EventModel::Reopened,
            AppEvent::OpenRequested(request) => EventModel::OpenRequested {
                urls: strings_view(request.urls@),
            },
            AppEvent::LastWindowClosed => EventModel::LastWindowClosed,
            AppEvent::ShutdownRequested(reason) => EventModel::ShutdownRequested {
                reason: *reason,
            },
            AppEvent::WillExit => EventModel::WillExit,
        }
    }
}

/// The stable name of an event, used by runtime error reporting.
pub open spec fn spec_event_name(event: AppEvent) -> Seq<char> {
    match event {
        AppEvent::Started(_) => "started"@,
        AppEvent::Reopened => "reopened"@,
        AppEvent::OpenRequested(_) => "open_requested"@,
        AppEvent::LastWindowClosed => "last_window_closed"@,
        AppEvent::ShutdownRequested(_) => "shutdown_requested"@,
        AppEvent::WillExit => "will_exit"@,
    }
}

impl AppEvent {
    /// Stable name used by runtime error reporting.
    pub fn name(&self) -> (name: &'static str)
        ensures
            name@ == spec_event_name(*self),
    {
        match self {
            AppEvent::Started(_) => "started",
            AppEvent::Reopened => "reopened",
            AppEvent::OpenRequested(_) => "open_requested",
            AppEvent::LastWindowClosed => "last_window_closed",
            AppEvent::ShutdownRequested(_) => "shutdown_requested",
            AppEvent::WillExit => "will_exit",
        }
    }

    /// An independent copy of this event with the same content.
    pub fn duplicate(&self) -> (copy: AppEvent)
        ensures
            copy@ == self@,
            spec_event_name(copy) == spec_event_name(*self),
    {
        match self {
            AppEvent::Started(request) => {
                let cwd = match &request.cwd {
                    Some(path) => Some(clone_path(path)),
                    None => None,
                };
                AppEvent::Started(
                    LaunchRequest {
                        args: copy_strings(&request.args),
                        cwd,
                        urls: copy_strings(&request.urls),
                    },
                )
            },
            AppEvent::Reopened => AppEvent::Reopened,
            AppEvent::OpenRequested(request) => AppEvent::OpenRequested(
                OpenRequest { urls: copy_strings(&request.urls) },
            ),
            AppEvent::LastWindowClosed => AppEvent::LastWindowClosed,
            AppEvent::ShutdownRequested(reason) => AppEvent::ShutdownRequested(*reason),
            AppEvent::WillExit => AppEvent::WillExit,
        }
    }
}

/// The context in which the application was launched.
#[derive(Debug, Clone)]
pub struct LaunchRequest {
    /// Process arguments (excluding argv\[0\]).
    pub args: Vec<String>,
    /// Working directory at launch, if resolvable.
    pub cwd: Option<PathBuf>,
    /// URLs/files supplied at launch (e.g. `open`-with, deep link).
    pub urls: Vec<String>,
}

impl Default for LaunchRequest {
    fn default() -> (request: Self)
        ensures
            request.args@.len() == 0,
            request.cwd is None,
            request.urls@.len() == 0,
    {
        LaunchRequest { args: Vec::new(), cwd: None, urls: Vec::new() }
    }
}

/// A request to open one or more URLs or files.
#[derive(Debug, Clone)]
pub struct OpenRequest {
    /// The URLs or file paths to open.
    pub urls: Vec<String>,
}

impl Default for OpenRequest {
    fn default() -> (request: Self)
        ensures
            request.urls@.len() == 0,
    {
        OpenRequest { urls: Vec::new() }
    }
}

/// Why the application is shutting down.
#[derive(Debug, Clone, Copy, PartialEq, Eq)]
#[non_exhaustive]
pub enum ShutdownReason {
    /// The transactional startup callback failed.
    StartupFailure,
    /// The last window closed and liveness policy chose to exit.
    LastWindowClosed,
    /// Shutdown was requested programmatically.
    Requested,
    /// The platform initiated quit (OS logout, `Cmd+Q`, tray "Quit").
    PlatformQuit,
}

/// Buffers lifecycle events until the shell is ready, then delivers FIFO.
///
/// Before [`EventQueue::mark_ready`], [`EventQueue::push`] stores the event and
/// returns `None` (queued). After readiness, `push` hands the event back for
/// immediate delivery. [`EventQueue::drain`] empties the buffer in arrival
/// order.
#[derive(Debug)]
pub struct EventQueue {
    ready: bool,
    pending: VecDeque<AppEvent>,
}

/// The readiness flag and the buffered events of an [`EventQueue`].
pub struct QueueModel {
    /// Whether the shell has been marked ready.
    pub ready: bool,
    /// The buffered events, oldest first.
    pub pending: Seq<AppEvent>,
}

impl View for EventQueue {
    type V = QueueModel;

    closed spec fn view(&self) -> QueueModel {
        QueueModel { ready: self.ready, pending: self.pending@ }
    }
}

impl Default for EventQueue {
    fn default() -> (queue: Self)
        ensures
            !queue@.ready,
            queue@.pending.len() == 0,
    {
        EventQueue::new()
    }
}

impl EventQueue {
    /// A new, not-yet-ready queue.
    pub fn new() -> (queue: Self)
        ensures
            !queue@.ready,
            queue@.pending.len() == 0,
    {
        EventQueue { ready: false, pending: VecDeque::new() }
    }

    /// Whether the shell has been marked ready.
    pub fn is_ready(&self) -> (ready: bool)
        ensures
            ready == self@.ready,
    {
        self.ready
    }

    /// Record an event: `Some(event)` when the shell is already ready and the
    /// caller should deliver it now, `None` when it was buffered.
    pub fn push(&mut self, event: AppEvent) -> (deliver: Option<AppEvent>)
        ensures
            final(self)@.ready == old(self)@.ready,
            old(self)@.ready ==> deliver == Some(event) && final(self)@.pending == old(self)@.pending,
            !old(self)@.ready ==> deliver is None && final(self)@.pending == old(self)@.pending.push(event),
    {
        if self.ready {
            Some(event)
        } else {
            self.pending.push_back(event);
            None
        }
    }

    /// Mark the shell ready. Does not itself drain.
    pub fn mark_ready(&mut self)
        ensures
            final(self)@.ready,
            final(self)@.pending == old(self)@.pending,
    {
        self.ready = true;
    }

    /// Remove and return all buffered events in arrival order.
    pub fn drain(&mut self) -> (events: Vec<AppEvent>)
        ensures
            events@ == old(self)@.pending,
            final(self)@.pending.len() == 0,
            final(self)@.ready == old(self)@.ready,
    {
        let ghost all = self.pending@;
        let ghost ready = self.ready;
        let mut events: Vec<AppEvent> = Vec::new();
        loop
            invariant
                all == events@ + self.pending@,
                self.ready == ready,
            ensures
                all == events@ + self.pending@,
                self.pending@.len() == 0,
                self.ready == ready,
            decreases self.pending@.len(),
        {
            match self.pending.pop_front() {
                Some(event) => {
                    events.push(event);
                    assert(all =~= events@ + self.pending@);
                },
                None => {
                    break ;
                },
            }
        }
        assert(events@ =~= all);
        events
    }

    /// Number of buffered events.
    pub fn len(&self) -> (n: usize)
        ensures
            n == self@.pending.len(),
    {
        self.pending.len()
    }

    /// Whether the buffer is empty.
    pub fn is_empty(&self) -> (empty: bool)
        ensures
            empty == (self@.pending.len() == 0),
    {
        self.pending.len() == 0
    }
}

/// Guards event delivery against re-entrancy: while a pass is active a nested
/// event is buffered here and drained after the current pass, in arrival
/// order.
#[derive(Debug)]
pub struct ReentrantQueue {
    delivering: bool,
    deferred: VecDeque<AppEvent>,
}

/// Whether a pass is active, and the deferred events by content, oldest first.
pub struct ReentrantModel {
    /// Whether a delivery pass is active.
    pub delivering: bool,
    /// The deferred events.
    pub deferred: Seq<EventModel>,
}

impl View for ReentrantQueue {
    type V = ReentrantModel;

    closed spec fn view(&self) -> ReentrantModel {
        ReentrantModel {
            delivering: self.delivering,
            deferred: self.deferred@.map_values(|e: AppEvent| e@),
        }
    }
}

impl Default for ReentrantQueue {
    fn default() -> (queue: Self)
        ensures
            !queue@.delivering,
            queue@.deferred.len() == 0,
    {
        ReentrantQueue::new()
    }
}

impl ReentrantQueue {
    /// A new, idle queue.
    pub fn new() -> (queue: Self)
        ensures
            !queue@.delivering,
            queue@.deferred.len() == 0,
    {
        ReentrantQueue { delivering: false, deferred: VecDeque::new() }
    }

    /// Begin a delivery pass for `event`: `true` (deliver now) when no pass
    /// was active, which starts one; `false` when a pass is already active,
    /// in which case a copy of `event` is deferred.
    pub fn try_enter(&mut self, event: &AppEvent) -> (deliver: bool)
        ensures
            deliver == !old(self)@.delivering,
            final(self)@.delivering,
            deliver ==> final(self)@.deferred == old(self)@.deferred,
            !deliver ==> final(self)@.deferred == old(self)@.deferred.push(event@),
    {
        if self.delivering {
            let ghost before = self.deferred@;
            self.deferred.push_back(event.duplicate());
            assert(self.deferred@.map_values(|e: AppEvent| e@) =~= before.map_values(
                |e: AppEvent| e@,
            ).push(event@));
            false
        } else {
            self.delivering = true;
            true
        }
    }

    /// After delivering one event, the next deferred event, or `None` to end
    /// the pass (clearing the in-progress flag).
    pub fn take_next(&mut self) -> (next: Option<AppEvent>)
        ensures
            old(self)@.deferred.len() == 0 ==> next is None && !final(self)@.delivering
                && final(self)@.deferred.len() == 0,
            old(self)@.deferred.len() > 0 ==> next is Some && next.unwrap()@
                == old(self)@.deferred[0] && final(self)@.delivering == old(self)@.delivering
                && final(self)@.deferred == old(self)@.deferred.drop_first(),
    {
        let ghost before = self.deferred@;
        match self.deferred.pop_front() {
            Some(event) => {
                assert(self.deferred@.map_values(|e: AppEvent| e@) =~= before.map_values(
                    |e: AppEvent| e@,
                ).drop_first());
                Some(event)
            },
            None => {
                self.delivering = false;
                None
            },
        }
    }

    /// Whether a delivery pass is active.
    pub fn is_delivering(&self) -> (delivering: bool)
        ensures
            delivering == self@.delivering,
    {
        self.delivering
    }
}

} // verus!
