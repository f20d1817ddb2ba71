//! The decisions of the in-game task that types `/fullmute all` once a
//! game has started: waiting for the live-client API to report game time,
//! then waiting for the game window to have the foreground.
use vstd::prelude::*;

use crate::lcu::opt_view;
use crate::text::{ascii_lower_seq, chars_eq_ignore_ascii_case, chars_of, eq_ignore_ascii_case};

verus! {

/// How long the task waits in all, in milliseconds.
pub const FULLMUTE_TIMEOUT_MS: u64 = 180000u64;
/// Game time, in whole seconds, from which the game counts as started.
pub const MIN_GAME_TIME_SECS: i64 = 2i64;
/// Least time between two "still waiting for the live client" messages.
pub const LIVECLIENT_LOG_INTERVAL_MS: u64 = 3000u64;
/// Least time between two "still waiting for the foreground" messages for
/// the same foreground program.
pub const FOREGROUND_LOG_INTERVAL_MS: u64 = 2000u64;
/// Pause between two live-client polls.
pub const LIVECLIENT_POLL_MS: u64 = 1000u64;
/// Pause between two foreground polls.
pub const FOREGROUND_POLL_MS: u64 = 250u64;
/// Pause between seeing the game in the foreground and typing.
pub const GAME_FOREGROUND_SETTLE_MS: u64 = 750u64;

/// The command typed into the game chat.
pub fn fullmute_command() -> (r: &'static str)
    ensures
        r@ == "/fullmute all"@,
{
    "/fullmute all"
}

/// The moment the task gives up: 180 seconds after it started (saturating).
pub fn fullmute_deadline(start_ms: u64) -> (r: u64)
    ensures
        r == if start_ms + FULLMUTE_TIMEOUT_MS > u64::MAX {
            u64::MAX as int
        } else {
            start_ms + FULLMUTE_TIMEOUT_MS
        },
{
    start_ms.saturating_add(FULLMUTE_TIMEOUT_MS)
}

/// Whether the task keeps going: the deadline has not passed and no stop
/// was requested.
pub fn keep_waiting(now_ms: u64, deadline_ms: u64, stopped: bool) -> (r: bool)
    ensures
        r == (now_ms < deadline_ms && !stopped),
{
    now_ms < deadline_ms && !stopped
}

/// Whether a periodic message is due: nothing was logged yet, or at least
/// `interval` milliseconds passed since the last message.
pub open spec fn log_due(last_log: Option<u64>, now: u64, interval: u64) -> bool {
    match last_log {
        None => true,
        Some(t) => now >= t && now - t >= interval,
    }
}

fn log_due_exec(last_log: Option<u64>, now: u64, interval: u64) -> (r: bool)
    ensures
        r == log_due(last_log, now, interval),
{
    match last_log {
        None => true,
        Some(t) => now >= t && now - t >= interval,
    }
}

/// One answer of the live-client API.
#[derive(Debug, PartialEq, Eq)]
pub enum LiveClientPoll {
    /// The game time, rounded down to whole seconds.
    GameTime(i64),
    /// No usable answer.
    Unavailable,
    /// The request failed; the error text.
    Failed(String),
}

/// The mathematical content of a [`LiveClientPoll`].
pub enum LiveClientPollView {
    GameTime(i64),
    Unavailable,
    Failed(Seq<char>),
}

pub open spec fn live_poll_view(p: LiveClientPoll) -> LiveClientPollView {
    match p {
        LiveClientPoll::GameTime(t) => LiveClientPollView::GameTime(t),
        LiveClientPoll::Unavailable => LiveClientPollView::Unavailable,
        LiveClientPoll::Failed(e) => LiveClientPollView::Failed(e@),
    }
}

/// The periodic "still waiting" message.
#[derive(Debug, PartialEq, Eq)]
pub enum LiveClientStatus {
    /// The last request failed with this error.
    LastError(String),
    /// The game runs but has not reached the start time; the game time.
    GameTime(i64),
    /// No answer yet.
    Waiting,
}

/// The mathematical content of a [`LiveClientStatus`].
pub enum LiveClientStatusView {
    LastError(Seq<char>),
    GameTime(i64),
    Waiting,
}

pub open spec fn live_status_view(s: LiveClientStatus) -> LiveClientStatusView {
    match s {
        LiveClientStatus::LastError(e) => LiveClientStatusView::LastError(e@),
        LiveClientStatus::GameTime(t) => LiveClientStatusView::GameTime(t),
        LiveClientStatus::Waiting => LiveClientStatusView::Waiting,
    }
}

/// What to do after a live-client answer.
#[derive(Debug, PartialEq, Eq)]
pub enum LiveClientStep {
    /// The game has started.
    Ready,
    /// Keep polling; log the message when there is one.
    Wait(Option<LiveClientStatus>),
}

/// The mathematical content of a [`LiveClientStep`].
pub enum LiveClientStepView {
    Ready,
    Wait(Option<LiveClientStatusView>),
}

pub open spec fn live_step_view(s: LiveClientStep) -> LiveClientStepView {
    match s {
        LiveClientStep::Ready => LiveClientStepView::Ready,
        LiveClientStep::Wait(None) => LiveClientStepView::Wait(None),
        LiveClientStep::Wait(Some(m)) => LiveClientStepView::Wait(Some(live_status_view(m))),
    }
}

/// What the live-client wait remembers.
pub struct LiveClientView {
    pub last_log: Option<u64>,
    pub last_err: Option<Seq<char>>,
    pub last_time: Option<i64>,
}

/// Whether an answer says that the game has started.
pub open spec fn live_ready(p: LiveClientPollView) -> bool {
    match p {
        LiveClientPollView::GameTime(t) => t >= MIN_GAME_TIME_SECS,
        _ => false,
    }
}

/// The memory after an answer that does not say the game started: a game
/// time replaces the last error, an error is remembered.
pub open spec fn live_remember(s: LiveClientView, p: LiveClientPollView) -> LiveClientView {
    match p {
        LiveClientPollView::GameTime(t) => LiveClientView { last_time: Some(t), last_err: None, ..s },
        LiveClientPollView::Unavailable => s,
        LiveClientPollView::Failed(e) => LiveClientView { last_err: Some(e), ..s },
    }
}

/// The message that reports the memory: the last error if any, else the
/// last game time if any, else plain waiting.
pub open spec fn live_status_of(s: LiveClientView) -> LiveClientStatusView {
    match s.last_err {
        Some(e) => LiveClientStatusView::LastError(e),
        None => match s.last_time {
            Some(t) => LiveClientStatusView::GameTime(t),
            None => LiveClientStatusView::Waiting,
        },
    }
}

/// The memory and step after answer `p` at time `now`.
pub open spec fn live_step(s: LiveClientView, now: u64, p: LiveClientPollView) -> (LiveClientView, LiveClientStepView) {
    if live_ready(p) {
        (s, LiveClientStepView::Ready)
    } else {
        let s1 = live_remember(s, p);
        if log_due(s1.last_log, now, LIVECLIENT_LOG_INTERVAL_MS) {
            (
                LiveClientView { last_log: Some(now), ..s1 },
                LiveClientStepView::Wait(Some(live_status_of(s1))),
            )
        } else {
            (s1, LiveClientStepView::Wait(None))
        }
    }
}

/// Waits for the live-client API to report that the game has started.
pub struct LiveClientWait {
    last_log_ms: Option<u64>,
    last_err: Option<String>,
    last_time: Option<i64>,
}

impl View for LiveClientWait {
    type V = LiveClientView;

    closed spec fn view(&self) -> LiveClientView {
        LiveClientView {
            last_log: self.last_log_ms,
            last_err: opt_view(self.last_err),
            last_time: self.last_time,
        }
    }
}

impl LiveClientWait {
    /// Nothing heard, nothing logged.
    pub fn new() -> (r: LiveClientWait)
        ensures
            r@ == (LiveClientView { last_log: None, last_err: None, last_time: None }),
    {
        LiveClientWait { last_log_ms: None, last_err: None, last_time: None }
    }

    /// Takes the answer `poll` received at time `now_ms`.
    pub fn on_poll(&mut self, now_ms: u64, poll: LiveClientPoll) -> (r: LiveClientStep)
        ensures
            (final(self)@, live_step_view(r)) == live_step(old(self)@, now_ms, live_poll_view(poll)),
    {
        match poll {
            LiveClientPoll::GameTime(t) => {
                if t >= MIN_GAME_TIME_SECS {
                    return LiveClientStep::Ready;
                }
                self.last_time = Some(t);
                self.last_err = None;
            },
            LiveClientPoll::Unavailable => {},
            LiveClientPoll::Failed(e) => {
                self.last_err = Some(e);
            },
        }
        if log_due_exec(self.last_log_ms, now_ms, LIVECLIENT_LOG_INTERVAL_MS) {
            let status = match &self.last_err {
                Some(e) => LiveClientStatus::LastError(e.clone()),
                None => match self.last_time {
                    Some(t) => LiveClientStatus::GameTime(t),
                    None => LiveClientStatus::Waiting,
                },
            };
            self.last_log_ms = Some(now_ms);
            LiveClientStep::Wait(Some(status))
        } else {
            LiveClientStep::Wait(None)
        }
    }
}

/// One look at the foreground window.
#[derive(Debug, PartialEq, Eq)]
pub enum ForegroundPoll {
    /// The executable name of the foreground window's program.
    Window(String),
    /// No foreground window, or its ids are unknown.
    NoWindow,
    /// The query failed.
    Failed,
}

/// The mathematical content of a [`ForegroundPoll`].
pub enum ForegroundPollView {
    Window(Seq<char>),
    NoWindow,
    Failed,
}

pub open spec fn foreground_poll_view(p: ForegroundPoll) -> ForegroundPollView {
    match p {
        ForegroundPoll::Window(n) => ForegroundPollView::Window(n@),
        ForegroundPoll::NoWindow => ForegroundPollView::NoWindow,
        ForegroundPoll::Failed => ForegroundPollView::Failed,
    }
}

/// What to do after a foreground look.
#[derive(Debug, PartialEq, Eq)]
pub enum FullmuteStep {
    /// The game has the foreground: type the command.
    SendCommand,
    /// Keep polling; log which program has the foreground when `log_waiting`.
    Wait { log_waiting: bool },
}

/// What the foreground wait remembers.
pub struct ForegroundView {
    pub last_name: Option<Seq<char>>,
    pub last_log: Option<u64>,
}

/// Whether an executable name is the game's (ASCII case ignored).
pub open spec fn is_game_exe(name: Seq<char>) -> bool {
    eq_ignore_ascii_case(name, "League of Legends.exe"@)
}

/// The memory and step after foreground look `p` at time `now`: the game in
/// the foreground sends the command; another program is logged when it
/// changed or when two seconds passed since the last message; a failed
/// query is logged at once (and counts as a message).
pub open spec fn foreground_step(s: ForegroundView, now: u64, p: ForegroundPollView) -> (ForegroundView, FullmuteStep) {
    match p {
        ForegroundPollView::Window(n) => if is_game_exe(n) {
            (s, FullmuteStep::SendCommand)
        } else if s.last_name != Some(n) || log_due(s.last_log, now, FOREGROUND_LOG_INTERVAL_MS) {
            (ForegroundView { last_name: Some(n), last_log: Some(now) }, FullmuteStep::Wait { log_waiting: true })
        } else {
            (s, FullmuteStep::Wait { log_waiting: false })
        },
        ForegroundPollView::NoWindow => (s, FullmuteStep::Wait { log_waiting: false }),
        ForegroundPollView::Failed => (
            ForegroundView { last_log: Some(now), ..s },
            FullmuteStep::Wait { log_waiting: false },
        ),
    }
}

/// Waits for the game window to have the foreground.
pub struct ForegroundWait {
    last_name: Option<String>,
    last_log_ms: Option<u64>,
}

impl View for ForegroundWait {
    type V = ForegroundView;

    closed spec fn view(&self) -> ForegroundView {
        ForegroundView { last_name: opt_view(self.last_name), last_log: self.last_log_ms }
    }
}

impl ForegroundWait {
    /// Nothing seen, nothing logged.
    pub fn new() -> (r: ForegroundWait)
        ensures
            r@ == (ForegroundView { last_name: None, last_log: None }),
    {
        ForegroundWait { last_name: None, last_log_ms: None }
    }

    /// Takes the foreground look `poll` made at time `now_ms`.
    pub fn on_foreground(&mut self, now_ms: u64, poll: ForegroundPoll) -> (r: FullmuteStep)
        ensures
            (final(self)@, r) == foreground_step(old(self)@, now_ms, foreground_poll_view(poll)),
    {
        match poll {
            ForegroundPoll::Window(name) => {
                let n = chars_of(name.as_str());
                if chars_eq_ignore_ascii_case(&n, &chars_of("League of Legends.exe")) {
                    return FullmuteStep::SendCommand;
                }
                let changed = match &self.last_name {
                    Some(last) => !(*last == name),
                    None => true,
                };
                if changed || log_due_exec(self.last_log_ms, now_ms, FOREGROUND_LOG_INTERVAL_MS) {
                    self.last_name = Some(name);
                    self.last_log_ms = Some(now_ms);
                    FullmuteStep::Wait { log_waiting: true }
                } else {
                    FullmuteStep::Wait { log_waiting: false }
                }
            },
            ForegroundPoll::NoWindow => FullmuteStep::Wait { log_waiting: false },
            ForegroundPoll::Failed => {
                self.last_log_ms = Some(now_ms);
                FullmuteStep::Wait { log_waiting: false }
            },
        }
    }
}


/// Where the in-game mute task stands.
#[derive(Debug, PartialEq, Eq, Clone, Copy)]
pub enum TaskStage {
    /// Waiting for the live-client API to report a started game.
    WaitLiveClient,
    /// Waiting for the game window to have the foreground.
    WaitForeground,
    /// The command was sent, or the task gave up.
    Done,
}

/// What the task does next.
#[derive(Debug, PartialEq, Eq)]
pub enum TaskAction {
    /// Ask the live-client API for the game time.
    PollLiveClient,
    /// Look at the foreground window.
    LookAtForeground,
    /// End the task.
    Finish,
}

/// The mathematical content of a [`FullmuteTask`].
pub struct TaskView {
    pub stage: TaskStage,
    pub deadline: u64,
    pub live: LiveClientView,
    pub fg: ForegroundView,
}

/// What happens to the task.
pub enum TaskEvent {
    /// The loop asks what to do next at time `now`, with a stop requested
    /// or not.
    Next(u64, bool),
    /// A live-client answer at time `now`.
    Live(u64, LiveClientPollView),
    /// A foreground look at time `now`.
    Look(u64, ForegroundPollView),
    /// The command was typed; whether that succeeded.
    Sent(bool),
}

/// What the task answers to an event.
pub enum TaskOutput {
    Action(TaskAction),
    Live(LiveClientStepView),
    Look(FullmuteStep),
    Nothing,
}

/// The task at its start at time `start`.
pub open spec fn task_start(start: u64) -> TaskView {
    TaskView {
        stage: TaskStage::WaitLiveClient,
        deadline: if start + FULLMUTE_TIMEOUT_MS > u64::MAX {
            u64::MAX
        } else {
            (start + FULLMUTE_TIMEOUT_MS) as u64
        },
        live: LiveClientView { last_log: None, last_err: None, last_time: None },
        fg: ForegroundView { last_name: None, last_log: None },
    }
}

/// The next action in `s` at time `now`: finish when done, when the deadline
/// passed or a stop was requested; else the poll of the current stage.
pub open spec fn task_action(s: TaskView, now: u64, stopped: bool) -> TaskAction {
    if s.stage == TaskStage::Done || !(now < s.deadline && !stopped) {
        TaskAction::Finish
    } else if s.stage == TaskStage::WaitLiveClient {
        TaskAction::PollLiveClient
    } else {
        TaskAction::LookAtForeground
    }
}

/// The task and its answer after event `e`: asking for the next action
/// ends the task when it says finish; a live-client answer counts only
/// while waiting for the live client, and a started game moves on to the
/// foreground wait; a foreground look counts only while waiting for the
/// foreground; a successful send, in that stage, ends the task.
pub open spec fn task_step(s: TaskView, e: TaskEvent) -> (TaskView, TaskOutput) {
    match e {
        TaskEvent::Next(now, stopped) => {
            let a = task_action(s, now, stopped);
            (
                if a == TaskAction::Finish {
                    TaskView { stage: TaskStage::Done, ..s }
                } else {
                    s
                },
                TaskOutput::Action(a),
            )
        },
        TaskEvent::Live(now, p) => if s.stage == TaskStage::WaitLiveClient {
            let (l, st) = live_step(s.live, now, p);
            (
                TaskView {
                    live: l,
                    stage: if st == LiveClientStepView::Ready {
                        TaskStage::WaitForeground
                    } else {
                        TaskStage::WaitLiveClient
                    },
                    ..s
                },
                TaskOutput::Live(st),
            )
        } else {
            (s, TaskOutput::Live(LiveClientStepView::Wait(None)))
        },
        TaskEvent::Look(now, p) => if s.stage == TaskStage::WaitForeground {
            let (f, st) = foreground_step(s.fg, now, p);
            (TaskView { fg: f, ..s }, TaskOutput::Look(st))
        } else {
            (s, TaskOutput::Look(FullmuteStep::Wait { log_waiting: false }))
        },
        TaskEvent::Sent(ok) => (
            if ok && s.stage == TaskStage::WaitForeground {
                TaskView { stage: TaskStage::Done, ..s }
            } else {
                s
            },
            TaskOutput::Nothing,
        ),
    }
}

/// The in-game mute task: the live-client wait, then the foreground wait,
/// under one deadline.
pub struct FullmuteTask {
    stage: TaskStage,
    deadline: u64,
    live: LiveClientWait,
    fg: ForegroundWait,
}

impl View for FullmuteTask {
    type V = TaskView;

    closed spec fn view(&self) -> TaskView {
        TaskView { stage: self.stage, deadline: self.deadline, live: self.live@, fg: self.fg@ }
    }
}

impl FullmuteTask {
    /// A task started at time `start_ms`, with its deadline 180 seconds
    /// later.
    pub fn new(start_ms: u64) -> (r: FullmuteTask)
        ensures
            r@ == task_start(start_ms),
    {
        FullmuteTask {
            stage: TaskStage::WaitLiveClient,
            deadline: fullmute_deadline(start_ms),
            live: LiveClientWait::new(),
            fg: ForegroundWait::new(),
        }
    }

    /// Where the task stands.
    pub fn stage(&self) -> (r: TaskStage)
        ensures
            r == self@.stage,
    {
        self.stage
    }

    /// What to do next at time `now_ms`, with a stop requested or not.
    pub fn next(&mut self, now_ms: u64, stopped: bool) -> (r: TaskAction)
        ensures
            (final(self)@, TaskOutput::Action(r)) == task_step(old(self)@, TaskEvent::Next(now_ms, stopped)),
    {
        let done = match self.stage {
            TaskStage::Done => true,
            _ => false,
        };
        if done || !keep_waiting(now_ms, self.deadline, stopped) {
            self.stage = TaskStage::Done;
            return TaskAction::Finish;
        }
        match self.stage {
            TaskStage::WaitLiveClient => TaskAction::PollLiveClient,
            _ => TaskAction::LookAtForeground,
        }
    }

    /// Takes a live-client answer received at time `now_ms`.
    pub fn on_live_poll(&mut self, now_ms: u64, poll: LiveClientPoll) -> (r: LiveClientStep)
        ensures
            (final(self)@, TaskOutput::Live(live_step_view(r))) == task_step(
                old(self)@,
                TaskEvent::Live(now_ms, live_poll_view(poll)),
            ),
    {
        match self.stage {
            TaskStage::WaitLiveClient => {},
            _ => return LiveClientStep::Wait(None),
        }
        let r = self.live.on_poll(now_ms, poll);
        match r {
            LiveClientStep::Ready => {
                self.stage = TaskStage::WaitForeground;
            },
            _ => {},
        }
        r
    }

    /// Takes a foreground look made at time `now_ms`.
    pub fn on_foreground(&mut self, now_ms: u64, poll: ForegroundPoll) -> (r: FullmuteStep)
        ensures
            (final(self)@, TaskOutput::Look(r)) == task_step(
                old(self)@,
                TaskEvent::Look(now_ms, foreground_poll_view(poll)),
            ),
    {
        match self.stage {
            TaskStage::WaitForeground => self.fg.on_foreground(now_ms, poll),
            _ => FullmuteStep::Wait { log_waiting: false },
        }
    }

    /// Takes the outcome of typing the command.
    pub fn on_sent(&mut self, ok: bool)
        ensures
            final(self)@ == task_step(old(self)@, TaskEvent::Sent(ok)).0,
    {
        match self.stage {
            TaskStage::WaitForeground => if ok {
                self.stage = TaskStage::Done;
            },
            _ => {},
        }
    }
}

/// The task after the first `n` events of `events`, starting in `s`.
pub open spec fn task_after(s: TaskView, events: Seq<TaskEvent>, n: nat) -> TaskView
    decreases n,
{
    if n == 0 {
        s
    } else {
        task_step(task_after(s, events, (n - 1) as nat), events[n - 1]).0
    }
}

/// Whether event `i` of a task started at `start` has the command typed.
pub open spec fn sends_at(start: u64, events: Seq<TaskEvent>, i: int) -> bool {
    task_step(task_after(task_start(start), events, i as nat), events[i]).1 matches TaskOutput::Look(
        FullmuteStep::SendCommand,
    )
}

/// What holds of the task after `n` events: the deadline never moves; it
/// waits for the foreground only after a started game was reported; it
/// is not done only if every question so far was asked in time and
/// without a stop, and no send succeeded in the foreground stage.
pub open spec fn task_history_ok(start: u64, events: Seq<TaskEvent>, n: nat) -> bool {
    let s = task_after(task_start(start), events, n);
    &&& s.deadline == task_start(start).deadline
    &&& s.stage == TaskStage::WaitForeground ==> exists|j: int|
        0 <= j < n && #[trigger] live_ready_event(events[j])
    &&& s.stage != TaskStage::Done ==> forall|j: int|
        0 <= j < n ==> #[trigger] next_in_time(events[j], s.deadline)
    &&& s.stage != TaskStage::Done ==> forall|j: int|
        0 <= j < n ==> !(#[trigger] successful_send(task_after(task_start(start), events, j as nat), events[j]))
}

/// Whether an event is a live-client answer that reports a started game.
pub open spec fn live_ready_event(e: TaskEvent) -> bool {
    e matches TaskEvent::Live(_, p) && live_ready(p)
}

/// Whether an event, when it asks for the next action, asks it before the
/// deadline and without a stop.
pub open spec fn next_in_time(e: TaskEvent, deadline: u64) -> bool {
    e matches TaskEvent::Next(now, stopped) ==> now < deadline && !stopped
}

/// Whether event `e` in state `s` is a successful send in the foreground
/// stage.
pub open spec fn successful_send(s: TaskView, e: TaskEvent) -> bool {
    e matches TaskEvent::Sent(true) && s.stage == TaskStage::WaitForeground
}

proof fn lemma_task_history(start: u64, events: Seq<TaskEvent>, n: nat)
    requires
        n <= events.len(),
    ensures
        task_history_ok(start, events, n),
    decreases n,
{
    if n > 0 {
        let m = (n - 1) as nat;
        lemma_task_history(start, events, m);
        let s0 = task_start(start);
        let s = task_after(s0, events, m);
        let t = task_after(s0, events, n);
        let e = events[m as int];
        assert(t == task_step(s, e).0);
        if t.stage == TaskStage::WaitForeground {
            if s.stage == TaskStage::WaitLiveClient {
                assert(live_ready_event(e));
            } else {
                let j = choose|j: int| 0 <= j < m && #[trigger] live_ready_event(events[j]);
                assert(0 <= j < n && live_ready_event(events[j]));
            }
        }
        if t.stage != TaskStage::Done {
            assert(s.stage != TaskStage::Done);
            assert forall|j: int| 0 <= j < n implies #[trigger] next_in_time(events[j], t.deadline) by {
                if j < m {
                    assert(next_in_time(events[j], s.deadline));
                }
            }
            assert forall|j: int| 0 <= j < n implies !(#[trigger] successful_send(
                task_after(s0, events, j as nat),
                events[j],
            )) by {
                if j < m {
                    assert(!successful_send(task_after(s0, events, j as nat), events[j]));
                }
            }
        }
    }
}

/// The whole in-game mute task, over any run of events from its start: the
/// command is typed only at a foreground look that shows the game's
/// window, only after the live client reported a started game, only while
/// every question asked so far found the deadline not passed and no stop
/// requested, and never after a send that succeeded.
pub proof fn law_fullmute_task(start: u64, events: Seq<TaskEvent>, i: int)
    requires
        0 <= i < events.len(),
        sends_at(start, events, i),
    ensures
        events[i] matches TaskEvent::Look(_, ForegroundPollView::Window(n)) && is_game_exe(n),
        exists|j: int| 0 <= j < i && #[trigger] live_ready_event(events[j]),
        forall|j: int|
            0 <= j < i ==> #[trigger] next_in_time(events[j], task_start(start).deadline),
        forall|j: int|
            0 <= j < i ==> !(#[trigger] successful_send(
                task_after(task_start(start), events, j as nat),
                events[j],
            )),
{
    lemma_task_history(start, events, i as nat);
    let s = task_after(task_start(start), events, i as nat);
    assert(s.stage == TaskStage::WaitForeground);
}

/// The game counts as started exactly when the live client reports at
/// least two seconds of game time; that answer ends the wait and changes
/// nothing else.
pub proof fn law_liveclient_ready(s: LiveClientView, now: u64, p: LiveClientPollView)
    ensures
        (live_step(s, now, p).1 == LiveClientStepView::Ready) == live_ready(p),
        live_ready(p) ==> live_step(s, now, p).0 == s,
{
}

/// "Still waiting" messages are at least three seconds apart: after a
/// message at `t1`, no answer before `t1 + 3000` brings another.
pub proof fn law_liveclient_log_throttled(
    s: LiveClientView,
    t1: u64,
    p1: LiveClientPollView,
    t2: u64,
    p2: LiveClientPollView,
)
    requires
        live_step(s, t1, p1).1 matches LiveClientStepView::Wait(Some(_)),
        t1 <= t2 < t1 + LIVECLIENT_LOG_INTERVAL_MS,
    ensures
        !(live_step(live_step(s, t1, p1).0, t2, p2).1 matches LiveClientStepView::Wait(Some(_))),
{
}

/// A message reports the latest trouble: right after a failed request it
/// names that request's error.
pub proof fn law_liveclient_reports_last_error(s: LiveClientView, now: u64, e: Seq<char>)
    requires
        log_due(s.last_log, now, LIVECLIENT_LOG_INTERVAL_MS),
    ensures
        live_step(s, now, LiveClientPollView::Failed(e)).1 == LiveClientStepView::Wait(
            Some(LiveClientStatusView::LastError(e)),
        ),
{
}

/// The command is typed exactly when the game's window has the foreground,
/// and deciding so changes nothing.
pub proof fn law_fullmute_sends_only_to_game(s: ForegroundView, now: u64, p: ForegroundPollView)
    ensures
        (foreground_step(s, now, p).1 == FullmuteStep::SendCommand) == (p matches ForegroundPollView::Window(n)
            && is_game_exe(n)),
        foreground_step(s, now, p).1 == FullmuteStep::SendCommand ==> foreground_step(s, now, p).0 == s,
{
}

/// While another program keeps the foreground, it is reported at most
/// every two seconds; a change of program is reported at once.
pub proof fn law_foreground_log_throttled(s: ForegroundView, t1: u64, n: Seq<char>, t2: u64, m: Seq<char>)
    requires
        !is_game_exe(n),
        !is_game_exe(m),
        foreground_step(s, t1, ForegroundPollView::Window(n)).1 == (FullmuteStep::Wait { log_waiting: true }),
    ensures
        t1 <= t2 < t1 + FOREGROUND_LOG_INTERVAL_MS ==> foreground_step(
            foreground_step(s, t1, ForegroundPollView::Window(n)).0,
            t2,
            ForegroundPollView::Window(n),
        ).1 == (FullmuteStep::Wait { log_waiting: false }),
        m != n ==> foreground_step(
            foreground_step(s, t1, ForegroundPollView::Window(n)).0,
            t2,
            ForegroundPollView::Window(m),
        ).1 == (FullmuteStep::Wait { log_waiting: true }),
{
}

} // verus!

verus! {

/// The command goes only to the game: a foreground look makes the task
/// type the command exactly when the foreground program's name, with ASCII
/// letters lower-cased, is `league of legends.exe`; so never into the
/// client (`LeagueClientUx.exe`, `LeagueClientUxRender.exe`,
/// `LeagueClient.exe`) or any other program.
pub proof fn law_command_only_to_game(s: ForegroundView, now: u64, n: Seq<char>)
    ensures
        (foreground_step(s, now, ForegroundPollView::Window(n)).1 == FullmuteStep::SendCommand)
            <==> ascii_lower_seq(n) == "league of legends.exe"@,
        !is_game_exe("LeagueClientUx.exe"@),
        !is_game_exe("LeagueClientUxRender.exe"@),
        !is_game_exe("LeagueClient.exe"@),
{
    reveal_strlit("League of Legends.exe");
    reveal_strlit("league of legends.exe");
    reveal_strlit("LeagueClientUx.exe");
    reveal_strlit("LeagueClientUxRender.exe");
    reveal_strlit("LeagueClient.exe");
    assert(ascii_lower_seq("League of Legends.exe"@) =~= "league of legends.exe"@);
    assert(ascii_lower_seq("LeagueClientUx.exe"@).len() != ascii_lower_seq("League of Legends.exe"@).len());
    assert(ascii_lower_seq("LeagueClientUxRender.exe"@).len() != ascii_lower_seq("League of Legends.exe"@).len());
    assert(ascii_lower_seq("LeagueClient.exe"@).len() != ascii_lower_seq("League of Legends.exe"@).len());
}

} // verus!
