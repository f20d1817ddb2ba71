use lol_plugin::fullmute::{
    fullmute_command, fullmute_deadline, keep_waiting, ForegroundPoll, ForegroundWait,
    FullmuteStep, FullmuteTask, LiveClientPoll, LiveClientStatus, LiveClientStep, LiveClientWait,
    TaskAction, TaskStage,
};

#[test]
fn deadline_and_continuation() {
    assert_eq!(fullmute_deadline(1000), 181000);
    assert_eq!(fullmute_deadline(u64::MAX - 5), u64::MAX);
    assert!(keep_waiting(0, 10, false));
    assert!(!keep_waiting(10, 10, false));
    assert!(!keep_waiting(0, 10, true));
    assert_eq!(fullmute_command(), "/fullmute all");
}

#[test]
fn liveclient_ready_at_two_seconds() {
    let mut w = LiveClientWait::new();
    assert_eq!(w.on_poll(0, LiveClientPoll::GameTime(2)), LiveClientStep::Ready);
    let mut w = LiveClientWait::new();
    assert_eq!(w.on_poll(0, LiveClientPoll::GameTime(1)), LiveClientStep::Wait(Some(LiveClientStatus::GameTime(1))));
    assert_eq!(w.on_poll(1000, LiveClientPoll::GameTime(1)), LiveClientStep::Wait(None));
    assert_eq!(w.on_poll(2000, LiveClientPoll::GameTime(3)), LiveClientStep::Ready);
}

#[test]
fn liveclient_messages_every_three_seconds() {
    let mut w = LiveClientWait::new();
    assert_eq!(w.on_poll(0, LiveClientPoll::Unavailable), LiveClientStep::Wait(Some(LiveClientStatus::Waiting)));
    assert_eq!(w.on_poll(1000, LiveClientPoll::Failed("refused".to_string())), LiveClientStep::Wait(None));
    assert_eq!(w.on_poll(2999, LiveClientPoll::Unavailable), LiveClientStep::Wait(None));
    assert_eq!(
        w.on_poll(3000, LiveClientPoll::Unavailable),
        LiveClientStep::Wait(Some(LiveClientStatus::LastError("refused".to_string())))
    );
    assert_eq!(w.on_poll(4000, LiveClientPoll::GameTime(0)), LiveClientStep::Wait(None));
    assert_eq!(w.on_poll(6000, LiveClientPoll::Unavailable), LiveClientStep::Wait(Some(LiveClientStatus::GameTime(0))));
}

#[test]
fn foreground_waits_for_game() {
    let mut w = ForegroundWait::new();
    assert_eq!(w.on_foreground(0, ForegroundPoll::Window("explorer.exe".to_string())), FullmuteStep::Wait { log_waiting: true });
    assert_eq!(w.on_foreground(250, ForegroundPoll::Window("explorer.exe".to_string())), FullmuteStep::Wait { log_waiting: false });
    assert_eq!(w.on_foreground(500, ForegroundPoll::Window("chrome.exe".to_string())), FullmuteStep::Wait { log_waiting: true });
    assert_eq!(w.on_foreground(2500, ForegroundPoll::Window("chrome.exe".to_string())), FullmuteStep::Wait { log_waiting: true });
    assert_eq!(w.on_foreground(2600, ForegroundPoll::NoWindow), FullmuteStep::Wait { log_waiting: false });
    assert_eq!(w.on_foreground(2700, ForegroundPoll::Failed), FullmuteStep::Wait { log_waiting: false });
    assert_eq!(w.on_foreground(2800, ForegroundPoll::Window("chrome.exe".to_string())), FullmuteStep::Wait { log_waiting: false });
    assert_eq!(w.on_foreground(3000, ForegroundPoll::Window("league of legends.EXE".to_string())), FullmuteStep::SendCommand);
}

#[test]
fn task_runs_live_then_foreground_then_done() {
    let mut t = FullmuteTask::new(0);
    assert_eq!(t.stage(), TaskStage::WaitLiveClient);
    assert_eq!(t.next(0, false), TaskAction::PollLiveClient);
    // a look at the foreground before the game started is ignored
    assert_eq!(
        t.on_foreground(0, ForegroundPoll::Window("League of Legends.exe".to_string())),
        FullmuteStep::Wait { log_waiting: false }
    );
    assert!(matches!(t.on_live_poll(1000, LiveClientPoll::GameTime(1)), LiveClientStep::Wait(_)));
    assert_eq!(t.stage(), TaskStage::WaitLiveClient);
    assert_eq!(t.on_live_poll(2000, LiveClientPoll::GameTime(2)), LiveClientStep::Ready);
    assert_eq!(t.stage(), TaskStage::WaitForeground);
    assert_eq!(t.next(2000, false), TaskAction::LookAtForeground);
    assert_eq!(
        t.on_foreground(2100, ForegroundPoll::Window("explorer.exe".to_string())),
        FullmuteStep::Wait { log_waiting: true }
    );
    assert_eq!(
        t.on_foreground(2200, ForegroundPoll::Window("league of legends.EXE".to_string())),
        FullmuteStep::SendCommand
    );
    t.on_sent(false);
    assert_eq!(t.stage(), TaskStage::WaitForeground);
    t.on_sent(true);
    assert_eq!(t.stage(), TaskStage::Done);
    assert_eq!(t.next(2300, false), TaskAction::Finish);
    assert_eq!(
        t.on_foreground(2400, ForegroundPoll::Window("League of Legends.exe".to_string())),
        FullmuteStep::Wait { log_waiting: false }
    );
}

#[test]
fn task_gives_up_at_deadline_or_stop() {
    let mut t = FullmuteTask::new(1000);
    assert_eq!(t.next(181000, false), TaskAction::Finish);
    assert_eq!(t.stage(), TaskStage::Done);
    assert_eq!(t.next(1001, false), TaskAction::Finish);
    let mut u = FullmuteTask::new(0);
    assert_eq!(u.next(5, true), TaskAction::Finish);
    assert_eq!(u.stage(), TaskStage::Done);
}
