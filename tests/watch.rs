use cbz_meta::registry::{Supervisor, WatcherManager};
use cbz_meta::watch::{
    creation_matches, ArchiveEventEmitter, ArchiveEventType, FsChange, WatchAction, WatchInput,
    WatchMode, WatchState,
};
use std::sync::{Arc, Mutex};

#[derive(Clone)]
struct MockEventEmitter {
    events: Arc<Mutex<Vec<(ArchiveEventType, String)>>>,
}

impl MockEventEmitter {
    fn new() -> Self {
        Self { events: Arc::new(Mutex::new(Vec::new())) }
    }

    fn get_events(&self) -> Vec<(ArchiveEventType, String)> {
        self.events.lock().unwrap().clone()
    }
}

impl ArchiveEventEmitter for MockEventEmitter {
    fn send_event(&self, event_type: ArchiveEventType, path: &str) {
        self.events.lock().unwrap().push((event_type, path.to_string()));
    }
}

#[test]
fn test_mock_event_emitter() {
    let emitter = MockEventEmitter::new();
    assert_eq!(emitter.get_events().len(), 0);
    emitter.send_event(ArchiveEventType::Reload, "test.cbz");
    emitter.send_event(ArchiveEventType::Created, "other.cbz");
    let events = emitter.get_events();
    assert_eq!(events.len(), 2);
    assert_eq!(events[0], (ArchiveEventType::Reload, "test.cbz".to_string()));
    assert_eq!(events[1], (ArchiveEventType::Created, "other.cbz".to_string()));
}

#[test]
fn event_names() {
    assert_eq!(ArchiveEventType::Reload.as_str(), "reload");
    assert_eq!(ArchiveEventType::Created.as_str(), "archive-created");
}

fn watching() -> WatchState {
    let mut s = WatchState::new();
    assert_eq!(s.step(WatchInput::FileAppeared), WatchAction::StartWatching);
    s
}

fn modify(t: u64) -> WatchInput {
    WatchInput::Notify { kind: FsChange::Modify, now_ms: t }
}

#[test]
fn burst_of_modifies_reloads_once_after_window() {
    let mut s = watching();
    for t in [0u64, 300, 600, 900] {
        assert_eq!(s.step(modify(t)), WatchAction::Nothing);
        assert_eq!(s.step(WatchInput::Tick { now_ms: t + 100 }), WatchAction::Nothing);
    }
    assert_eq!(s.step(WatchInput::Tick { now_ms: 1899 }), WatchAction::Nothing);
    assert_eq!(s.step(WatchInput::Tick { now_ms: 1900 }), WatchAction::EmitReload);
    assert_eq!(s.step(WatchInput::Tick { now_ms: 5000 }), WatchAction::Nothing);
}

#[test]
fn remove_dominates_modify_and_awaits_file() {
    let mut s = watching();
    s.step(WatchInput::Notify { kind: FsChange::Remove, now_ms: 10 });
    s.step(modify(20));
    assert_eq!(s.step(WatchInput::Tick { now_ms: 1015 }), WatchAction::EmitReloadAndAwaitFile);
    assert_eq!(s.mode, WatchMode::WaitingForFile);
    assert_eq!(s.step(modify(2000)), WatchAction::Nothing);
    assert_eq!(s.step(WatchInput::FileAppeared), WatchAction::StartWatching);
}

#[test]
fn suppress_swallows_exactly_one_event() {
    let mut s = watching();
    assert_eq!(s.step(WatchInput::SuppressNext), WatchAction::Restart);
    assert_eq!(s.step(WatchInput::FileAppeared), WatchAction::StartWatching);
    s.step(modify(0));
    assert_eq!(s.step(WatchInput::Tick { now_ms: 1000 }), WatchAction::Nothing);
    assert!(!s.suppress);
    s.step(modify(2000));
    assert_eq!(s.step(WatchInput::Tick { now_ms: 3000 }), WatchAction::EmitReload);
}

#[test]
fn suppressed_remove_still_awaits_file() {
    let mut s = watching();
    s.step(WatchInput::SuppressNext);
    s.step(WatchInput::FileAppeared);
    s.step(WatchInput::Notify { kind: FsChange::Remove, now_ms: 0 });
    assert_eq!(s.step(WatchInput::Tick { now_ms: 1000 }), WatchAction::AwaitFile);
    assert_eq!(s.mode, WatchMode::WaitingForFile);
}

#[test]
fn stop_is_terminal_and_errors_back_off() {
    let mut s = watching();
    assert_eq!(s.step(WatchInput::WatchError), WatchAction::BackOff);
    assert_eq!(s.mode, WatchMode::WaitingForFile);
    assert_eq!(s.step(WatchInput::StopRequested), WatchAction::Exit);
    assert_eq!(s.step(WatchInput::FileAppeared), WatchAction::Exit);
    assert_eq!(s.mode, WatchMode::Stopped);
}

#[test]
fn creation_matches_by_file_name() {
    let names = vec!["other.cbz".to_string(), "book.cbz".to_string()];
    assert!(creation_matches(&names, "book.cbz"));
    assert!(!creation_matches(&names, "nope.cbz"));
}

struct Dummy {
    running: bool,
    starts: bool,
    stops: Arc<Mutex<u32>>,
    suppressed: Arc<Mutex<u32>>,
}

impl Supervisor for Dummy {
    fn start(&mut self) -> bool {
        self.running = self.starts;
        self.starts
    }
    fn watch_for_creation(&mut self) -> Result<bool, String> {
        Ok(self.start())
    }
    fn is_running(&self) -> bool {
        self.running
    }
    fn stop(&mut self) -> Result<(), String> {
        *self.stops.lock().unwrap() += 1;
        self.running = false;
        Ok(())
    }
    fn suppress_next_event(&mut self) {
        *self.suppressed.lock().unwrap() += 1;
    }
}

fn dummy(starts: bool, stops: &Arc<Mutex<u32>>, suppressed: &Arc<Mutex<u32>>) -> Dummy {
    Dummy { running: false, starts, stops: stops.clone(), suppressed: suppressed.clone() }
}

#[test]
fn test_watcher_manager_creation() {
    let manager: WatcherManager<Dummy> = WatcherManager::new();
    assert!(manager.is_empty());
}

#[test]
fn registry_restarts_on_reattach_and_ignores_missing() {
    let stops = Arc::new(Mutex::new(0));
    let sup = Arc::new(Mutex::new(0));
    let mut m: WatcherManager<Dummy> = WatcherManager::new();
    assert!(m.start_watching("a".to_string(), dummy(true, &stops, &sup)));
    assert!(m.start_watching("a".to_string(), dummy(true, &stops, &sup)));
    assert_eq!(m.len(), 1);
    assert_eq!(*stops.lock().unwrap(), 1);
    assert!(!m.start_watching("b".to_string(), dummy(false, &stops, &sup)));
    assert!(!m.is_watching("b"));
    m.suppress_next_event("a");
    m.suppress_next_event("zzz");
    assert_eq!(*sup.lock().unwrap(), 1);
    assert!(m.stop_watching("zzz").is_ok());
    assert!(m.stop_watching("a").is_ok());
    assert!(m.is_empty());
}

#[test]
fn step_all_reports_one_reload_per_burst() {
    let mut s = watching();
    let mut inputs: Vec<WatchInput> = (0..10u64).map(|k| modify(k * 90)).collect();
    inputs.extend([810u64, 1500, 1809, 1810, 2500, 9000].iter().map(|&t| WatchInput::Tick { now_ms: t }));
    let acts = s.step_all(&inputs);
    assert_eq!(acts.len(), 16);
    assert_eq!(acts.iter().filter(|a| **a == WatchAction::EmitReload).count(), 1);
    assert_eq!(acts[13], WatchAction::EmitReload);
}
