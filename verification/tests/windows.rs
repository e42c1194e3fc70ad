use supervisor::capabilities::lifecycle::CompositorKind;
use supervisor::capabilities::windows::controller::{
    keeps_reading, Backend, StatePublisher, WindowCommand, WindowEntry, WindowRequest, WindowsController, WindowsState,
};
use supervisor::capabilities::windows::wlr::{AfterEvent, ThreadState, ToplevelEvent, ACTIVATED, FULLSCREEN};
use supervisor::capabilities::windows::{dispatch, WindowsAction};

fn entry(id: &str, workspace_id: Option<u64>) -> WindowEntry {
    WindowEntry {
        id: id.to_string(),
        title: String::new(),
        app_id: String::new(),
        workspace_id,
        output: None,
        focused: false,
        floating: None,
        fullscreen: None,
        minimized: None,
        maximized: None,
    }
}

fn publisher() -> StatePublisher {
    StatePublisher::new(WindowsState::default(), "niri")
}

#[test]
fn publish_orders_by_workspace_and_keeps_each_backends_own_order_within_one() {
    let mut publisher = publisher();
    let entries = [entry("3", Some(2)), entry("1", Some(1)), entry("2", Some(1)), entry("4", None)];

    publisher.publish(entries.to_vec());

    let state = publisher.snapshot();
    assert_eq!(
        state.windows.iter().map(|window| window.id.as_str()).collect::<Vec<_>>(),
        ["1", "2", "3", "4"],
        "workspace 1's rows keep their input order, workspace 2 follows, no-workspace sorts last"
    );
}

#[test]
fn a_window_without_a_workspace_follows_even_the_highest_number() {
    let mut publisher = publisher();
    assert!(publisher.publish(vec![entry("none", None), entry("last", Some(u64::MAX)), entry("first", Some(0))]));
    let ids: Vec<&str> = publisher.snapshot().windows.iter().map(|window| window.id.as_str()).collect();
    assert_eq!(ids, ["first", "last", "none"]);
}

#[test]
fn publish_stores_state_stamps_the_source_and_signals_once_per_real_change() {
    let mut publisher = publisher();
    let entries = [entry("1", Some(1))];
    let mut signals = 0;
    let mut published = |publisher: &mut StatePublisher, windows: Vec<WindowEntry>| {
        let changed = publisher.publish(windows);
        signals += usize::from(changed);
        keeps_reading(changed, true)
    };

    assert!(published(&mut publisher, entries.to_vec()));
    assert!(published(&mut publisher, entries.to_vec()), "an event that changes nothing is not a change");
    let mut moved = entries[0].clone();
    moved.focused = true;
    assert!(published(&mut publisher, vec![moved]));

    assert_eq!(publisher.snapshot().source, "niri");
    assert!(publisher.snapshot().windows[0].focused);
    assert_eq!(signals, 2, "the repeated middle publish must wake nobody");
}

#[test]
fn publish_reports_false_once_nothing_is_listening_so_a_reader_loop_can_stop() {
    let mut publisher = publisher();
    let changed = publisher.publish(vec![entry("1", None)]);
    assert!(!keeps_reading(changed, false));
    let changed = publisher.publish(vec![entry("1", None)]);
    assert!(keeps_reading(changed, false), "without a change nobody is asked");
}

#[test]
fn new_sends_a_catch_up_signal_when_the_shared_state_is_already_populated() {
    let state = WindowsState { source: "niri".to_string(), windows: vec![entry("1", None)] };
    let (_, signal) = WindowsController::new(state, Backend::Ipc(CompositorKind::Niri));
    assert!(signal);
}

#[test]
fn new_sends_nothing_when_the_shared_state_is_still_default() {
    let (_, signal) = WindowsController::new(WindowsState::default(), Backend::Ipc(CompositorKind::Niri));
    assert!(!signal);
}

fn asked(id: &str, request: WindowRequest) -> Option<WindowCommand> {
    Some(WindowCommand { id: id.to_string(), request })
}

#[test]
fn hyprland_toggles_only_a_window_that_is_not_as_asked() {
    let mut window = entry("0xa", Some(1));
    window.fullscreen = Some(true);
    let state = WindowsState { source: "hyprland".to_string(), windows: vec![window] };
    let (controller, _) = WindowsController::new(state, Backend::Ipc(CompositorKind::Hyprland));
    let fullscreen = |fullscreen| WindowsAction::SetFullscreen { id: "0xa".to_string(), fullscreen };
    assert_eq!(dispatch(&controller, &fullscreen(true)), None);
    assert_eq!(dispatch(&controller, &fullscreen(false)), asked("0xa", WindowRequest::HyprlandToggleFullscreen));
    assert_eq!(dispatch(&controller, &WindowsAction::Focus { id: "0xa".into() }), asked("0xa", WindowRequest::HyprlandFocus));
    assert_eq!(dispatch(&controller, &WindowsAction::Close { id: "0xa".into() }), asked("0xa", WindowRequest::HyprlandClose));
    assert_eq!(
        dispatch(&controller, &WindowsAction::SetMinimized { id: "0xa".into(), minimized: true }),
        None
    );
}

#[test]
fn each_backend_gets_the_commands_it_has() {
    let state = || WindowsState { source: String::new(), windows: vec![entry("7", None)] };
    let (wlr, _) = WindowsController::new(state(), Backend::Wlr);
    assert_eq!(wlr.focus("7"), asked("7", WindowRequest::WlrActivate));
    assert_eq!(wlr.close("7"), asked("7", WindowRequest::WlrClose));
    assert_eq!(wlr.set_fullscreen("7", true), asked("7", WindowRequest::WlrFullscreen(true)));
    assert_eq!(wlr.set_minimized("7", false), asked("7", WindowRequest::WlrMinimized(false)));
    assert_eq!(wlr.set_maximized("7", true), asked("7", WindowRequest::WlrMaximized(true)));
    let (niri, _) = WindowsController::new(state(), Backend::Ipc(CompositorKind::Niri));
    assert_eq!(niri.focus("7"), asked("7", WindowRequest::NiriFocus));
    assert_eq!(niri.close("7"), asked("7", WindowRequest::NiriClose));
    assert_eq!(niri.set_maximized("7", true), None);
    let (absent, _) = WindowsController::new(state(), Backend::Absent);
    assert_eq!(absent.focus("7"), None);
}

#[test]
fn a_toplevel_is_published_on_done_and_takes_its_first_output() {
    let mut state = ThreadState::new();
    state.output_named(10, "DP-1".to_string());
    state.output_named(11, "HDMI-A-1".to_string());
    let first = state.toplevel();
    let second = state.toplevel();
    assert_eq!((first, second), (0, 1));
    assert_eq!(state.event(first, ToplevelEvent::Title { title: "Editor".into() }), AfterEvent::Nothing);
    assert_eq!(state.event(first, ToplevelEvent::OutputEnter { output: 11 }), AfterEvent::Nothing);
    assert_eq!(state.event(first, ToplevelEvent::OutputEnter { output: 10 }), AfterEvent::Nothing);
    state.event(first, ToplevelEvent::State { flags: vec![ACTIVATED, FULLSCREEN] });
    match state.event(first, ToplevelEvent::Done) {
        AfterEvent::Publish(windows) => {
            assert_eq!(windows.len(), 2);
            assert_eq!(windows[0].title, "Editor");
            assert_eq!(windows[0].output.as_deref(), Some("HDMI-A-1"));
            assert!(windows[0].focused);
            assert_eq!(windows[0].fullscreen, Some(true));
            assert_eq!(windows[0].maximized, Some(false));
            assert_eq!(windows[1].id, "1");
        }
        other => panic!("{other:?}"),
    }
    state.event(first, ToplevelEvent::OutputLeave { output: 11 });
    match state.event(first, ToplevelEvent::Done) {
        AfterEvent::Publish(windows) => assert_eq!(windows[0].output.as_deref(), Some("DP-1")),
        other => panic!("{other:?}"),
    }
}

#[test]
fn a_closed_toplevel_leaves_the_others_and_its_id_is_not_used_again() {
    let mut state = ThreadState::new();
    let first = state.toplevel();
    let second = state.toplevel();
    match state.event(first, ToplevelEvent::Closed) {
        AfterEvent::DestroyAndPublish(windows) => {
            assert_eq!(windows.iter().map(|w| w.id.as_str()).collect::<Vec<_>>(), [second.to_string().as_str()]);
        }
        other => panic!("{other:?}"),
    }
    assert_eq!(state.event(first, ToplevelEvent::Done), AfterEvent::Nothing);
    assert_eq!(state.toplevel(), 2);
}
