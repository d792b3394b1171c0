use tilewm::layout::{Assignment, Geometry, LayoutMode};
use tilewm::manager::{
    key_bindings, Action, WmEvent, WmState, QUIT_KEYCODE, QUIT_MODIFIERS, TOGGLE_KEYCODE,
    TOGGLE_MODIFIERS,
};

const W: u32 = 1920;
const H: u32 = 1080;

fn configure(window: u32, x: u32, y: u32, width: u32, height: u32) -> Action {
    Action::Configure {
        assignment: Assignment { window, geometry: Geometry { x, y, width, height } },
    }
}

fn state_with(windows: Vec<u32>, layout: LayoutMode) -> WmState {
    WmState { windows, layout }
}

#[test]
fn new_state_tracks_nothing_and_tiles_horizontally() {
    let wm = WmState::new();
    assert_eq!(wm.windows, Vec::new());
    assert_eq!(wm.layout, LayoutMode::Horizontal);
}

#[test]
fn first_arrival_is_mapped_but_not_arranged() {
    let mut wm = WmState::new();
    let (actions, quit) = wm.step(W, H, WmEvent::MapRequest { window: 10 });
    assert_eq!(wm.windows, vec![10]);
    assert_eq!(actions, vec![Action::MakeVisible { window: 10 }]);
    assert!(!quit);
}

#[test]
fn second_arrival_arranges_the_pair() {
    let mut wm = state_with(vec![10], LayoutMode::Horizontal);
    let (actions, quit) = wm.step(W, H, WmEvent::MapRequest { window: 20 });
    assert_eq!(wm.windows, vec![10, 20]);
    assert_eq!(
        actions,
        vec![
            Action::MakeVisible { window: 20 },
            configure(10, 0, 0, 960, 1080),
            configure(20, 960, 0, 960, 1080),
        ]
    );
    assert!(!quit);
}

#[test]
fn third_arrival_evicts_the_oldest() {
    let mut wm = WmState::new();
    wm.step(W, H, WmEvent::MapRequest { window: 10 });
    wm.step(W, H, WmEvent::MapRequest { window: 20 });
    wm.step(W, H, WmEvent::MapRequest { window: 30 });
    assert_eq!(wm.windows, vec![20, 30]);
}

#[test]
fn layout_after_eviction_ignores_the_evicted_window() {
    let mut wm = state_with(vec![10, 20], LayoutMode::Horizontal);
    let (actions, _) = wm.step(W, H, WmEvent::MapRequest { window: 30 });
    assert_eq!(wm.windows, vec![20, 30]);
    assert_eq!(
        actions,
        vec![
            Action::MakeVisible { window: 30 },
            configure(20, 0, 0, 960, 1080),
            configure(30, 960, 0, 960, 1080),
        ]
    );
    for action in &actions {
        let touched = match action {
            Action::MakeVisible { window } => *window,
            Action::Configure { assignment } => assignment.window,
        };
        assert_ne!(touched, 10);
    }
}

#[test]
fn toggle_chord_flips_mode_and_rearranges() {
    let mut wm = state_with(vec![10, 20], LayoutMode::Horizontal);
    let (actions, quit) = wm.step(
        W,
        H,
        WmEvent::KeyPress { modifiers: TOGGLE_MODIFIERS, keycode: TOGGLE_KEYCODE },
    );
    assert_eq!(wm.layout, LayoutMode::Vertical);
    assert_eq!(wm.windows, vec![10, 20]);
    assert_eq!(
        actions,
        vec![configure(10, 0, 0, 1920, 540), configure(20, 0, 540, 1920, 540)]
    );
    assert!(!quit);
}

#[test]
fn toggling_twice_restores_mode_and_geometries() {
    let mut wm = state_with(vec![10, 20], LayoutMode::Horizontal);
    let before = wm.arrange_windows(W, H);
    let toggle = WmEvent::KeyPress { modifiers: TOGGLE_MODIFIERS, keycode: TOGGLE_KEYCODE };
    wm.step(W, H, toggle);
    let (after, _) = wm.step(W, H, toggle);
    assert_eq!(wm.layout, LayoutMode::Horizontal);
    assert_eq!(after, before);
}

#[test]
fn quit_chord_requests_exit_and_changes_nothing() {
    let mut wm = state_with(vec![10, 20], LayoutMode::Vertical);
    let (actions, quit) = wm.step(
        W,
        H,
        WmEvent::KeyPress { modifiers: QUIT_MODIFIERS, keycode: QUIT_KEYCODE },
    );
    assert!(quit);
    assert_eq!(actions, Vec::new());
    assert_eq!(wm.windows, vec![10, 20]);
    assert_eq!(wm.layout, LayoutMode::Vertical);
}

#[test]
fn unbound_key_presses_are_ignored() {
    let mut wm = state_with(vec![10, 20], LayoutMode::Horizontal);
    for (modifiers, keycode) in [
        (TOGGLE_MODIFIERS, QUIT_KEYCODE),
        (QUIT_MODIFIERS, TOGGLE_KEYCODE),
        (0u16, TOGGLE_KEYCODE),
        (TOGGLE_MODIFIERS, 0u8),
    ] {
        let (actions, quit) = wm.step(W, H, WmEvent::KeyPress { modifiers, keycode });
        assert_eq!(actions, Vec::new());
        assert!(!quit);
        assert_eq!(wm.windows, vec![10, 20]);
        assert_eq!(wm.layout, LayoutMode::Horizontal);
    }
}

#[test]
fn other_events_are_ignored() {
    let mut wm = state_with(vec![10, 20], LayoutMode::Horizontal);
    let (actions, quit) = wm.step(W, H, WmEvent::Other);
    assert_eq!(actions, Vec::new());
    assert!(!quit);
    assert_eq!(wm.windows, vec![10, 20]);
}

#[test]
fn destroy_removes_the_tracked_window_without_rearranging() {
    let mut wm = state_with(vec![10, 20], LayoutMode::Horizontal);
    let (actions, quit) = wm.step(W, H, WmEvent::DestroyNotify { window: 10 });
    assert_eq!(wm.windows, vec![20]);
    assert_eq!(actions, Vec::new());
    assert!(!quit);
}

#[test]
fn destroy_of_untracked_window_is_a_no_op() {
    let mut wm = state_with(vec![10, 20], LayoutMode::Horizontal);
    let (actions, quit) = wm.step(W, H, WmEvent::DestroyNotify { window: 99 });
    assert_eq!(wm.windows, vec![10, 20]);
    assert_eq!(actions, Vec::new());
    assert!(!quit);
}

#[test]
fn destroy_on_empty_state_is_a_no_op() {
    let mut wm = WmState::new();
    let (actions, quit) = wm.step(W, H, WmEvent::DestroyNotify { window: 99 });
    assert_eq!(wm.windows, Vec::new());
    assert_eq!(actions, Vec::new());
    assert!(!quit);
}

#[test]
fn contains_reports_tracked_handles() {
    let wm = state_with(vec![10, 20], LayoutMode::Horizontal);
    assert!(wm.contains(10));
    assert!(wm.contains(20));
    assert!(!wm.contains(30));
    assert!(!WmState::new().contains(10));
}

#[test]
fn startup_key_bindings_are_the_two_chords() {
    let bindings = key_bindings();
    assert_eq!(bindings.len(), 2);
    assert_eq!(bindings[0].modifiers, 64);
    assert_eq!(bindings[0].keycode, 65);
    assert_eq!(bindings[1].modifiers, 68);
    assert_eq!(bindings[1].keycode, 24);
}
