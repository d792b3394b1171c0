//! The window manager state machine: it owns the tracked window list and the
//! current layout mode, and turns each display-server event into the next
//! state together with the commands to issue back to the server.

use vstd::prelude::*;
use vstd::assert_seqs_equal;

use crate::layout::Assignment;
use crate::layout::LayoutMode;
use crate::layout::compute;
use crate::layout::spec_compute;

verus! {

/// Modifier state of the toggle-layout chord: the Mod4 (super) key.
pub const TOGGLE_MODIFIERS: u16 = 64;

/// Keycode of the toggle-layout chord.
pub const TOGGLE_KEYCODE: u8 = 65;

/// Modifier state of the quit chord: Control together with Mod4.
pub const QUIT_MODIFIERS: u16 = 68;

/// Keycode of the quit chord.
pub const QUIT_KEYCODE: u8 = 24;

/// How many windows are tracked at most; the oldest is evicted beyond this.
pub const TRACKED_CAPACITY: usize = 2;

/// A global key binding the manager registers at startup.
#[derive(Debug, Clone, Copy, PartialEq, Eq, Structural)]
pub struct KeyBinding {
    pub modifiers: u16,
    pub keycode: u8,
}

/// The notifications the manager reacts to, as plain values.
#[derive(Debug, Clone, Copy, PartialEq, Eq, Structural)]
pub enum WmEvent {
    /// A window asks to become visible.
    MapRequest { window: u32 },
    /// A bound key chord fired.
    KeyPress { modifiers: u16, keycode: u8 },
    /// A window was destroyed.
    DestroyNotify { window: u32 },
    /// Anything else the server reports; ignored.
    Other,
}

/// A command to issue back to the display server.
#[derive(Debug, Clone, Copy, PartialEq, Eq, Structural)]
pub enum Action {
    /// Make the window visible (map it).
    MakeVisible { window: u32 },
    /// Move and resize the window to the assigned geometry.
    Configure { assignment: Assignment },
}

/// Does a key press match the toggle-layout chord?
pub open spec fn is_toggle_chord(modifiers: u16, keycode: u8) -> bool {
    modifiers == TOGGLE_MODIFIERS && keycode == TOGGLE_KEYCODE
}

/// Does a key press match the quit chord?
pub open spec fn is_quit_chord(modifiers: u16, keycode: u8) -> bool {
    modifiers == QUIT_MODIFIERS && keycode == QUIT_KEYCODE
}

/// The tracked list after a new window arrives: appended in arrival order,
/// and the oldest entry evicted once the capacity of two is exceeded.
pub open spec fn track_after_arrival(windows: Seq<u32>, window: u32) -> Seq<u32> {
    let pushed = windows.push(window);
    if pushed.len() > TRACKED_CAPACITY {
        pushed.subrange(1, pushed.len() as int)
    } else {
        pushed
    }
}

/// The tracked list after a window is destroyed: the first occurrence is
/// removed; a handle that is not tracked leaves the list unchanged.
pub open spec fn untrack(windows: Seq<u32>, window: u32) -> Seq<u32>
    decreases windows.len(),
{
    if windows.len() == 0 {
        windows
    } else if windows[0] == window {
        windows.drop_first()
    } else {
        seq![windows[0]].add(untrack(windows.drop_first(), window))
    }
}

/// The geometry commands for the tracked pair, one per assignment, in order.
pub open spec fn configure_actions(assignments: Seq<Assignment>) -> Seq<Action> {
    assignments.map(|i: int, a: Assignment| Action::Configure { assignment: a })
}

/// The state the manager owns: the tracked windows, oldest first, and the
/// current layout mode.
#[derive(Debug)]
pub struct WmState {
    pub windows: Vec<u32>,
    pub layout: LayoutMode,
}

impl WmState {
    /// Well-formed state: at most two tracked windows, no handle twice.
    pub open spec fn wf(self) -> bool {
        &&& self.windows@.len() <= TRACKED_CAPACITY
        &&& forall|i: int, j: int|
            0 <= i < j < self.windows@.len() ==> self.windows@[i] != self.windows@[j]
    }

    /// The startup state: nothing tracked, horizontal tiling.
    pub fn new() -> (r: WmState)
        ensures
            r.windows@ == Seq::<u32>::empty(),
            r.layout == LayoutMode::Horizontal,
            r.wf(),
    {
        WmState { windows: Vec::new(), layout: LayoutMode::Horizontal }
    }

    /// Is this handle currently tracked?
    pub fn contains(&self, window: u32) -> (r: bool)
        ensures
            r == self.windows@.contains(window),
    {
        let mut i: usize = 0;
        while i < self.windows.len()
            invariant
                i <= self.windows@.len(),
                forall|j: int| 0 <= j < i ==> self.windows@[j] != window,
            decreases self.windows@.len() - i,
        {
            if self.windows[i] == window {
                return true;
            }
            i += 1;
        }
        false
    }

    /// The geometry commands that lay the tracked windows out under the
    /// current mode on the given screen.
    pub fn arrange_windows(&self, width: u32, height: u32) -> (r: Vec<Action>)
        ensures
            r@ == configure_actions(spec_compute(width, height, self.windows@, self.layout)),
    {
        let assignments = compute(width, height, &self.windows, self.layout);
        let mut actions: Vec<Action> = Vec::new();
        let mut i: usize = 0;
        while i < assignments.len()
            invariant
                i <= assignments@.len(),
                actions@ == configure_actions(assignments@.take(i as int)),
            decreases assignments@.len() - i,
        {
            let a = assignments[i];
            actions.push(Action::Configure { assignment: a });
            proof {
                assert_seqs_equal!(
                    actions@ == configure_actions(assignments@.take(i + 1 as int))
                );
            }
            i += 1;
        }
        proof {
            assert(assignments@.take(assignments@.len() as int) =~= assignments@);
        }
        actions
    }

    /// React to a window's request to become visible: the window is made
    /// visible, tracked (evicting the oldest entry beyond two), and the
    /// tracked windows are laid out.
    pub fn handle_map_request(&mut self, width: u32, height: u32, window: u32) -> (r: Vec<Action>)
        requires
            old(self).wf(),
            !old(self).windows@.contains(window),
        ensures
            final(self).windows@ == track_after_arrival(old(self).windows@, window),
            final(self).layout == old(self).layout,
            final(self).wf(),
            r@ == seq![Action::MakeVisible { window }].add(
                configure_actions(
                    spec_compute(width, height, final(self).windows@, final(self).layout),
                ),
            ),
    {
        let ghost old_windows = self.windows@;
        let mut actions: Vec<Action> = Vec::new();
        actions.push(Action::MakeVisible { window });
        self.windows.push(window);
        if self.windows.len() > TRACKED_CAPACITY {
            self.windows.remove(0);
            proof {
                assert_seqs_equal!(
                    self.windows@ == track_after_arrival(old_windows, window)
                );
            }
        }
        let mut layout_actions = self.arrange_windows(width, height);
        let ghost configure = layout_actions@;
        actions.append(&mut layout_actions);
        proof {
            assert_seqs_equal!(
                actions@ == seq![Action::MakeVisible { window }].add(configure)
            );
        }
        actions
    }

    /// Flip the layout mode and lay the tracked windows out under the new
    /// mode.
    pub fn toggle_layout(&mut self, width: u32, height: u32) -> (r: Vec<Action>)
        ensures
            final(self).layout == old(self).layout.flipped(),
            final(self).windows@ == old(self).windows@,
            old(self).wf() ==> final(self).wf(),
            r@ == configure_actions(
                spec_compute(width, height, final(self).windows@, final(self).layout),
            ),
    {
        self.layout = self.layout.toggled();
        self.arrange_windows(width, height)
    }

    /// Forget a destroyed window. A handle that is not tracked leaves the
    /// state unchanged; no re-layout happens in either case, so a remaining
    /// window keeps its last-assigned geometry.
    pub fn handle_destroy_notify(&mut self, window: u32)
        ensures
            final(self).windows@ == untrack(old(self).windows@, window),
            final(self).layout == old(self).layout,
            old(self).wf() ==> final(self).wf(),
    {
        let mut i: usize = 0;
        while i < self.windows.len()
            invariant
                i <= self.windows@.len(),
                self.windows@ == old(self).windows@,
                self.layout == old(self).layout,
                forall|j: int| 0 <= j < i ==> self.windows@[j] != window,
            decreases self.windows@.len() - i,
        {
            if self.windows[i] == window {
                proof {
                    lemma_untrack_at(self.windows@, window, i as int);
                }
                self.windows.remove(i);
                proof {
                    if old(self).wf() {
                        lemma_remove_keeps_distinct(old(self).windows@, i as int);
                    }
                }
                return ;
            }
            i += 1;
        }
        proof {
            lemma_untrack_absent(self.windows@, window);
        }
    }

    /// One turn of the event loop: consume one event, update the state, and
    /// return the commands to issue together with whether the quit chord
    /// fired. A map request must carry a handle that is not yet tracked; the
    /// server guarantees handles are unique.
    pub fn step(&mut self, width: u32, height: u32, event: WmEvent) -> (r: (Vec<Action>, bool))
        requires
            old(self).wf(),
            event matches WmEvent::MapRequest { window } ==> !old(self).windows@.contains(window),
        ensures
            final(self).wf(),
            final(self).windows@ == step_windows(old(self).windows@, event),
            final(self).layout == step_layout(old(self).layout, event),
            r.0@ == step_actions(width, height, old(self).windows@, old(self).layout, event),
            r.1 == step_quit(event),
    {
        match event {
            WmEvent::MapRequest { window } => {
                let actions = self.handle_map_request(width, height, window);
                (actions, false)
            },
            WmEvent::KeyPress { modifiers, keycode } => {
                if modifiers == TOGGLE_MODIFIERS && keycode == TOGGLE_KEYCODE {
                    let actions = self.toggle_layout(width, height);
                    (actions, false)
                } else if modifiers == QUIT_MODIFIERS && keycode == QUIT_KEYCODE {
                    (Vec::new(), true)
                } else {
                    (Vec::new(), false)
                }
            },
            WmEvent::DestroyNotify { window } => {
                self.handle_destroy_notify(window);
                (Vec::new(), false)
            },
            WmEvent::Other => (Vec::new(), false),
        }
    }
}

/// The tracked list after one event is processed.
pub open spec fn step_windows(windows: Seq<u32>, event: WmEvent) -> Seq<u32> {
    match event {
        WmEvent::MapRequest { window } => track_after_arrival(windows, window),
        WmEvent::DestroyNotify { window } => untrack(windows, window),
        _ => windows,
    }
}

/// The layout mode after one event is processed.
pub open spec fn step_layout(layout: LayoutMode, event: WmEvent) -> LayoutMode {
    match event {
        WmEvent::KeyPress { modifiers, keycode } => if is_toggle_chord(modifiers, keycode) {
            layout.flipped()
        } else {
            layout
        },
        _ => layout,
    }
}

/// The commands one event gives rise to, in issue order.
pub open spec fn step_actions(
    width: u32,
    height: u32,
    windows: Seq<u32>,
    layout: LayoutMode,
    event: WmEvent,
) -> Seq<Action> {
    match event {
        WmEvent::MapRequest { window } => seq![Action::MakeVisible { window }].add(
            configure_actions(
                spec_compute(width, height, track_after_arrival(windows, window), layout),
            ),
        ),
        WmEvent::KeyPress { modifiers, keycode } => if is_toggle_chord(modifiers, keycode) {
            configure_actions(spec_compute(width, height, windows, layout.flipped()))
        } else {
            Seq::empty()
        },
        _ => Seq::empty(),
    }
}

/// Whether one event ends the manager: only the quit chord does.
pub open spec fn step_quit(event: WmEvent) -> bool {
    match event {
        WmEvent::KeyPress { modifiers, keycode } => is_quit_chord(modifiers, keycode),
        _ => false,
    }
}

/// The two global key bindings registered at startup: toggle layout, then
/// quit.
pub fn key_bindings() -> (r: Vec<KeyBinding>)
    ensures
        r@.len() == 2,
        r@[0] == (KeyBinding { modifiers: TOGGLE_MODIFIERS, keycode: TOGGLE_KEYCODE }),
        r@[1] == (KeyBinding { modifiers: QUIT_MODIFIERS, keycode: QUIT_KEYCODE }),
{
    let mut r: Vec<KeyBinding> = Vec::new();
    r.push(KeyBinding { modifiers: TOGGLE_MODIFIERS, keycode: TOGGLE_KEYCODE });
    r.push(KeyBinding { modifiers: QUIT_MODIFIERS, keycode: QUIT_KEYCODE });
    r
}

/// Removing the first occurrence at a known position is one `remove`.
proof fn lemma_untrack_at(windows: Seq<u32>, window: u32, k: int)
    requires
        0 <= k < windows.len(),
        windows[k] == window,
        forall|i: int| 0 <= i < k ==> windows[i] != window,
    ensures
        untrack(windows, window) == windows.remove(k),
    decreases k,
{
    if k == 0 {
        assert_seqs_equal!(windows.drop_first() == windows.remove(0));
    } else {
        lemma_untrack_at(windows.drop_first(), window, k - 1);
        assert_seqs_equal!(
            seq![windows[0]].add(windows.drop_first().remove(k - 1)) == windows.remove(k)
        );
    }
}

/// Law: removing a handle that is not tracked leaves the list unchanged.
pub proof fn lemma_untrack_absent(windows: Seq<u32>, window: u32)
    ensures
        !windows.contains(window) ==> untrack(windows, window) == windows,
    decreases windows.len(),
{
    if windows.len() > 0 && !windows.contains(window) {
        assert(windows[0] != window);
        assert(!windows.drop_first().contains(window)) by {
            if windows.drop_first().contains(window) {
                let i = choose|i: int|
                    0 <= i < windows.drop_first().len() && windows.drop_first()[i] == window;
                assert(windows[i + 1] == window);
            }
        }
        lemma_untrack_absent(windows.drop_first(), window);
        assert_seqs_equal!(seq![windows[0]].add(windows.drop_first()) == windows);
    }
}

/// Removing one entry from a list of pairwise-distinct entries keeps the
/// rest pairwise distinct.
proof fn lemma_remove_keeps_distinct(windows: Seq<u32>, k: int)
    requires
        0 <= k < windows.len(),
        forall|i: int, j: int| 0 <= i < j < windows.len() ==> windows[i] != windows[j],
    ensures
        forall|i: int, j: int|
            0 <= i < j < windows.remove(k).len() ==> windows.remove(k)[i] != windows.remove(k)[j],
{
    assert forall|i: int, j: int|
        0 <= i < j < windows.remove(k).len() implies windows.remove(k)[i] != windows.remove(
        k,
    )[j] by {
        let oi: int = if i < k {
            i
        } else {
            i + 1
        };
        let oj: int = if j < k {
            j
        } else {
            j + 1
        };
        assert(windows.remove(k)[i] == windows[oi]);
        assert(windows.remove(k)[j] == windows[oj]);
    }
}

/// Law: a third arrival on a full tracked list keeps exactly two windows,
/// the more recent of the old pair and the newcomer, in that order.
pub proof fn lemma_third_arrival_evicts_oldest(windows: Seq<u32>, window: u32)
    requires
        windows.len() == 2,
    ensures
        track_after_arrival(windows, window) == seq![windows[1], window],
{
    assert_seqs_equal!(track_after_arrival(windows, window) == seq![windows[1], window]);
}

} // verus!
