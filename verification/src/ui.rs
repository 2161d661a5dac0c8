use vstd::prelude::*;

use crate::body::BillboardVisible;

verus! {

/// Which quantity the arrow keys adjust.
#[allow(non_camel_case_types)]
#[derive(PartialEq, Eq, Structural, Clone, Copy, Debug)]
pub enum StepType {
    SUBSTEPS,
    TIMESTEPS,
}

/// The interface settings the simulation logic reads and writes.
pub struct UiState {
    pub visible: bool,
    pub step_type: StepType,
    pub show_debug: bool,
    pub show_keys: bool,
    pub dyn_hide_orbit_lines: bool,
}

impl Default for UiState {
    fn default() -> (s: Self)
        ensures
            s.visible,
            s.step_type == StepType::SUBSTEPS,
            !s.show_debug,
            !s.show_keys,
            s.dyn_hide_orbit_lines,
    {
        UiState {
            visible: true,
            step_type: StepType::SUBSTEPS,
            show_debug: false,
            show_keys: false,
            dyn_hide_orbit_lines: true,
        }
    }
}

/// Whether the interface blocks keyboard or pointer input this frame.
pub struct EguiWantsFocus {
    /// Whether it wanted focus in the previous frame.
    pub prev: bool,
    pub curr: bool,
}

impl Default for EguiWantsFocus {
    fn default() -> (f: Self)
        ensures
            !f.prev,
            !f.curr,
    {
        EguiWantsFocus { prev: false, curr: false }
    }
}

impl EguiWantsFocus {
    /// The focus state of the next frame: the current value moves to `prev`,
    /// and the interface wants focus when it wants pointer or keyboard input.
    pub fn next(&self, wants_pointer: bool, wants_keyboard: bool) -> (n: EguiWantsFocus)
        ensures
            n.prev == self.curr,
            n.curr == (wants_pointer || wants_keyboard),
    {
        EguiWantsFocus { prev: self.curr, curr: wants_pointer || wants_keyboard }
    }

    /// Stores `new` unless it equals the stored value; returns whether it changed.
    pub fn set_if_neq(&mut self, new: EguiWantsFocus) -> (changed: bool)
        ensures
            final(self).prev == new.prev,
            final(self).curr == new.curr,
            changed == (old(self).prev != new.prev || old(self).curr != new.curr),
    {
        if self.prev != new.prev || self.curr != new.curr {
            self.prev = new.prev;
            self.curr = new.curr;
            true
        } else {
            false
        }
    }
}

/// Which inputs the interface swallows this frame.
pub struct EguiBlockInputState {
    pub wants_keyboard_input: bool,
    pub wants_pointer_input: bool,
}

/// Which input devices to reset so the simulation does not see input meant for the interface.
pub struct InputBlock {
    pub reset_keys: bool,
    pub reset_mouse_buttons: bool,
}

/// Keys are swallowed while the interface wants the keyboard, mouse buttons
/// while it wants the pointer.
pub fn egui_block_input(state: &EguiBlockInputState) -> (b: InputBlock)
    ensures
        b.reset_keys == state.wants_keyboard_input,
        b.reset_mouse_buttons == state.wants_pointer_input,
{
    InputBlock { reset_keys: state.wants_keyboard_input, reset_mouse_buttons: state.wants_pointer_input }
}

/// Whether the billboards with body names are shown and hidden automatically.
pub struct BillboardSettings {
    pub show: bool,
    pub dynamic_hide: bool,
}

impl Default for BillboardSettings {
    fn default() -> (s: Self)
        ensures
            s.show,
            s.dynamic_hide,
    {
        BillboardSettings { show: true, dynamic_hide: true }
    }
}

/// Whether a body's name billboard is shown: never when billboards are off;
/// otherwise always, unless automatic hiding is on and the body appears too
/// close to its parent on screen.
pub open spec fn billboard_shown_spec(settings: BillboardSettings, has_parent: bool, far_from_parent: bool) -> bool {
    settings.show && (!settings.dynamic_hide || !has_parent || far_from_parent)
}

/// Decides whether a body's name billboard is shown.
pub fn billboard_shown(settings: &BillboardSettings, has_parent: bool, far_from_parent: bool) -> (b: bool)
    ensures
        b == billboard_shown_spec(*settings, has_parent, far_from_parent),
{
    let predicate = !has_parent || far_from_parent;
    settings.show && (!settings.dynamic_hide || predicate)
}

/// Updates a body's billboard flag, which the orbit lines read: with
/// billboards off it is left as it is; otherwise it is set when automatic
/// hiding is off or the body is far enough from its parent on screen (a body
/// without a parent always counts as far enough).
pub fn update_billboard_visible(
    settings: &BillboardSettings,
    visible: &mut BillboardVisible,
    has_parent: bool,
    far_from_parent: bool,
)
    ensures
        final(visible).0 == (if settings.show {
            !settings.dynamic_hide || !has_parent || far_from_parent
        } else {
            old(visible).0
        }),
        settings.show ==> final(visible).0 == billboard_shown_spec(*settings, has_parent, far_from_parent),
{
    if settings.show {
        let predicate = !has_parent || far_from_parent;
        visible.0 = !settings.dynamic_hide || predicate;
    }
}

/// Whether a body's orbit line is hidden: with automatic hiding on, when the
/// body's name billboard is hidden, or when the camera is zoomed in close to
/// the selected body.
pub fn hide_orbit_lines(
    zoomed_in: bool,
    is_selected: bool,
    billboard_visible: bool,
    dyn_hide_orbit_lines: bool,
) -> (b: bool)
    ensures
        b == (((zoomed_in && is_selected) || !billboard_visible) && dyn_hide_orbit_lines),
{
    ((zoomed_in && is_selected) || !billboard_visible) && dyn_hide_orbit_lines
}

/// The segments of an orbit line through `count` recorded points: each point
/// to the next, and the last point to the body's current position (index `count`).
pub fn orbit_line_segments(count: usize) -> (segments: Vec<(usize, usize)>)
    ensures
        segments@.len() == count,
        forall|k: int| 0 <= k < count ==> (#[trigger] segments@[k]).0 == k && segments@[k].1 == k + 1,
{
    let mut segments: Vec<(usize, usize)> = Vec::new();
    let mut i: usize = 0;
    while i < count
        invariant
            i <= count,
            segments@.len() == i,
            forall|k: int| 0 <= k < i ==> (#[trigger] segments@[k]).0 == k && segments@[k].1 == k + 1,
        decreases count - i,
    {
        segments.push((i, i + 1));
        i = i + 1;
    }
    segments
}

} // verus!
