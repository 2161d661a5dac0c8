use vstd::prelude::*;

use crate::integration::{max_int, trunc_div, Pause, SubSteps};
use crate::ui::{StepType, UiState};

verus! {

/// The keys of one frame that the simulation reacts to: which were just
/// pressed, and whether left Control is held.
pub struct KeyPresses {
    pub f10: bool,
    pub c: bool,
    pub space: bool,
    pub arrow_left: bool,
    pub arrow_right: bool,
    pub alt_left: bool,
    pub control_left_held: bool,
    pub comma: bool,
    pub period: bool,
}

/// What a frame's key presses ask the simulation to do.
#[derive(PartialEq, Eq, Structural, Clone, Copy, Debug)]
pub enum SimInputAction {
    ToggleUi,
    ResetCameraFocus,
    TogglePause,
    SlowerTimeStep,
    FewerSubSteps,
    FasterTimeStep,
    MoreSubSteps,
    SelectSubSteps,
    SelectTimeSteps,
    LargerUi,
    SmallerUi,
    NoAction,
}

/// The action for a frame's key presses; only the first matching key counts, in
/// the order F10, C, Space, Left, Right, Left Alt, Ctrl+Comma, Ctrl+Period.
/// The arrows change the time step or the sub-steps, whichever is selected:
/// Left doubles the speed of the simulation, Right halves it.
pub open spec fn sim_input_action(keys: KeyPresses, step_type: StepType) -> SimInputAction {
    let timestep_selected = step_type == StepType::TIMESTEPS;
    if keys.f10 {
        SimInputAction::ToggleUi
    } else if keys.c {
        SimInputAction::ResetCameraFocus
    } else if keys.space {
        SimInputAction::TogglePause
    } else if keys.arrow_left {
        if timestep_selected { SimInputAction::FasterTimeStep } else { SimInputAction::MoreSubSteps }
    } else if keys.arrow_right {
        if timestep_selected { SimInputAction::SlowerTimeStep } else { SimInputAction::FewerSubSteps }
    } else if keys.alt_left {
        if timestep_selected { SimInputAction::SelectSubSteps } else { SimInputAction::SelectTimeSteps }
    } else if keys.control_left_held && keys.comma {
        SimInputAction::LargerUi
    } else if keys.control_left_held && keys.period {
        SimInputAction::SmallerUi
    } else {
        SimInputAction::NoAction
    }
}

/// Decides what a frame's key presses do.
pub fn sim_input(keys: &KeyPresses, step_type: StepType) -> (action: SimInputAction)
    ensures
        action == sim_input_action(*keys, step_type),
        keys.f10 ==> action == SimInputAction::ToggleUi,
        !keys.f10 && keys.c ==> action == SimInputAction::ResetCameraFocus,
        !keys.f10 && !keys.c && keys.space ==> action == SimInputAction::TogglePause,
        !keys.f10 && !keys.c && !keys.space && !keys.arrow_left && !keys.arrow_right && keys.alt_left ==> action == (
            if step_type == StepType::TIMESTEPS { SimInputAction::SelectSubSteps } else { SimInputAction::SelectTimeSteps }),
        !keys.f10 && !keys.c && !keys.space && !keys.arrow_left && !keys.arrow_right && !keys.alt_left ==> {
            &&& keys.control_left_held && keys.comma ==> action == SimInputAction::LargerUi
            &&& keys.control_left_held && keys.period && !keys.comma ==> action == SimInputAction::SmallerUi
            &&& !keys.control_left_held ==> action == SimInputAction::NoAction
        },
{
    let timestep_selected = step_type == StepType::TIMESTEPS;
    if keys.f10 {
        SimInputAction::ToggleUi
    } else if keys.c {
        SimInputAction::ResetCameraFocus
    } else if keys.space {
        SimInputAction::TogglePause
    } else if keys.arrow_left {
        if timestep_selected { SimInputAction::FasterTimeStep } else { SimInputAction::MoreSubSteps }
    } else if keys.arrow_right {
        if timestep_selected { SimInputAction::SlowerTimeStep } else { SimInputAction::FewerSubSteps }
    } else if keys.alt_left {
        if timestep_selected { SimInputAction::SelectSubSteps } else { SimInputAction::SelectTimeSteps }
    } else if keys.control_left_held && keys.comma {
        SimInputAction::LargerUi
    } else if keys.control_left_held && keys.period {
        SimInputAction::SmallerUi
    } else {
        SimInputAction::NoAction
    }
}

/// Carries out the part of an input action that concerns the interface, the
/// pause flag and the sub-steps; time step, camera and interface scale are
/// left to the caller.
pub fn apply_sim_input(action: SimInputAction, ui: &mut UiState, pause: &mut Pause, sub_steps: &mut SubSteps)
    requires
        action == SimInputAction::MoreSubSteps ==> i32::MIN <= old(sub_steps).0 * 2 <= i32::MAX,
    ensures
        final(ui).visible == (if action == SimInputAction::ToggleUi { !old(ui).visible } else { old(ui).visible }),
        final(ui).step_type == (match action {
            SimInputAction::SelectSubSteps => StepType::SUBSTEPS,
            SimInputAction::SelectTimeSteps => StepType::TIMESTEPS,
            _ => old(ui).step_type,
        }),
        final(ui).show_debug == old(ui).show_debug,
        final(ui).show_keys == old(ui).show_keys,
        final(ui).dyn_hide_orbit_lines == old(ui).dyn_hide_orbit_lines,
        final(pause).0 == (if action == SimInputAction::TogglePause { !old(pause).0 } else { old(pause).0 }),
        final(sub_steps).0 == (match action {
            SimInputAction::FewerSubSteps => max_int(trunc_div(old(sub_steps).0 as int, 2), 1),
            SimInputAction::MoreSubSteps => old(sub_steps).0 * 2,
            _ => old(sub_steps).0 as int,
        }),
{
    match action {
        SimInputAction::ToggleUi => {
            ui.visible = !ui.visible;
        },
        SimInputAction::TogglePause => {
            pause.0 = !pause.0;
        },
        SimInputAction::FewerSubSteps => {
            sub_steps.small_step_down();
        },
        SimInputAction::MoreSubSteps => {
            sub_steps.small_step_up();
        },
        SimInputAction::SelectSubSteps => {
            ui.step_type = StepType::SUBSTEPS;
        },
        SimInputAction::SelectTimeSteps => {
            ui.step_type = StepType::TIMESTEPS;
        },
        _ => {},
    }
}

/// Only Space is pressed.
pub open spec fn only_space() -> KeyPresses {
    KeyPresses {
        f10: false,
        c: false,
        space: true,
        arrow_left: false,
        arrow_right: false,
        alt_left: false,
        control_left_held: false,
        comma: false,
        period: false,
    }
}

/// Only left Alt is pressed.
pub open spec fn only_alt() -> KeyPresses {
    KeyPresses {
        f10: false,
        c: false,
        space: false,
        arrow_left: false,
        arrow_right: false,
        alt_left: true,
        control_left_held: false,
        comma: false,
        period: false,
    }
}

/// Law: with no key before it in the order pressed, Left makes the simulation
/// twice as fast and Right half as fast: they double or halve the time step
/// or the sub-steps, whichever is selected.
pub proof fn lemma_arrows_change_speed(keys: KeyPresses, step_type: StepType)
    requires
        !keys.f10,
        !keys.c,
        !keys.space,
    ensures
        keys.arrow_left ==> sim_input_action(keys, step_type) == (if step_type == StepType::TIMESTEPS {
            SimInputAction::FasterTimeStep
        } else {
            SimInputAction::MoreSubSteps
        }),
        !keys.arrow_left && keys.arrow_right ==> sim_input_action(keys, step_type) == (if step_type == StepType::TIMESTEPS {
            SimInputAction::SlowerTimeStep
        } else {
            SimInputAction::FewerSubSteps
        }),
{
}

/// Law: with no key before them in the order pressed, Ctrl + Comma makes the
/// interface larger and Ctrl + Period (without Comma) makes it smaller, so the
/// two shortcuts never do the same; without Ctrl neither does anything.
pub proof fn lemma_ui_scale_keys(keys: KeyPresses, step_type: StepType)
    requires
        !keys.f10,
        !keys.c,
        !keys.space,
        !keys.arrow_left,
        !keys.arrow_right,
        !keys.alt_left,
    ensures
        keys.control_left_held && keys.comma ==> sim_input_action(keys, step_type) == SimInputAction::LargerUi,
        keys.control_left_held && keys.period && !keys.comma ==> sim_input_action(keys, step_type)
            == SimInputAction::SmallerUi,
        !keys.control_left_held ==> sim_input_action(keys, step_type) == SimInputAction::NoAction,
        SimInputAction::LargerUi != SimInputAction::SmallerUi,
{
}

/// Law: Space pauses and resumes, whatever step type is selected.
pub proof fn lemma_space_toggles_pause(step_type: StepType)
    ensures
        sim_input_action(only_space(), step_type) == SimInputAction::TogglePause,
{
}

/// Law: left Alt switches between adjusting sub-steps and time steps, so
/// pressing it twice returns to the choice it started from.
pub proof fn lemma_alt_switches_step_type(step_type: StepType)
    ensures
        ({
            let first = if sim_input_action(only_alt(), step_type) == SimInputAction::SelectSubSteps {
                StepType::SUBSTEPS
            } else {
                StepType::TIMESTEPS
            };
            let second = if sim_input_action(only_alt(), first) == SimInputAction::SelectSubSteps {
                StepType::SUBSTEPS
            } else {
                StepType::TIMESTEPS
            };
            &&& first != step_type
            &&& second == step_type
        }),
{
}

/// How the window is shown.
#[derive(PartialEq, Eq, Structural, Clone, Copy, Debug)]
pub enum WindowModeKind {
    Windowed,
    BorderlessFullscreen,
    SizedFullscreen,
    Fullscreen,
}

/// The mode F11 switches to: a window goes borderless fullscreen, every other
/// mode goes back to a window.
pub open spec fn toggled_mode(current: WindowModeKind) -> WindowModeKind {
    if current == WindowModeKind::Windowed {
        WindowModeKind::BorderlessFullscreen
    } else {
        WindowModeKind::Windowed
    }
}

/// The mode F11 switches to.
pub fn toggled_window_mode(current: WindowModeKind) -> (next: WindowModeKind)
    ensures
        next == toggled_mode(current),
{
    if current == WindowModeKind::Windowed {
        WindowModeKind::BorderlessFullscreen
    } else {
        WindowModeKind::Windowed
    }
}

/// Law: F11 always changes the mode, and pressing it twice returns a window to
/// a window and any fullscreen mode to borderless fullscreen.
pub proof fn lemma_fullscreen_toggle_twice(mode: WindowModeKind)
    ensures
        toggled_mode(mode) != mode,
        toggled_mode(toggled_mode(mode)) == (if mode == WindowModeKind::Windowed {
            WindowModeKind::Windowed
        } else {
            WindowModeKind::BorderlessFullscreen
        }),
{
}

} // verus!
