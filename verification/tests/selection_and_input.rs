use solar_sim::input::{apply_sim_input, sim_input, toggled_window_mode, KeyPresses, SimInputAction, WindowModeKind};
use solar_sim::integration::{Pause, SubSteps};
use solar_sim::menu::{after_background_setup, button_response, Interaction, MenuButtonType, MenuResponse};
use solar_sim::selection::{
    apply_camera_to_selection, find_first_parent, find_last_parent, lock_on_target, selection_listener, CameraUpdate,
    LockOn, SelectableBody, SelectedEntity,
};
use solar_sim::state::SimState;
use solar_sim::body::BillboardVisible;
use solar_sim::ui::{billboard_shown, update_billboard_visible, egui_block_input, hide_orbit_lines, orbit_line_segments, BillboardSettings, EguiBlockInputState, EguiWantsFocus, StepType, UiState};

fn no_keys() -> KeyPresses {
    KeyPresses {
        f10: false,
        c: false,
        space: false,
        arrow_left: false,
        arrow_right: false,
        alt_left: false,
        control_left_held: false,
        comma: false,
        period: false,
    }
}

#[test]
fn selection_picks_first_star() {
    let bodies = vec![
        SelectableBody { id: 1, is_star: false },
        SelectableBody { id: 2, is_star: true },
        SelectableBody { id: 3, is_star: true },
    ];
    let mut selected = SelectedEntity::default();
    assert_eq!(apply_camera_to_selection(&mut selected, &bodies), CameraUpdate::Keep);
    assert_eq!(selected.entity, Some(2));
    assert!(!selected.changed_focus);
    assert_eq!(apply_camera_to_selection(&mut selected, &bodies), CameraUpdate::FocusSelected);
    assert!(selected.changed_focus);
    assert_eq!(apply_camera_to_selection(&mut selected, &bodies), CameraUpdate::Keep);
    assert_eq!(selected.entity, Some(2));
}

#[test]
fn selection_of_missing_body_is_dropped() {
    let bodies = vec![SelectableBody { id: 1, is_star: false }];
    let mut selected = SelectedEntity { entity: Some(7), changed_focus: false };
    assert_eq!(apply_camera_to_selection(&mut selected, &bodies), CameraUpdate::Keep);
    assert_eq!(selected.entity, None);
    assert_eq!(apply_camera_to_selection(&mut selected, &bodies), CameraUpdate::Keep);
    assert_eq!(selected.entity, None);
}

#[test]
fn change_entity_sets_focus_flag() {
    let mut s = SelectedEntity::default();
    s.change_entity(4, true);
    assert_eq!(s.entity, Some(4));
    assert!(s.changed_focus);
}

#[test]
fn listener_reports_changes() {
    let mut local = SelectedEntity::default();
    let global = SelectedEntity { entity: Some(3), changed_focus: false };
    assert!(!selection_listener(&global, &mut local));
    assert_eq!(local.entity, Some(3));
    let global = SelectedEntity { entity: Some(4), changed_focus: false };
    assert!(selection_listener(&global, &mut local));
    assert_eq!(local.entity, Some(4));
    let global = SelectedEntity { entity: None, changed_focus: false };
    assert!(!selection_listener(&global, &mut local));
    assert_eq!(local.entity, Some(4));
}

#[test]
fn parents_first_and_last() {
    let children = vec![vec![1, 2], vec![], vec![2, 3], vec![2]];
    assert_eq!(find_first_parent(&children, 2), Some(0));
    assert_eq!(find_last_parent(&children, 2), Some(3));
    assert_eq!(find_first_parent(&children, 3), Some(2));
    assert_eq!(find_first_parent(&children, 9), None);
    assert_eq!(find_last_parent(&children, 9), None);
    let sel = SelectedEntity { entity: Some(3), changed_focus: true };
    assert_eq!(lock_on_target(&LockOn { enabled: true }, &sel, &children), Some(2));
    assert_eq!(lock_on_target(&LockOn::default(), &sel, &children), None);
}

#[test]
fn input_priority_and_step_type() {
    let mut keys = no_keys();
    assert_eq!(sim_input(&keys, StepType::SUBSTEPS), SimInputAction::NoAction);
    keys.space = true;
    keys.arrow_left = true;
    assert_eq!(sim_input(&keys, StepType::SUBSTEPS), SimInputAction::TogglePause);
    keys.space = false;
    // Left doubles the speed (more sub-steps, or a larger time step) ...
    assert_eq!(sim_input(&keys, StepType::SUBSTEPS), SimInputAction::MoreSubSteps);
    assert_eq!(sim_input(&keys, StepType::TIMESTEPS), SimInputAction::FasterTimeStep);
    // ... and Right halves it.
    let mut keys = no_keys();
    keys.arrow_right = true;
    assert_eq!(sim_input(&keys, StepType::SUBSTEPS), SimInputAction::FewerSubSteps);
    assert_eq!(sim_input(&keys, StepType::TIMESTEPS), SimInputAction::SlowerTimeStep);
    let mut keys = no_keys();
    keys.comma = true;
    assert_eq!(sim_input(&keys, StepType::SUBSTEPS), SimInputAction::NoAction);
    keys.control_left_held = true;
    assert_eq!(sim_input(&keys, StepType::SUBSTEPS), SimInputAction::LargerUi);
    let mut keys = no_keys();
    keys.f10 = true;
    keys.c = true;
    assert_eq!(sim_input(&keys, StepType::SUBSTEPS), SimInputAction::ToggleUi);
}

#[test]
fn applying_input() {
    let mut ui = UiState::default();
    let mut pause = Pause::default();
    let mut steps = SubSteps(10);
    apply_sim_input(SimInputAction::TogglePause, &mut ui, &mut pause, &mut steps);
    assert!(pause.0);
    apply_sim_input(SimInputAction::TogglePause, &mut ui, &mut pause, &mut steps);
    assert!(!pause.0);
    apply_sim_input(SimInputAction::MoreSubSteps, &mut ui, &mut pause, &mut steps);
    assert_eq!(steps.0, 20);
    apply_sim_input(SimInputAction::FewerSubSteps, &mut ui, &mut pause, &mut steps);
    assert_eq!(steps.0, 10);
    apply_sim_input(SimInputAction::SelectTimeSteps, &mut ui, &mut pause, &mut steps);
    assert_eq!(ui.step_type, StepType::TIMESTEPS);
    let mut alt = no_keys();
    alt.alt_left = true;
    let action = sim_input(&alt, ui.step_type);
    assert_eq!(action, SimInputAction::SelectSubSteps);
    apply_sim_input(action, &mut ui, &mut pause, &mut steps);
    assert_eq!(ui.step_type, StepType::SUBSTEPS);
    apply_sim_input(SimInputAction::ToggleUi, &mut ui, &mut pause, &mut steps);
    assert!(!ui.visible);
}

#[test]
fn fullscreen_toggle() {
    assert_eq!(toggled_window_mode(WindowModeKind::Windowed), WindowModeKind::BorderlessFullscreen);
    assert_eq!(toggled_window_mode(WindowModeKind::BorderlessFullscreen), WindowModeKind::Windowed);
    assert_eq!(toggled_window_mode(WindowModeKind::Fullscreen), WindowModeKind::Windowed);
}

#[test]
fn menu_buttons() {
    assert_eq!(button_response(Interaction::Pressed, MenuButtonType::START), MenuResponse::SwitchTo(SimState::ScenarioSelection));
    assert_eq!(button_response(Interaction::Pressed, MenuButtonType::EXIT), MenuResponse::Exit);
    assert_eq!(button_response(Interaction::Hovered, MenuButtonType::EXIT), MenuResponse::Highlight);
    assert_eq!(button_response(Interaction::Idle, MenuButtonType::START), MenuResponse::Normal);
    assert_eq!(after_background_setup(), SimState::Menu);
}

#[test]
fn interface_helpers() {
    let focus = EguiWantsFocus::default();
    let next = focus.next(true, false);
    assert!(!next.prev && next.curr);
    let next2 = next.next(false, false);
    assert!(next2.prev && !next2.curr);
    let mut stored = EguiWantsFocus::default();
    assert!(stored.set_if_neq(EguiWantsFocus { prev: false, curr: true }));
    assert!(!stored.set_if_neq(EguiWantsFocus { prev: false, curr: true }));

    let block = egui_block_input(&EguiBlockInputState { wants_keyboard_input: true, wants_pointer_input: false });
    assert!(block.reset_keys && !block.reset_mouse_buttons);

    let settings = BillboardSettings::default();
    assert!(billboard_shown(&settings, true, true));
    assert!(!billboard_shown(&settings, true, false));
    assert!(billboard_shown(&settings, false, false));
    assert!(billboard_shown(&BillboardSettings { show: true, dynamic_hide: false }, true, false));
    assert!(!billboard_shown(&BillboardSettings { show: false, dynamic_hide: false }, false, true));

    assert!(hide_orbit_lines(true, true, true, true));
    assert!(!hide_orbit_lines(true, false, true, true));
    assert!(hide_orbit_lines(false, false, false, true));
    assert!(!hide_orbit_lines(true, true, false, false));

    assert_eq!(orbit_line_segments(3), vec![(0, 1), (1, 2), (2, 3)]);
    assert!(orbit_line_segments(0).is_empty());
}

#[test]
fn selection_settles_after_a_body_disappears() {
    let bodies = vec![SelectableBody { id: 4, is_star: false }, SelectableBody { id: 5, is_star: true }];
    let mut selected = SelectedEntity { entity: Some(9), changed_focus: true };
    let updates: Vec<CameraUpdate> = (0..3).map(|_| apply_camera_to_selection(&mut selected, &bodies)).collect();
    assert_eq!(updates, vec![CameraUpdate::Keep, CameraUpdate::Keep, CameraUpdate::FocusSelected]);
    assert_eq!(selected.entity, Some(5));
    assert!(selected.changed_focus);
    assert_eq!(apply_camera_to_selection(&mut selected, &bodies), CameraUpdate::Keep);
    assert_eq!(selected.entity, Some(5));
}

#[test]
fn billboard_flag_follows_settings() {
    let settings = BillboardSettings::default();
    let mut flag = BillboardVisible(true);
    update_billboard_visible(&settings, &mut flag, true, false);
    assert!(!flag.0);
    update_billboard_visible(&settings, &mut flag, false, false);
    assert!(flag.0);
    let manual = BillboardSettings { show: true, dynamic_hide: false };
    let mut flag = BillboardVisible(false);
    update_billboard_visible(&manual, &mut flag, true, false);
    assert!(flag.0);
    let off = BillboardSettings { show: false, dynamic_hide: true };
    let mut flag = BillboardVisible(false);
    update_billboard_visible(&off, &mut flag, false, true);
    assert!(!flag.0);
    let mut flag = BillboardVisible(true);
    update_billboard_visible(&off, &mut flag, true, false);
    assert!(flag.0);
}
