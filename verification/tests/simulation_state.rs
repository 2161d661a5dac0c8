use solar_sim::constants::DEFAULT_SUB_STEPS;
use solar_sim::editor::{add_child, create_empty_body, new_body_name, CreateBodyState, CreateBodyType, EditorSystemType};
use solar_sim::integration::{interaction_pairs, paused, IntegrationType, Pause, SubSteps};
use solar_sim::loading::{
    check_rotated, check_scaled, loading_system, loading_text, scale_step, update_progress_text, LoadingState, ModelLoad,
};
use solar_sim::reset::clean_up;
use solar_sim::scenario::SelectedScenario;
use solar_sim::selection::SelectedEntity;
use solar_sim::state::{loading_or_editor, transition_on_enter, SimState, SimStateType};
use solar_sim::body::BodyChildren;
use solar_sim::ui::{StepType, UiState};

#[test]
fn sub_steps_default_and_steps() {
    let mut s = SubSteps::default();
    assert_eq!(s.0, 96);
    assert_eq!(DEFAULT_SUB_STEPS, 96);
    s.small_step_up();
    assert_eq!(s.0, 192);
    s.small_step_down();
    assert_eq!(s.0, 96);
    s.big_step_up();
    assert_eq!(s.0, 960);
    s.big_step_down();
    assert_eq!(s.0, 96);
}

#[test]
fn sub_steps_never_below_one() {
    let mut s = SubSteps(1);
    s.small_step_down();
    assert_eq!(s.0, 1);
    let mut s = SubSteps(9);
    s.big_step_down();
    assert_eq!(s.0, 1);
    let mut s = SubSteps(3);
    s.small_step_down();
    assert_eq!(s.0, 1);
    let mut s = SubSteps(25);
    s.big_step_down();
    assert_eq!(s.0, 2);
    let mut s = SubSteps(-7);
    s.small_step_down();
    assert_eq!(s.0, 1);
}

#[test]
fn integration_types() {
    assert_eq!(IntegrationType::Verlet.as_str(), "Verlet");
    assert_eq!(IntegrationType::Euler.as_str(), "Euler");
    assert_eq!(IntegrationType::all(), vec![IntegrationType::Verlet, IntegrationType::Euler]);
    assert_eq!(IntegrationType::default(), IntegrationType::Verlet);
}

#[test]
fn pause_default() {
    let p = Pause::default();
    assert!(!p.0);
    assert!(!paused(&p));
    assert!(paused(&Pause(true)));
}

#[test]
fn interaction_pairs_visit_each_pair_once() {
    assert!(interaction_pairs(0).is_empty());
    assert!(interaction_pairs(1).is_empty());
    assert_eq!(interaction_pairs(3), vec![(0, 1), (0, 2), (1, 2)]);
    let pairs = interaction_pairs(6);
    assert_eq!(pairs.len(), 15);
    for a in 0..6 {
        for b in (a + 1)..6 {
            assert_eq!(pairs.iter().filter(|p| **p == (a, b)).count(), 1);
        }
    }
}

fn done_state() -> LoadingState {
    LoadingState {
        scaled_bodies: true,
        scaled_bodies_count: 3,
        total_bodies: 3,
        tilted_bodies: true,
        spice_loaded: 1,
        spice_total: 1,
        loaded_spice_files: true,
        spawned_bodies: true,
    }
}

#[test]
fn loading_state_reset_and_done() {
    let mut s = done_state();
    assert!(s.is_done());
    assert_eq!(loading_system(&s), Some(SimState::Loaded));
    s.reset();
    assert!(!s.is_done());
    assert_eq!(s.scaled_bodies_count, 0);
    assert_eq!(s.total_bodies, 0);
    assert_eq!(s.spice_total, 0);
    assert_eq!(loading_system(&s), None);
    let mut partial = done_state();
    partial.loaded_spice_files = false;
    assert!(!partial.is_done());
}

#[test]
fn loading_text_prefixes() {
    assert_eq!(loading_text("Spawning bodies", true, false), "Done - Spawning bodies");
    assert_eq!(loading_text("Spawning bodies", false, true), "Skipped - Spawning bodies");
    assert_eq!(loading_text("Spawning bodies", false, false), "In Progress - Spawning bodies");
    assert_eq!(loading_text("x", true, true), "Done - x");
}

#[test]
fn progress_text_lines() {
    let s = LoadingState {
        scaled_bodies: false,
        scaled_bodies_count: 2,
        total_bodies: 5,
        tilted_bodies: false,
        spice_loaded: 0,
        spice_total: 3,
        loaded_spice_files: false,
        spawned_bodies: true,
    };
    assert_eq!(
        update_progress_text(&s),
        "Done - Spawning bodies\nIn Progress - Scaling bodies: 2/5\nIn Progress - Rotating bodies\nIn Progress - Loading SPK files: 0/3"
    );
}

#[test]
fn scaling_and_rotation_completion() {
    let mut s = LoadingState::new();
    check_scaled(&mut s, &vec![]);
    assert!(!s.scaled_bodies);
    check_scaled(&mut s, &vec![true, false]);
    assert!(!s.scaled_bodies);
    check_scaled(&mut s, &vec![true, true]);
    assert!(s.scaled_bodies);
    let mut r = LoadingState::new();
    check_rotated(&mut r, &vec![]);
    assert!(r.tilted_bodies);
    let mut r2 = LoadingState::new();
    check_rotated(&mut r2, &vec![false]);
    assert!(!r2.tilted_bodies);
}

#[test]
fn state_transitions() {
    assert_eq!(transition_on_enter(SimState::Reset), Some(SimState::Loading));
    assert_eq!(transition_on_enter(SimState::ExitToMainMenu), Some(SimState::Menu));
    assert_eq!(transition_on_enter(SimState::Loaded), None);
    assert!(loading_or_editor(SimState::Loading, SimStateType::Simulation));
    assert!(loading_or_editor(SimState::Loaded, SimStateType::Editor));
    assert!(!loading_or_editor(SimState::Loaded, SimStateType::Simulation));
    assert!(!loading_or_editor(SimState::Menu, SimStateType::Editor));
    assert_eq!(SimState::default(), SimState::Setup);
    assert_eq!(SimStateType::default(), SimStateType::Unset);
}

#[test]
fn editor_creates_bodies() {
    assert_eq!(CreateBodyType::from_depth(0), CreateBodyType::Star);
    assert_eq!(CreateBodyType::from_depth(1), CreateBodyType::Planet);
    assert_eq!(CreateBodyType::from_depth(2), CreateBodyType::Moon);
    assert_eq!(CreateBodyType::from_depth(17), CreateBodyType::Moon);
    assert_eq!(new_body_name(3), "New body 3");
    assert_eq!(EditorSystemType::UPDATE_POSITIONS, "update_positions");
    assert_eq!(EditorSystemType::RETRIEVE_DATA, "retrieve_data");

    let mut state = CreateBodyState { parent: Some(5), body_type: CreateBodyType::Planet };
    let mut selected = SelectedEntity::default();
    let mut index = 0;
    let body = create_empty_body(&mut state, &mut selected, &mut index, 42);
    assert_eq!(body.name, "New body 0");
    assert_eq!(body.model_path.0, "models/earth.glb#Scene0");
    assert_eq!(body.body_type, CreateBodyType::Planet);
    assert!(body.has_children);
    assert_eq!(body.parent, Some(5));
    assert_eq!(selected.entity, Some(42));
    assert_eq!(state.parent, None);
    assert_eq!(index, 1);

    let mut moon_state = CreateBodyState::default();
    let moon = create_empty_body(&mut moon_state, &mut selected, &mut index, 43);
    assert_eq!(moon.name, "New body 1");
    assert!(!moon.has_children);
    assert_eq!(moon.parent, None);

    let mut children = BodyChildren(vec![1]);
    add_child(&mut children, 43);
    assert_eq!(children.0, vec![1, 43]);
}

#[test]
fn clean_up_restores_defaults() {
    let mut pause = Pause(true);
    let mut selected = SelectedEntity { entity: Some(9), changed_focus: true };
    let mut scenario = SelectedScenario { spawned: true };
    let mut sub_steps = SubSteps(1000);
    let mut loading = done_state();
    let mut ui = UiState { visible: false, step_type: StepType::TIMESTEPS, show_debug: true, show_keys: true, dyn_hide_orbit_lines: false };
    clean_up(&mut pause, &mut selected, &mut scenario, &mut sub_steps, &mut loading, &mut ui);
    assert!(!pause.0);
    assert_eq!(selected.entity, None);
    assert!(!scenario.spawned);
    assert_eq!(sub_steps.0, 96);
    assert!(!loading.is_done());
    assert!(ui.visible);
    assert_eq!(ui.step_type, StepType::SUBSTEPS);
    assert!(!ui.show_debug);
    assert!(ui.show_keys);
}

#[test]
fn failed_model_counts_as_scaled() {
    let failed = scale_step(false, ModelLoad::Failed, false);
    assert!(failed.applied && !failed.scale);
    let ready = scale_step(false, ModelLoad::Loaded, true);
    assert!(ready.applied && ready.scale);
    let waiting = scale_step(false, ModelLoad::Loaded, false);
    assert!(!waiting.applied && !waiting.scale);
    let loading = scale_step(false, ModelLoad::Loading, true);
    assert!(!loading.applied);
    let done = scale_step(true, ModelLoad::NotLoaded, false);
    assert!(done.applied && !done.scale);
    let mut state = LoadingState::new();
    let flags = vec![failed.applied, ready.applied];
    check_scaled(&mut state, &flags);
    assert!(state.scaled_bodies);
}
