use solar_sim::asset::{
    default_color, default_frame, default_id, default_spk, spice_file_kind, spice_load_tasks, spice_task_finished,
    spk_file_loading_step,
    AniseMetadata, SpiceFileKind, SpiceFiles, SpiceOutcome, SpiceStep, SCENARIO_ASSET_SOURCE,
};
use solar_sim::editor::CreateBodyType;
use solar_sim::loading::LoadingState;
use solar_sim::save::{collect_bodies, SavedBody, WorldBody};
use solar_sim::scenario::{
    body_components, finish_setup, plan_scenario, setup_needed, ScenarioBody, SelectedScenario, SpawnedBody,
};
use solar_sim::selection::SelectedEntity;
use solar_sim::state::SimState;

#[test]
fn defaults() {
    assert_eq!(default_id(), -1);
    let f = default_frame();
    assert_eq!((f.target_id, f.orientation_id), (-1, -1));
    assert!(default_spk().is_empty());
    assert_eq!(default_color(), "#ffffff");
    let m = AniseMetadata::default();
    assert_eq!((m.ephemeris_id, m.target_id, m.orientation_id), (-1, -1, -1));
    assert_eq!(SCENARIO_ASSET_SOURCE, "scenarios");
}

fn names(files: &SpiceFiles) -> Vec<(String, bool)> {
    files.entries.clone()
}

#[test]
fn spice_files_from_data_sets() {
    let sets = vec!["a.bsp".to_string(), "b.pca".to_string(), "a.bsp".to_string()];
    let files = SpiceFiles::from_data_sets(&sets);
    assert_eq!(names(&files), vec![("a.bsp".to_string(), false), ("b.pca".to_string(), false)]);
    assert_eq!(files.len(), 2);
    assert!(!files.is_empty());
    assert!(SpiceFiles::from_data_sets(&vec![]).is_empty());
}

#[test]
fn spice_file_kinds() {
    assert_eq!(spice_file_kind("de440s.bsp"), SpiceFileKind::Spk);
    assert_eq!(spice_file_kind("pck11.pca"), SpiceFileKind::Pca);
    assert_eq!(spice_file_kind("notes.txt"), SpiceFileKind::Unsupported);
}

#[test]
fn spice_loading_steps() {
    let mut files = SpiceFiles::from_data_sets(&vec!["a.bsp".to_string(), "b.pca".to_string()]);
    let mut state = LoadingState::new();
    assert_eq!(spk_file_loading_step(&mut state, true, &mut files, true), SpiceStep::Idle);
    state.spawned_bodies = true;
    assert_eq!(spk_file_loading_step(&mut state, true, &mut files, false), SpiceStep::Poll);
    assert_eq!(spk_file_loading_step(&mut state, true, &mut files, true), SpiceStep::StartAndPoll);
    assert_eq!(state.spice_total, 2);
    spice_task_finished(&mut state, &mut files, SpiceOutcome::Loaded("a.bsp".to_string()));
    spice_task_finished(&mut state, &mut files, SpiceOutcome::Failed);
    assert_eq!(state.spice_loaded, 2);
    assert_eq!(names(&files), vec![("a.bsp".to_string(), true), ("b.pca".to_string(), false)]);
    assert_eq!(spk_file_loading_step(&mut state, true, &mut files, true), SpiceStep::Finished);
    assert!(state.loaded_spice_files);
    assert_eq!(spk_file_loading_step(&mut state, true, &mut files, true), SpiceStep::Idle);

    let mut sim_state = LoadingState::new();
    sim_state.spawned_bodies = true;
    let mut files2 = SpiceFiles::from_data_sets(&vec!["a.bsp".to_string()]);
    assert_eq!(spk_file_loading_step(&mut sim_state, false, &mut files2, true), SpiceStep::Finished);
    assert!(sim_state.loaded_spice_files);
}

#[test]
fn set_loaded_adds_unknown_files() {
    let mut files = SpiceFiles::from_data_sets(&vec!["a.bsp".to_string()]);
    let mut state = LoadingState::new();
    spice_task_finished(&mut state, &mut files, SpiceOutcome::Loaded("c.bsp".to_string()));
    assert_eq!(names(&files), vec![("a.bsp".to_string(), false), ("c.bsp".to_string(), true)]);
}

fn leaf(simulate: bool) -> ScenarioBody {
    ScenarioBody { simulate, children: vec![] }
}

fn shape(b: &SpawnedBody) -> (usize, usize, CreateBodyType, Vec<(usize, usize, CreateBodyType, usize)>) {
    (
        b.source,
        b.sibling_count,
        b.body_type,
        b.children.iter().map(|c| (c.source, c.sibling_count, c.body_type, c.children.len())).collect(),
    )
}

#[test]
fn plan_scenario_filters_and_counts() {
    let stars = vec![
        ScenarioBody {
            simulate: true,
            children: vec![
                ScenarioBody { simulate: true, children: vec![leaf(true), leaf(false)] },
                ScenarioBody { simulate: false, children: vec![leaf(true), leaf(true), leaf(true)] },
                leaf(true),
            ],
        },
        ScenarioBody { simulate: false, children: vec![leaf(true)] },
    ];
    let (plan, total) = plan_scenario(&stars);
    // 2 stars + 3 planets of the first star + 2 moons of its first planet
    assert_eq!(total, 7);
    assert_eq!(plan.len(), 1);
    assert_eq!(
        shape(&plan[0]),
        (0, 2, CreateBodyType::Star, vec![(0, 3, CreateBodyType::Planet, 1), (2, 3, CreateBodyType::Planet, 0)])
    );
    let moon = &plan[0].children[0].children[0];
    assert_eq!((moon.source, moon.sibling_count, moon.body_type), (0, 2, CreateBodyType::Moon));
    let (empty, none) = plan_scenario(&vec![]);
    assert!(empty.is_empty());
    assert_eq!(none, 0);
}

#[test]
fn finishing_setup() {
    let mut scenario = SelectedScenario { spawned: false };
    let mut loading = LoadingState::new();
    let mut selected = SelectedEntity::default();
    assert_eq!(finish_setup(&mut scenario, &mut loading, &mut selected, Some(11), 4), None);
    assert!(scenario.spawned && loading.spawned_bodies);
    assert_eq!(loading.total_bodies, 4);
    assert_eq!(selected.entity, Some(11));
    let mut selected2 = SelectedEntity { entity: Some(3), changed_focus: true };
    assert_eq!(finish_setup(&mut scenario, &mut loading, &mut selected2, Some(11), 0), Some(SimState::Loaded));
    assert_eq!(selected2.entity, Some(3));
}

#[test]
fn components_by_kind() {
    let s = body_components(CreateBodyType::Star);
    assert!(s.star.map(|x| x.use_imposter).unwrap_or(false) && s.imposter && !s.apsis);
    let p = body_components(CreateBodyType::Planet);
    assert!(p.planet && p.apsis && p.star.is_none() && !p.moon);
    let m = body_components(CreateBodyType::Moon);
    assert!(m.moon && m.apsis && !m.imposter);
}

fn tree(b: &SavedBody) -> (usize, Vec<(usize, Vec<usize>)>) {
    (b.record, b.children.iter().map(|p| (p.record, p.children.iter().map(|m| m.record).collect())).collect())
}

#[test]
fn collecting_bodies_to_save() {
    let world = vec![
        WorldBody { id: 10, is_star: false, children: Some(vec![12]) },
        WorldBody { id: 20, is_star: true, children: Some(vec![10, 99, 30]) },
        WorldBody { id: 12, is_star: false, children: Some(vec![77]) },
        WorldBody { id: 30, is_star: false, children: Some(vec![]) },
        WorldBody { id: 40, is_star: true, children: Some(vec![]) },
    ];
    let saved = collect_bodies(&world);
    assert_eq!(saved.len(), 2);
    assert_eq!(tree(&saved[0]), (1, vec![(0, vec![2]), (3, vec![])]));
    assert!(saved[0].children[0].children[0].children.is_empty());
    assert_eq!(tree(&saved[1]), (4, vec![]));
}

/// Lays a plan out as spawning does, parent first, with entity `100 + record`.
fn lay_out(plan: &[SpawnedBody], world: &mut Vec<WorldBody>) -> Vec<u64> {
    let mut ids = vec![];
    for node in plan {
        let pos = world.len();
        world.push(WorldBody { id: 100 + pos as u64, is_star: node.body_type == CreateBodyType::Star, children: None });
        ids.push(100 + pos as u64);
        let children = lay_out(&node.children, world);
        world[pos].children = Some(children);
    }
    ids
}

#[test]
fn saving_a_freshly_spawned_scenario() {
    let grand_moon = ScenarioBody { simulate: true, children: vec![leaf(true)] };
    let stars = vec![
        ScenarioBody {
            simulate: true,
            children: vec![ScenarioBody { simulate: true, children: vec![grand_moon, leaf(true)] }, leaf(true)],
        },
        ScenarioBody { simulate: true, children: vec![leaf(true)] },
    ];
    let (plan, _) = plan_scenario(&stars);
    let mut world = vec![];
    lay_out(&plan, &mut world);
    // star, planet, moon, moon's moon, moon, planet, star, planet
    assert_eq!(world.len(), 8);
    let saved = collect_bodies(&world);
    assert_eq!(saved.len(), 2);
    // every star with its planets and their moons; the moon's moon is not written
    assert_eq!(tree(&saved[0]), (0, vec![(1, vec![2, 4]), (5, vec![])]));
    assert!(saved[0].children[0].children.iter().all(|m| m.children.is_empty()));
    assert_eq!(tree(&saved[1]), (6, vec![(7, vec![])]));
}

#[test]
fn setup_runs_once_per_scenario() {
    let mut scenario = SelectedScenario { spawned: false };
    assert!(!setup_needed(&scenario, false));
    assert!(setup_needed(&scenario, true));
    let mut loading = LoadingState::new();
    let mut selected = SelectedEntity::default();
    finish_setup(&mut scenario, &mut loading, &mut selected, None, 3);
    assert!(!setup_needed(&scenario, true));
}

#[test]
fn load_tasks_skip_unsupported_files() {
    let files = SpiceFiles::from_data_sets(&vec!["a.bsp".to_string(), "notes.txt".to_string(), "b.pca".to_string()]);
    let tasks = spice_load_tasks(&files);
    assert_eq!(tasks, vec![("a.bsp".to_string(), SpiceFileKind::Spk), ("b.pca".to_string(), SpiceFileKind::Pca)]);
}

#[test]
fn unsupported_file_keeps_loading_polling() {
    let mut files = SpiceFiles::from_data_sets(&vec!["a.bsp".to_string(), "notes.txt".to_string()]);
    let mut state = LoadingState::new();
    state.spawned_bodies = true;
    assert_eq!(spk_file_loading_step(&mut state, true, &mut files, true), SpiceStep::StartAndPoll);
    assert_eq!(state.spice_total, 2);
    let tasks = spice_load_tasks(&files);
    assert_eq!(tasks.len(), 1);
    for (path, _) in tasks {
        spice_task_finished(&mut state, &mut files, SpiceOutcome::Loaded(path));
    }
    assert_eq!(state.spice_loaded, 1);
    assert_eq!(spk_file_loading_step(&mut state, true, &mut files, true), SpiceStep::Poll);
    assert_eq!(spk_file_loading_step(&mut state, true, &mut files, false), SpiceStep::Poll);
    assert!(!state.loaded_spice_files);
}

fn plan_size(plan: &[SpawnedBody]) -> usize {
    plan.iter().map(|b| 1 + plan_size(&b.children)).sum()
}

#[test]
fn count_is_exact_when_every_body_is_simulated() {
    let stars = vec![
        ScenarioBody {
            simulate: true,
            children: vec![ScenarioBody { simulate: true, children: vec![leaf(true), leaf(true)] }, leaf(true)],
        },
        leaf(true),
    ];
    let (plan, total) = plan_scenario(&stars);
    assert_eq!(total, 6);
    assert_eq!(plan_size(&plan), 6);
}
