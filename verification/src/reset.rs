use vstd::prelude::*;

use crate::constants::DEFAULT_SUB_STEPS;
use crate::integration::{Pause, SubSteps};
use crate::loading::LoadingState;
use crate::scenario::SelectedScenario;
use crate::selection::SelectedEntity;
use crate::ui::{StepType, UiState};

verus! {

/// Puts every integer and flag resource back to how a new simulation starts
/// when a loaded scenario is left: unpaused, default sub-steps, nothing
/// selected or spawned or loaded, interface visible with sub-steps selected
/// and the debug window closed.
pub fn clean_up(
    pause: &mut Pause,
    selected: &mut SelectedEntity,
    scenario: &mut SelectedScenario,
    sub_steps: &mut SubSteps,
    loading: &mut LoadingState,
    ui: &mut UiState,
)
    ensures
        !final(pause).0,
        final(selected).entity.is_none(),
        final(selected).changed_focus == old(selected).changed_focus,
        !final(scenario).spawned,
        final(sub_steps).0 == DEFAULT_SUB_STEPS,
        final(loading).is_initial(),
        final(ui).visible,
        final(ui).step_type == StepType::SUBSTEPS,
        !final(ui).show_debug,
        final(ui).show_keys == old(ui).show_keys,
        final(ui).dyn_hide_orbit_lines == old(ui).dyn_hide_orbit_lines,
{
    pause.0 = false;
    selected.entity = None;
    sub_steps.0 = DEFAULT_SUB_STEPS;
    scenario.spawned = false;
    loading.reset();
    ui.visible = true;
    ui.step_type = StepType::SUBSTEPS;
    ui.show_debug = false;
}

} // verus!
