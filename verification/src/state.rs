use vstd::prelude::*;

verus! {

/// Whether a loaded scenario is run as a simulation or edited.
#[derive(PartialEq, Eq, Structural, Clone, Copy, Debug)]
pub enum SimStateType {
    Unset,
    Simulation,
    Editor,
}

/// The phase the application is in.
#[derive(PartialEq, Eq, Structural, Clone, Copy, Debug)]
pub enum SimState {
    Setup,
    Menu,
    ScenarioSelection,
    Loading,
    Loaded,
    Reset,
    ExitToMainMenu,
}

impl SimStateType {
    /// The type a new application starts with.
    pub fn default() -> (t: SimStateType)
        ensures
            t == SimStateType::Unset,
    {
        SimStateType::Unset
    }
}

impl SimState {
    /// The phase a new application starts in.
    pub fn default() -> (s: SimState)
        ensures
            s == SimState::Setup,
    {
        SimState::Setup
    }
}

/// Whether SPICE kernel loading runs: while a scenario loads, and while a
/// loaded scenario is being edited.
pub fn loading_or_editor(state: SimState, s_type: SimStateType) -> (b: bool)
    ensures
        b == (state == SimState::Loading || (state == SimState::Loaded && s_type == SimStateType::Editor)),
{
    state == SimState::Loading || (state == SimState::Loaded && s_type == SimStateType::Editor)
}

/// The phase that entering `state` immediately switches to: a reset reloads
/// the scenario, leaving to the main menu shows the menu.
pub fn transition_on_enter(state: SimState) -> (next: Option<SimState>)
    ensures
        next == (match state {
            SimState::Reset => Some(SimState::Loading),
            SimState::ExitToMainMenu => Some(SimState::Menu),
            _ => None,
        }),
{
    match state {
        SimState::Reset => Some(SimState::Loading),
        SimState::ExitToMainMenu => Some(SimState::Menu),
        _ => None,
    }
}

} // verus!
