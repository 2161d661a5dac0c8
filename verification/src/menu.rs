use vstd::prelude::*;

use crate::state::SimState;

verus! {

/// Marks the full-screen background behind the menus.
pub struct BackgroundImage;

/// The buttons of the main menu.
#[allow(non_camel_case_types)]
#[derive(PartialEq, Eq, Structural, Clone, Copy, Debug)]
pub enum MenuButtonType {
    START,
    EXIT,
}

/// How the pointer currently interacts with a button.
#[derive(PartialEq, Eq, Structural, Clone, Copy, Debug)]
pub enum Interaction {
    Pressed,
    Hovered,
    Idle,
}

/// What a menu button does in response to the pointer.
#[derive(PartialEq, Eq, Structural, Clone, Copy, Debug)]
pub enum MenuResponse {
    /// Switch to another phase.
    SwitchTo(SimState),
    /// Quit the application.
    Exit,
    /// Draw the button highlighted.
    Highlight,
    /// Draw the button normally.
    Normal,
}

/// Start opens the scenario selection, Exit quits; a hovered button is
/// highlighted, any other is drawn normally.
pub fn button_response(interaction: Interaction, button: MenuButtonType) -> (r: MenuResponse)
    ensures
        r == (match interaction {
            Interaction::Pressed => match button {
                MenuButtonType::START => MenuResponse::SwitchTo(SimState::ScenarioSelection),
                MenuButtonType::EXIT => MenuResponse::Exit,
            },
            Interaction::Hovered => MenuResponse::Highlight,
            Interaction::Idle => MenuResponse::Normal,
        }),
{
    match interaction {
        Interaction::Pressed => match button {
            MenuButtonType::START => MenuResponse::SwitchTo(SimState::ScenarioSelection),
            MenuButtonType::EXIT => MenuResponse::Exit,
        },
        Interaction::Hovered => MenuResponse::Highlight,
        Interaction::Idle => MenuResponse::Normal,
    }
}

/// The phase after the background has been set up: the main menu.
pub fn after_background_setup() -> (s: SimState)
    ensures
        s == SimState::Menu,
{
    SimState::Menu
}

} // verus!
