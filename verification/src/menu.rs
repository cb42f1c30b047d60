//! The client's screens and its main menu.
use vstd::prelude::*;

use bevy::ecs::entity::Entity;

verus! {

/// The screens the client goes through.
#[derive(Clone, Copy, Debug, PartialEq, Eq, Structural)]
pub enum GameStates {
    Starting,
    MainMenu,
    Loading,
    InGame,
}

impl GameStates {
    /// The client starts on the starting screen.
    pub fn default() -> (s: GameStates)
        ensures
            s == GameStates::Starting,
    {
        GameStates::Starting
    }
}

/// Once loading has begun, the client goes in game.
pub fn change_mode(game_state: &mut GameStates)
    ensures
        *final(game_state) == GameStates::InGame,
{
    *game_state = GameStates::InGame;
}

/// The entities that make up the main menu, so that they can be removed.
pub struct AllEntites {
    pub ids: Vec<Entity>,
}

/// The main menu.
pub struct MainMenu {
    pub ids: Vec<i32>,
}

impl MainMenu {
    /// A menu that has shown nothing yet.
    pub fn new() -> (m: MainMenu)
        ensures
            m.ids@.len() == 0,
    {
        MainMenu { ids: Vec::new() }
    }

    /// Takes out every entity of the menu, so that each can be removed.
    pub fn remove_ui(ent_ids: &mut AllEntites) -> (gone: Vec<Entity>)
        ensures
            gone@ == old(ent_ids).ids@,
            final(ent_ids).ids@.len() == 0,
    {
        let mut gone: Vec<Entity> = Vec::new();
        let mut i: usize = 0;
        while i < ent_ids.ids.len()
            invariant
                i <= ent_ids.ids@.len(),
                ent_ids.ids@ == old(ent_ids).ids@,
                gone@ == ent_ids.ids@.take(i as int),
            decreases ent_ids.ids@.len() - i,
        {
            gone.push(ent_ids.ids[i]);
            i = i + 1;
            assert(gone@ =~= ent_ids.ids@.take(i as int));
        }
        assert(ent_ids.ids@.take(ent_ids.ids@.len() as int) =~= ent_ids.ids@);
        ent_ids.ids.clear();
        gone
    }
}

/// How the pointer meets a button.
#[derive(Clone, Copy, Debug, PartialEq, Eq, Structural)]
pub enum ButtonInteraction {
    Clicked,
    Hovered,
    Idle,
}

/// The label a button shows for an interaction.
pub open spec fn button_label(i: ButtonInteraction) -> Seq<char> {
    match i {
        ButtonInteraction::Clicked => "Connecting"@,
        ButtonInteraction::Hovered => "Ready"@,
        ButtonInteraction::Idle => "Button"@,
    }
}

/// What the connect button does: its label follows the pointer, and a click
/// starts loading.
pub fn button_system(interaction: ButtonInteraction, game_state: &mut GameStates) -> (label: String)
    ensures
        label@ == button_label(interaction),
        interaction == ButtonInteraction::Clicked ==> *final(game_state) == GameStates::Loading,
        interaction != ButtonInteraction::Clicked ==> *final(game_state) == *old(game_state),
{
    match interaction {
        ButtonInteraction::Clicked => {
            *game_state = GameStates::Loading;
            String::from_str("Connecting")
        },
        ButtonInteraction::Hovered => String::from_str("Ready"),
        ButtonInteraction::Idle => String::from_str("Button"),
    }
}

} // verus!
