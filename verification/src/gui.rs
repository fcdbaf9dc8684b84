//! What the window of the workbench shows, and what can happen in it.

use crate::utils::Target;
use vstd::prelude::*;

verus! {

/// The two screens of the workbench.
#[derive(Clone, Copy, Debug, PartialEq, Eq, Structural)]
pub enum Scene {
    /// The program under test is being chosen.
    ChooseProgram,
    /// The recipe is being edited and run.
    Recipe,
}

/// What can happen in the window.  Steps are named by their id.
#[derive(Debug, Clone)]
pub enum Message {
    IngredientOutputChange(usize, String),
    IngredientDataChange(usize, String),
    IngredientOutputChangeType(usize),
    SelectIngredient(usize),
    SelectIngredientPreview(usize),
    AddIngredientPreview(usize),
    RemoveIngredient(usize),
    MoveIngredientUp(usize),
    MoveIngredientDown(usize),
    SaveRecipe,
    LoadRecipe,
    SaveIngredient,
    ProgramNameChanged(String),
    CreateRegister(usize),
    IsNetworkChanged(bool),
    StartProgram,
    RunAll,
    SaveRecipeChanged(String),
    LoadRecipeChanged(String),
}

/// The screen that is shown after a message: starting the program leads to
/// the recipe, anything else leaves the screen as it is.
pub fn scene_after(scene: Scene, message: &Message) -> (next: Scene)
    ensures
        next == (if *message is StartProgram {
            Scene::Recipe
        } else {
            scene
        }),
{
    match message {
        Message::StartProgram => Scene::Recipe,
        _ => scene,
    }
}

/// What a session talks to, by the network switch of the first screen.
pub fn target_for(is_network: bool) -> (target: Target)
    ensures
        target == (if is_network {
            Target::Network
        } else {
            Target::Local
        }),
{
    if is_network {
        Target::Network
    } else {
        Target::Local
    }
}

} // verus!
