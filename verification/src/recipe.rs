//! How the steps of a recipe are shown.

use crate::command::{CommandCategory, CommandType};
use vstd::prelude::*;

verus! {

/// The look of a step: whether it is drawn as selected.
#[derive(Clone, Copy, Debug, PartialEq, Eq, Structural)]
pub struct IngredientStyle {
    selected: bool,
}

impl IngredientStyle {
    /// Whether the step is drawn as selected.
    pub closed spec fn is_selected(&self) -> bool {
        self.selected
    }

    /// The look of a step that is not selected.
    pub fn new() -> (style: IngredientStyle)
        ensures
            !style.is_selected(),
    {
        IngredientStyle { selected: false }
    }

    /// The look of a step that is selected, or is not.
    pub fn selected(selected: bool) -> (style: IngredientStyle)
        ensures
            style.is_selected() == selected,
    {
        IngredientStyle { selected }
    }

    /// The background colour of the step, as red, green and blue: a light
    /// blue where it is selected, white where it is not.
    pub fn background(&self) -> (rgb: (u8, u8, u8))
        ensures
            rgb == (if self.is_selected() {
                (200u8, 200u8, 255u8)
            } else {
                (255u8, 255u8, 255u8)
            }),
    {
        if self.selected {
            (200, 200, 255)
        } else {
            (255, 255, 255)
        }
    }
}

/// A step of a recipe: a command with its parameter and the register that
/// takes its result.
#[derive(Clone, Debug)]
pub struct Ingredient {
    pub title: String,
    pub description: String,
    pub id: usize,
    pub cmd_type: CommandType,
    /// The register that takes the result; none where it is empty.
    pub output: String,
    /// The parameter of the command.
    pub input: String,
    pub selected: bool,
    /// Whether the output register is typed in rather than picked.
    pub show_output_text: bool,
    pub has_input: bool,
    pub has_output: bool,
    pub category: CommandCategory,
}

impl Ingredient {
    /// A step of the given kind, with nothing filled in.
    pub fn new(cmd_type: CommandType, id: usize) -> (step: Ingredient)
        ensures
            step.id == id,
            step.cmd_type == cmd_type,
            step.title@ == cmd_type.title_of(),
            step.description@ == cmd_type.description_of(),
            step.input@ == Seq::<char>::empty(),
            step.output@ == Seq::<char>::empty(),
            !step.selected,
            !step.show_output_text,
            step.has_input == cmd_type.takes_input(),
            step.has_output == cmd_type.gives_output(),
            step.category == cmd_type.category_of(),
    {
        Ingredient {
            title: cmd_type.title().to_owned(),
            description: cmd_type.description().to_owned(),
            id,
            cmd_type,
            input: String::new(),
            output: String::new(),
            selected: false,
            show_output_text: false,
            has_input: cmd_type.has_input(),
            has_output: cmd_type.has_output(),
            category: cmd_type.category(),
        }
    }

    /// Names the register that takes the result.
    pub fn set_output(&mut self, output: String)
        ensures
            final(self).output == output,
            final(self).same_but_output(*old(self)),
    {
        self.output = output;
    }

    /// Sets the parameter.
    pub fn set_input(&mut self, input: String)
        ensures
            final(self).input == input,
            final(self).output == old(self).output,
            final(self).selected == old(self).selected,
            final(self).show_output_text == old(self).show_output_text,
            final(self).same_command(*old(self)),
    {
        self.input = input;
    }

    /// Selects the step, or not.
    pub fn set_selected(&mut self, selected: bool)
        ensures
            final(self).selected == selected,
            final(self).input == old(self).input,
            final(self).output == old(self).output,
            final(self).show_output_text == old(self).show_output_text,
            final(self).same_command(*old(self)),
    {
        self.selected = selected;
    }

    /// Selects the step where it is not selected, and the other way round.
    pub fn toggle_selected(&mut self)
        ensures
            final(self).selected == !old(self).selected,
            final(self).input == old(self).input,
            final(self).output == old(self).output,
            final(self).show_output_text == old(self).show_output_text,
            final(self).same_command(*old(self)),
    {
        self.selected = !self.selected;
    }

    /// Switches between typing the output register in and picking it.
    pub fn toggle_output_type(&mut self)
        ensures
            final(self).show_output_text == !old(self).show_output_text,
            final(self).input == old(self).input,
            final(self).output == old(self).output,
            final(self).selected == old(self).selected,
            final(self).same_command(*old(self)),
    {
        self.show_output_text = !self.show_output_text;
    }

    /// The two steps are of the same command: same id, kind and texts.
    pub open spec fn same_command(&self, other: Ingredient) -> bool {
        &&& self.id == other.id
        &&& self.cmd_type == other.cmd_type
        &&& self.title == other.title
        &&& self.description == other.description
        &&& self.has_input == other.has_input
        &&& self.has_output == other.has_output
        &&& self.category == other.category
    }

    /// The two steps differ in their output register at most.
    pub open spec fn same_but_output(&self, other: Ingredient) -> bool {
        &&& self.same_command(other)
        &&& self.input == other.input
        &&& self.selected == other.selected
        &&& self.show_output_text == other.show_output_text
    }
}

/// The place of the first step with the given id.
pub open spec fn first_with_id(ids: Seq<usize>, id: usize, found: Option<usize>) -> bool {
    match found {
        Some(pos) => pos < ids.len() && ids[pos as int] == id && forall|i: int|
            0 <= i < pos ==> ids[i] != id,
        None => forall|i: int| 0 <= i < ids.len() ==> ids[i] != id,
    }
}

/// Finds the first step with the given id.
pub fn position(ids: &[usize], id: usize) -> (found: Option<usize>)
    ensures
        first_with_id(ids@, id, found),
{
    let mut i: usize = 0;
    while i < ids.len()
        invariant
            i <= ids@.len(),
            forall|j: int| 0 <= j < i ==> ids@[j] != id,
        decreases ids@.len() - i,
    {
        if ids[i] == id {
            return Some(i);
        }
        i += 1;
    }
    None
}

/// The two places to swap so that the step with the given id moves up by
/// one.  The first step stays where it is.
pub fn move_up(ids: &[usize], id: usize) -> (swap: Option<(usize, usize)>)
    ensures
        match swap {
            Some((from, to)) => first_with_id(ids@, id, Some(from)) && to == (if from == 0 {
                0
            } else {
                from - 1
            }),
            None => first_with_id(ids@, id, None),
        },
{
    match position(ids, id) {
        Some(pos) => Some(
            (
                pos,
                if pos == 0 {
                    0
                } else {
                    pos - 1
                },
            ),
        ),
        None => None,
    }
}

/// The two places to swap so that the step with the given id moves down by
/// one; none where it is the last step or there is no such step.
pub fn move_down(ids: &[usize], id: usize) -> (swap: Option<(usize, usize)>)
    ensures
        match swap {
            Some((from, to)) => first_with_id(ids@, id, Some(from)) && to == from + 1 && to
                < ids@.len(),
            None => first_with_id(ids@, id, None) || exists|pos: usize|
                first_with_id(ids@, id, Some(pos)) && pos + 1 == ids@.len(),
        },
{
    match position(ids, id) {
        Some(pos) => if ids.len() != pos + 1 {
            Some((pos, pos + 1))
        } else {
            None
        },
        None => None,
    }
}

/// The steps that stay when those with the given id are removed.
pub open spec fn without_id(recipe: Seq<Ingredient>, id: usize) -> Seq<Ingredient>
    decreases recipe.len(),
{
    if recipe.len() == 0 {
        Seq::empty()
    } else if recipe.last().id == id {
        without_id(recipe.drop_last(), id)
    } else {
        without_id(recipe.drop_last(), id).push(recipe.last())
    }
}

/// Removes every step with the given id.
pub fn remove(recipe: Vec<Ingredient>, id: usize) -> (kept: Vec<Ingredient>)
    ensures
        kept@ == without_id(recipe@, id),
{
    let ghost all = recipe@;
    let mut kept: Vec<Ingredient> = Vec::new();
    for step in steps: recipe
        invariant
            steps.seq() == all,
            kept@ == without_id(all.take(steps.index() as int), id),
    {
        proof {
            assert(all.take(steps.index() + 1).drop_last() =~= all.take(steps.index() as int));
        }
        if step.id != id {
            kept.push(step);
        }
    }
    proof {
        assert(all.take(all.len() as int) =~= all);
    }
    kept
}

} // verus!
