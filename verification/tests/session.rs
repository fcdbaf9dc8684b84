use bochumoxide::command::{CommandCategory, CommandType};
use bochumoxide::error::ErrorKind;
use bochumoxide::gui::{scene_after, target_for, Message, Scene};
use bochumoxide::program_io::{bytes_until, find_terminator};
use bochumoxide::recipe::{move_down, move_up, position, remove, Ingredient, IngredientStyle};
use bochumoxide::utils::{Registers, State, Target};

#[test]
fn registers_hold_named_bytes() {
    let mut regs = Registers::new();
    assert!(regs.available_registers().is_empty());
    assert!(!regs.contains("leak"));
    regs.set("leak", vec![1, 2, 3]);
    regs.set("base", vec![]);
    regs.set("leak", vec![4]);
    assert!(regs.contains("leak"));
    assert_eq!(regs.get("leak"), Some(&[4u8][..]));
    assert_eq!(regs.get("base"), Some(&[][..]));
    assert_eq!(regs.get("other"), None);
    assert_eq!(regs.available_registers(), vec!["leak", "base"]);
}

#[test]
fn state_starts_empty() {
    let state = State::new(Target::Local, "/bin/cat");
    assert_eq!(state.program_path, "/bin/cat");
    assert!(!state.do_exit);
    assert_eq!(state.output, "");
    assert!(state.registers.available_registers().is_empty());
    let state = State::new(Target::Network, "127.0.0.1:4000");
    assert_eq!(state.program_path, "No binary path in network mode");
}

#[test]
fn categories_have_titles() {
    assert_eq!(CommandCategory::IO.title(), "IO");
    assert_eq!(CommandCategory::Binary.title(), "Binary");
    assert_eq!(CommandCategory::Misc.title(), "Misc");
    assert_eq!(CommandCategory::Custom.title(), "Custom");
}

#[test]
fn command_kinds_know_their_place() {
    assert_eq!(CommandType::SendCmd.category(), CommandCategory::IO);
    assert_eq!(CommandType::AttachDbg.category(), CommandCategory::Binary);
    assert_eq!(CommandType::GetSymAddrCmd.category(), CommandCategory::Binary);
    assert_eq!(CommandType::CyclicFindCmd.category(), CommandCategory::Misc);
    assert_eq!(CommandType::Custom.category(), CommandCategory::Custom);
    assert!(CommandType::RecvCmd.has_input() && CommandType::RecvCmd.has_output());
    assert!(CommandType::SendCmd.has_input() && !CommandType::SendCmd.has_output());
    assert!(!CommandType::RecvLineCmd.has_input() && CommandType::RecvLineCmd.has_output());
    assert!(!CommandType::LogRegCmd.has_input() && !CommandType::LogRegCmd.has_output());
    assert!(!CommandType::Custom.has_input() && !CommandType::Custom.has_output());
    assert_eq!(CommandType::StringToAddrCmd.title(), "Pack Address");
    assert_eq!(CommandType::SendPaddingCmd.description(), "Sends x amount of A");
    assert_eq!(CommandType::Custom.description(), "");
}

#[test]
fn selected_steps_are_tinted() {
    assert_eq!(IngredientStyle::new().background(), (255, 255, 255));
    assert_eq!(IngredientStyle::selected(false).background(), (255, 255, 255));
    assert_eq!(IngredientStyle::selected(true).background(), (200, 200, 255));
    assert_eq!(IngredientStyle::new(), IngredientStyle::selected(false));
}

#[test]
fn terminator_is_found_at_its_first_occurrence() {
    assert_eq!(find_terminator(b"ABCDEFGHIJKLMNOP", b"FGH"), Some(5));
    assert_eq!(bytes_until(b"ABCDEFGHIJKLMNOP", b"FGH"), Some(8));
    assert_eq!(bytes_until(b"Test_Str_123?\nTest_Str_456?\n", b"\n"), Some(14));
    assert_eq!(bytes_until(b"no end of line", b"\n"), None);
    assert_eq!(bytes_until(b"", b"\n"), None);
    assert_eq!(bytes_until(b"ab", b"abc"), None);
    assert_eq!(find_terminator(b"aaab", b"ab"), Some(2));
}

#[test]
fn recipe_steps_move_by_their_id() {
    let ids = [7usize, 3, 9, 3];
    assert_eq!(position(&ids, 3), Some(1));
    assert_eq!(position(&ids, 4), None);
    assert_eq!(move_up(&ids, 9), Some((2, 1)));
    assert_eq!(move_up(&ids, 7), Some((0, 0)));
    assert_eq!(move_up(&ids, 4), None);
    assert_eq!(move_down(&ids, 7), Some((0, 1)));
    assert_eq!(move_down(&ids, 3), Some((1, 2)));
    assert_eq!(move_down(&[1usize, 2], 2), None);
    assert_eq!(move_down(&ids, 4), None);
    let recipe: Vec<Ingredient> = ids
        .iter()
        .map(|&id| Ingredient::new(CommandType::SendCmd, id))
        .collect();
    let kept: Vec<usize> = remove(recipe, 3).iter().map(|step| step.id).collect();
    assert_eq!(kept, vec![7, 9]);
}

#[test]
fn recipe_steps_start_empty_and_take_their_texts() {
    let mut step = Ingredient::new(CommandType::RecvUntil, 12);
    assert_eq!(step.id, 12);
    assert_eq!(step.title, "Receive Until");
    assert_eq!(step.description, "Receive data from the process until a certain sequence is found.");
    assert_eq!(step.category, CommandCategory::IO);
    assert!(step.has_input && step.has_output);
    assert!(!step.selected && !step.show_output_text);
    assert_eq!((step.input.as_str(), step.output.as_str()), ("", ""));
    step.set_input("> ".to_string());
    step.set_output("banner".to_string());
    step.toggle_selected();
    step.toggle_output_type();
    assert_eq!((step.input.as_str(), step.output.as_str()), ("> ", "banner"));
    assert!(step.selected && step.show_output_text);
    step.set_selected(false);
    step.toggle_output_type();
    assert!(!step.selected && !step.show_output_text);
    assert_eq!(step.id, 12);
}

#[test]
fn starting_the_program_shows_the_recipe() {
    assert_eq!(scene_after(Scene::ChooseProgram, &Message::StartProgram), Scene::Recipe);
    assert_eq!(scene_after(Scene::Recipe, &Message::StartProgram), Scene::Recipe);
    assert_eq!(scene_after(Scene::ChooseProgram, &Message::RunAll), Scene::ChooseProgram);
    assert_eq!(
        scene_after(Scene::ChooseProgram, &Message::ProgramNameChanged("cat".to_string())),
        Scene::ChooseProgram
    );
    assert_eq!(target_for(true), Target::Network);
    assert_eq!(target_for(false), Target::Local);
}

#[test]
fn failures_of_the_loader_have_their_words() {
    assert_eq!(ErrorKind::PathLookupFailed.message(), "Path lookup failed");
    assert_eq!(ErrorKind::IoError.message(), "Failed to read the file");
    assert_eq!(ErrorKind::UnsupportedFormat.message(), "Illegal binary type");
    assert_eq!(ErrorKind::MissingDtPltGot.message(), "Failed to get DT_PLTGOT information");
    assert_eq!(ErrorKind::EmulatorSetupFailed.message(), "Failed to set up the emulator");
    assert_ne!(ErrorKind::MalformedElf, ErrorKind::MalformedPe);
}
