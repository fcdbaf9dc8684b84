use bochumoxide::command::{
    available_in, available_ingredients, number_text, padding, parse_command, plan,
    read_hex_word, read_unsigned, run_regex, store_result, substitute, substitute_once, Action,
    CommandCategory, CommandType,
};
use bochumoxide::error::ErrorKind;
use bochumoxide::misc::cyclic::cyclic;
use bochumoxide::utils::{State, Target};

fn state() -> State {
    let mut state = State::new(Target::Local, "/bin/cat");
    state.registers.set("leak", b"addr=0x7ffe1000;".to_vec());
    state.registers.set("count", b"3".to_vec());
    state
}

fn done(action: Result<Action, ErrorKind>) -> Option<Vec<u8>> {
    match action {
        Ok(Action::Done(result)) => result,
        _ => panic!("the command should be done"),
    }
}

#[test]
fn templates_are_replaced_by_their_value() {
    let state = state();
    assert_eq!(substitute_once(b"no template", &state), Ok(None));
    assert_eq!(substitute_once(b"A{1 + 2}B", &state), Ok(Some(b"A3B".to_vec())));
    assert_eq!(substitute_once(b"{$count * 4}{2}", &state), Ok(Some(b"12{2}".to_vec())));
    assert_eq!(substitute_once(b"12{2}", &state), Ok(Some(b"122".to_vec())));
    assert_eq!(substitute_once(b"x{$leak}y", &state), Ok(Some(b"xaddr=0x7ffe1000;y".to_vec())));
    assert_eq!(substitute_once(b"{}", &state), Err(ErrorKind::SyntaxError));
    assert_eq!(substitute_once(b"{1 +}", &state), Err(ErrorKind::SyntaxError));
    assert_eq!(substitute_once(b"{$nope}", &state), Err(ErrorKind::InvalidRegister));
    assert_eq!(substitute_once(b"{1/0}", &state), Err(ErrorKind::ArithmeticError));
    assert_eq!(substitute_once(b"only { an opening brace", &state), Ok(None));
}

#[test]
fn numbers_are_read_with_their_limits() {
    assert_eq!(read_unsigned(b"4096", u64::MAX), Some(4096));
    assert_eq!(read_unsigned(b"+7", 7), Some(7));
    assert_eq!(read_unsigned(b"8", 7), None);
    assert_eq!(read_unsigned(b"-1", 7), None);
    assert_eq!(read_unsigned(b"", 7), None);
    assert_eq!(read_unsigned(b"+", 7), None);
    assert_eq!(read_hex_word(b"61616162"), Some(0x61616162));
    assert_eq!(read_hex_word(b"+FFffFFff"), Some(u32::MAX));
    assert_eq!(read_hex_word(b"100000000"), None);
    assert_eq!(read_hex_word(b"0000000000000001"), Some(1));
    assert_eq!(read_hex_word(b"0x10"), None);
    assert_eq!(read_hex_word(b""), None);
    assert_eq!(read_hex_word(b"+"), None);
    assert_eq!(read_hex_word(b"12g4"), None);
    assert_eq!(number_text(0), b"0");
    assert_eq!(number_text(18446744073709551615), b"18446744073709551615");
    assert_eq!(padding(0), b"");
    assert_eq!(padding(5), b"AAAAA");
}

#[test]
fn sending_commands_send_their_parameter() {
    let state = state();
    assert!(matches!(plan(CommandType::SendCmd, b"hi", &state), Ok(Action::Send(b)) if b == b"hi"));
    assert!(matches!(plan(CommandType::SendCmd, &[0xff], &state), Ok(Action::Send(b)) if b == [0xff]));
    assert!(matches!(plan(CommandType::SendLineCmd, b"hi", &state), Ok(Action::SendLine(b)) if b == b"hi"));
    assert!(matches!(plan(CommandType::SendPaddingCmd, b"4", &state), Ok(Action::Send(b)) if b == b"AAAA"));
    assert_eq!(plan(CommandType::SendPaddingCmd, b"four", &state).err(), Some(ErrorKind::InvalidNumber));
    assert_eq!(plan(CommandType::SendPaddingCmd, &[0xff], &state).err(), Some(ErrorKind::InvalidUtf8));
}

#[test]
fn receiving_commands_read_their_size() {
    let state = state();
    assert!(matches!(plan(CommandType::RecvCmd, b"", &state), Ok(Action::Recv(4096))));
    assert!(matches!(plan(CommandType::RecvCmd, b"100", &state), Ok(Action::Recv(100))));
    assert_eq!(plan(CommandType::RecvCmd, b"1e3", &state).err(), Some(ErrorKind::InvalidNumber));
    assert_eq!(
        plan(CommandType::RecvCmd, b"99999999999999999999999", &state).err(),
        Some(ErrorKind::InvalidNumber)
    );
    assert!(matches!(plan(CommandType::RecvUntil, b"> ", &state), Ok(Action::RecvUntil(b)) if b == b"> "));
    assert!(matches!(plan(CommandType::RecvLineCmd, b"ignored", &state), Ok(Action::RecvLine)));
}

#[test]
fn other_commands_hand_on_what_is_left_to_do() {
    let state = state();
    assert!(matches!(plan(CommandType::AttachDbg, b"", &state), Ok(Action::AttachDebugger)));
    assert!(matches!(plan(CommandType::LogRegCmd, b"", &state), Ok(Action::LogRegisters)));
    assert!(matches!(plan(CommandType::LogCmd, b"note", &state), Ok(Action::Log(b)) if b == b"note"));
    assert_eq!(plan(CommandType::LogCmd, &[0xc0], &state).err(), Some(ErrorKind::InvalidUtf8));
    assert!(matches!(
        plan(CommandType::GetSymAddrCmd, b"got.puts", &state),
        Ok(Action::ResolveSymbol(b)) if b == b"got.puts"
    ));
    assert!(matches!(
        plan(CommandType::Custom, b"leak_libc", &state),
        Ok(Action::RunCustom(b)) if b == b"leak_libc"
    ));
}

#[test]
fn addresses_are_packed_in_the_byte_order_of_the_machine() {
    let state = state();
    assert_eq!(
        done(plan(CommandType::StringToAddrCmd, b"4294967281", &state)),
        Some(4294967281u32.to_ne_bytes().to_vec())
    );
    assert_eq!(
        plan(CommandType::StringToAddrCmd, b"4294967296", &state).err(),
        Some(ErrorKind::InvalidNumber)
    );
    assert_eq!(
        plan(CommandType::StringToAddrCmd, b"0x10", &state).err(),
        Some(ErrorKind::InvalidNumber)
    );
}

#[test]
fn cyclic_commands_make_and_find_windows() {
    let state = state();
    assert_eq!(done(plan(CommandType::CyclicCmd, b"10", &state)), Some(b"aaaabaaaca".to_vec()));
    assert_eq!(done(plan(CommandType::CyclicCmd, b"256", &state)), Some(cyclic(256, 4).unwrap()));
    assert_eq!(plan(CommandType::CyclicCmd, b"257", &state).err(), Some(ErrorKind::InvalidNumber));
    // the window "baaa" as a number in the byte order of the machine
    let word = u32::from_ne_bytes(*b"baaa");
    let text = format!("{:x}", word);
    assert_eq!(done(plan(CommandType::CyclicFindCmd, text.as_bytes(), &state)), Some(b"4".to_vec()));
    let word = u32::from_ne_bytes(*b"daaa");
    let text = format!("{:X}", word);
    assert_eq!(done(plan(CommandType::CyclicFindCmd, text.as_bytes(), &state)), None);
    assert_eq!(
        plan(CommandType::CyclicFindCmd, b"41414141", &state).err(),
        Some(ErrorKind::InvalidNumber)
    );
    assert_eq!(
        plan(CommandType::CyclicFindCmd, b"zz", &state).err(),
        Some(ErrorKind::InvalidNumber)
    );
}

#[test]
fn regex_command_captures_the_first_group() {
    let state = state();
    assert_eq!(run_regex(b"leak@addr=(0x[0-9a-f]+);", &state.registers), Ok(b"0x7ffe1000".to_vec()));
    assert_eq!(
        done(plan(CommandType::RegexCmd, b"leak@=(.*);", &state)),
        Some(b"0x7ffe1000".to_vec())
    );
    assert_eq!(run_regex(b"leak@a(d+)r@?", &state.registers), Ok(b"dd".to_vec()));
    assert_eq!(run_regex(b"no at sign", &state.registers), Err(ErrorKind::MalformedCommand));
    assert_eq!(run_regex(b"missing@(.)", &state.registers), Err(ErrorKind::InvalidRegister));
    assert_eq!(run_regex(b"leak@(", &state.registers), Err(ErrorKind::InvalidPattern));
    assert_eq!(run_regex(b"leak@(zzz)", &state.registers), Err(ErrorKind::NothingCaptured));
    assert_eq!(run_regex(b"leak@addr", &state.registers), Err(ErrorKind::NoGroupCaptured));
    assert_eq!(run_regex(b"leak@addr|(zzz)", &state.registers), Err(ErrorKind::NoGroupCaptured));
    assert_eq!(run_regex(&[0xff, b'@', b'a'], &state.registers), Err(ErrorKind::InvalidUtf8));
    assert_eq!(ErrorKind::NothingCaptured.message(), "Could not capture anything.");
}

#[test]
fn results_go_to_the_register_that_a_step_names() {
    let mut state = state();
    store_result(&mut state, "out", Some(b"value".to_vec()));
    assert_eq!(state.registers.get("out"), Some(&b"value"[..]));
    store_result(&mut state, "", Some(b"dropped".to_vec()));
    assert!(!state.registers.contains(""));
    store_result(&mut state, "out", None);
    assert_eq!(state.registers.get("out"), Some(&b"value"[..]));
    store_result(&mut state, "leak", Some(vec![]));
    assert_eq!(state.registers.get("leak"), Some(&[][..]));
    assert_eq!(state.registers.available_registers(), vec!["leak", "count", "out"]);
    assert_eq!(state.program_path, "/bin/cat");
}

#[test]
fn commands_are_named_by_words() {
    assert_eq!(parse_command("send"), Ok(CommandType::SendCmd));
    assert_eq!(parse_command("sendln"), Ok(CommandType::SendLineCmd));
    assert_eq!(parse_command("recv"), Ok(CommandType::RecvCmd));
    assert_eq!(parse_command("recvuntil"), Ok(CommandType::RecvUntil));
    assert_eq!(parse_command("recvline"), Ok(CommandType::RecvLineCmd));
    assert_eq!(parse_command("sendpad"), Ok(CommandType::SendPaddingCmd));
    assert_eq!(parse_command("attach_debugger"), Ok(CommandType::AttachDbg));
    assert_eq!(parse_command("get_symbol_address"), Ok(CommandType::GetSymAddrCmd));
    assert_eq!(parse_command("log"), Ok(CommandType::LogCmd));
    assert_eq!(parse_command("regex"), Ok(CommandType::RegexCmd));
    assert_eq!(parse_command("logregs"), Ok(CommandType::LogRegCmd));
    assert_eq!(parse_command("string_to_address"), Ok(CommandType::StringToAddrCmd));
    assert_eq!(parse_command("cyclic"), Ok(CommandType::CyclicCmd));
    assert_eq!(parse_command("cyclicfind"), Ok(CommandType::CyclicFindCmd));
    for word in ["", "Send", "send ", "custom", "recv_until"] {
        assert_eq!(parse_command(word), Err(ErrorKind::UnknownCommand), "{:?}", word);
    }
    assert_eq!(ErrorKind::UnknownCommand.message(), "Can't parse command");
}

#[test]
fn commands_are_offered_by_category() {
    assert_eq!(available_ingredients().len(), 14);
    assert_eq!(
        available_in(CommandCategory::IO),
        vec![
            CommandType::SendCmd,
            CommandType::SendLineCmd,
            CommandType::RecvCmd,
            CommandType::RecvUntil,
            CommandType::RecvLineCmd,
            CommandType::SendPaddingCmd,
        ]
    );
    assert_eq!(
        available_in(CommandCategory::Binary),
        vec![CommandType::AttachDbg, CommandType::GetSymAddrCmd]
    );
    assert_eq!(available_in(CommandCategory::Misc).len(), 6);
    assert!(available_in(CommandCategory::Custom).is_empty());
}

#[test]
fn templates_are_replaced_until_none_is_left() {
    let mut state = state();
    state.registers.set("nested", b"{$count + 1}".to_vec());
    assert_eq!(substitute(b"plain", &state, 8), Ok(b"plain".to_vec()));
    assert_eq!(substitute(b"{1}{2}{3}", &state, usize::MAX), Ok(b"123".to_vec()));
    assert_eq!(substitute(b"<{$nested}>", &state, usize::MAX), Ok(b"<4>".to_vec()));
    // no more templates are replaced than rounds are given
    assert_eq!(substitute(b"{1}{2}{3}", &state, 2), Ok(b"12{3}".to_vec()));
    assert_eq!(substitute(b"{1}", &state, 0), Ok(b"{1}".to_vec()));
    assert_eq!(substitute(b"{1}{oops}", &state, 8), Err(ErrorKind::SyntaxError));
    // a register that holds its own template never runs dry
    state.registers.set("loop", b"{$loop}".to_vec());
    assert_eq!(substitute(b"{$loop}", &state, 1000), Ok(b"{$loop}".to_vec()));
}
