//! The commands that a recipe is made of: their kinds, and what is known of
//! each kind before it runs.

use crate::error::ErrorKind;
use crate::lang::ast::{
    digits_value, eval, hex_number, in_class, parse_script, read_digits, value_bytes, Ast,
    ByteClass,
};
use crate::misc::cyclic::{
    cyclic, cyclic_find, cyclic_pattern, first_window, in_pattern_alphabet, power,
};
use crate::misc::packing::{packed, Endian};
use crate::text::{decimal_bytes, push_decimal_bytes, utf8_text};
use crate::utils::{Registers, State};
use regex::bytes::Regex;
use vstd::prelude::*;
use vstd::string::StrSliceExecFns;
use vstd::string::StringSliceAdditionalSpecFns;
use vstd::utf8::{decode_utf8, valid_utf8};

verus! {

/// The group that a command is listed under.
#[derive(Clone, Copy, Debug, PartialEq, Eq, Structural)]
pub enum CommandCategory {
    IO,
    Binary,
    Misc,
    Custom,
}

impl CommandCategory {
    /// The heading of the group.
    pub fn title(self) -> (text: String)
        ensures
            text@ == match self {
                CommandCategory::IO => "IO"@,
                CommandCategory::Binary => "Binary"@,
                CommandCategory::Misc => "Misc"@,
                CommandCategory::Custom => "Custom"@,
            },
    {
        match self {
            CommandCategory::IO => "IO".to_owned(),
            CommandCategory::Binary => "Binary".to_owned(),
            CommandCategory::Misc => "Misc".to_owned(),
            CommandCategory::Custom => "Custom".to_owned(),
        }
    }
}

/// The kinds of command.
#[derive(Clone, Copy, Debug, PartialEq, Eq, Structural)]
pub enum CommandType {
    SendCmd,
    SendLineCmd,
    RecvCmd,
    RecvUntil,
    RecvLineCmd,
    SendPaddingCmd,
    AttachDbg,
    GetSymAddrCmd,
    LogCmd,
    RegexCmd,
    LogRegCmd,
    StringToAddrCmd,
    CyclicCmd,
    CyclicFindCmd,
    Custom,
}

impl CommandType {
    /// The group that commands of this kind are listed under.
    pub open spec fn category_of(self) -> CommandCategory {
        match self {
            CommandType::SendCmd => CommandCategory::IO,
            CommandType::SendLineCmd => CommandCategory::IO,
            CommandType::RecvCmd => CommandCategory::IO,
            CommandType::RecvUntil => CommandCategory::IO,
            CommandType::RecvLineCmd => CommandCategory::IO,
            CommandType::SendPaddingCmd => CommandCategory::IO,
            CommandType::AttachDbg => CommandCategory::Binary,
            CommandType::GetSymAddrCmd => CommandCategory::Binary,
            CommandType::LogCmd => CommandCategory::Misc,
            CommandType::RegexCmd => CommandCategory::Misc,
            CommandType::LogRegCmd => CommandCategory::Misc,
            CommandType::StringToAddrCmd => CommandCategory::Misc,
            CommandType::CyclicCmd => CommandCategory::Misc,
            CommandType::CyclicFindCmd => CommandCategory::Misc,
            CommandType::Custom => CommandCategory::Custom,
        }
    }

    /// The group that commands of this kind are listed under.
    pub fn category(self) -> (category: CommandCategory)
        ensures
            category == self.category_of(),
    {
        match self {
            CommandType::SendCmd
            | CommandType::SendLineCmd
            | CommandType::RecvCmd
            | CommandType::RecvUntil
            | CommandType::RecvLineCmd
            | CommandType::SendPaddingCmd => CommandCategory::IO,
            CommandType::AttachDbg | CommandType::GetSymAddrCmd => CommandCategory::Binary,
            CommandType::LogCmd
            | CommandType::RegexCmd
            | CommandType::LogRegCmd
            | CommandType::StringToAddrCmd
            | CommandType::CyclicCmd
            | CommandType::CyclicFindCmd => CommandCategory::Misc,
            CommandType::Custom => CommandCategory::Custom,
        }
    }

    /// Whether commands of this kind take a parameter.
    pub open spec fn takes_input(self) -> bool {
        !(self == CommandType::RecvLineCmd || self == CommandType::AttachDbg || self
            == CommandType::LogRegCmd || self == CommandType::Custom)
    }

    /// Whether commands of this kind take a parameter.
    pub fn has_input(self) -> (input: bool)
        ensures
            input == self.takes_input(),
    {
        match self {
            CommandType::RecvLineCmd
            | CommandType::AttachDbg
            | CommandType::LogRegCmd
            | CommandType::Custom => false,
            _ => true,
        }
    }

    /// Whether commands of this kind give a result that a register can take.
    pub open spec fn gives_output(self) -> bool {
        !(self == CommandType::SendCmd || self == CommandType::SendLineCmd || self
            == CommandType::SendPaddingCmd || self == CommandType::AttachDbg || self
            == CommandType::LogRegCmd || self == CommandType::Custom)
    }

    /// Whether commands of this kind give a result that a register can take.
    pub fn has_output(self) -> (output: bool)
        ensures
            output == self.gives_output(),
    {
        match self {
            CommandType::SendCmd
            | CommandType::SendLineCmd
            | CommandType::SendPaddingCmd
            | CommandType::AttachDbg
            | CommandType::LogRegCmd
            | CommandType::Custom => false,
            _ => true,
        }
    }

    /// The name of the kind, as shown in a recipe.
    pub open spec fn title_of(self) -> Seq<char> {
        match self {
            CommandType::SendCmd => "Send"@,
            CommandType::SendLineCmd => "Send Line"@,
            CommandType::RecvCmd => "Receive"@,
            CommandType::RecvUntil => "Receive Until"@,
            CommandType::RecvLineCmd => "Receive Line"@,
            CommandType::SendPaddingCmd => "Send Padding"@,
            CommandType::AttachDbg => "Attach Debugger"@,
            CommandType::GetSymAddrCmd => "Get Symbol Address"@,
            CommandType::LogCmd => "Log"@,
            CommandType::RegexCmd => "Regex"@,
            CommandType::LogRegCmd => "Log Registers"@,
            CommandType::StringToAddrCmd => "Pack Address"@,
            CommandType::CyclicCmd => "Generate Cyclic Sequence"@,
            CommandType::CyclicFindCmd => "Find Cyclic Substring"@,
            CommandType::Custom => "Custom"@,
        }
    }

    /// The name of the kind, as shown in a recipe.
    pub fn title(self) -> (text: &'static str)
        ensures
            text@ == self.title_of(),
    {
        match self {
            CommandType::SendCmd => "Send",
            CommandType::SendLineCmd => "Send Line",
            CommandType::RecvCmd => "Receive",
            CommandType::RecvUntil => "Receive Until",
            CommandType::RecvLineCmd => "Receive Line",
            CommandType::SendPaddingCmd => "Send Padding",
            CommandType::AttachDbg => "Attach Debugger",
            CommandType::GetSymAddrCmd => "Get Symbol Address",
            CommandType::LogCmd => "Log",
            CommandType::RegexCmd => "Regex",
            CommandType::LogRegCmd => "Log Registers",
            CommandType::StringToAddrCmd => "Pack Address",
            CommandType::CyclicCmd => "Generate Cyclic Sequence",
            CommandType::CyclicFindCmd => "Find Cyclic Substring",
            CommandType::Custom => "Custom",
        }
    }

    /// What commands of this kind do.
    pub open spec fn description_of(self) -> Seq<char> {
        match self {
            CommandType::SendCmd => "Sends data to the process."@,
            CommandType::SendLineCmd => "Sends data with an appended Newline to the process."@,
            CommandType::RecvCmd => "Receive data from the process."@,
            CommandType::RecvUntil => "Receive data from the process until a certain sequence is found."@,
            CommandType::RecvLineCmd => "Receives a single line from the process."@,
            CommandType::SendPaddingCmd => "Sends x amount of A"@,
            CommandType::AttachDbg => "Attaches a debugger to the running process."@,
            CommandType::GetSymAddrCmd => "Gets address of a symbol"@,
            CommandType::LogCmd => "Logs a message"@,
            CommandType::RegexCmd => "Parse register content using regex. Syntax: register@regex"@,
            CommandType::LogRegCmd => "Logs all available registers"@,
            CommandType::StringToAddrCmd => "Packs address into bytestring"@,
            CommandType::CyclicCmd => "Generate cyclic sequence with substring size 4 and given length"@,
            CommandType::CyclicFindCmd => "Calculates the position of a substring"@,
            CommandType::Custom => ""@,
        }
    }

    /// What commands of this kind do.
    pub fn description(self) -> (text: &'static str)
        ensures
            text@ == self.description_of(),
    {
        match self {
            CommandType::SendCmd => "Sends data to the process.",
            CommandType::SendLineCmd => "Sends data with an appended Newline to the process.",
            CommandType::RecvCmd => "Receive data from the process.",
            CommandType::RecvUntil => "Receive data from the process until a certain sequence is found.",
            CommandType::RecvLineCmd => "Receives a single line from the process.",
            CommandType::SendPaddingCmd => "Sends x amount of A",
            CommandType::AttachDbg => "Attaches a debugger to the running process.",
            CommandType::GetSymAddrCmd => "Gets address of a symbol",
            CommandType::LogCmd => "Logs a message",
            CommandType::RegexCmd => "Parse register content using regex. Syntax: register@regex",
            CommandType::LogRegCmd => "Logs all available registers",
            CommandType::StringToAddrCmd => "Packs address into bytestring",
            CommandType::CyclicCmd => "Generate cyclic sequence with substring size 4 and given length",
            CommandType::CyclicFindCmd => "Calculates the position of a substring",
            CommandType::Custom => "",
        }
    }
}

/// The kind of command that a word names, if it names one.
pub open spec fn command_named(word: Seq<char>) -> Option<CommandType> {
    if word == "send"@ {
        Some(CommandType::SendCmd)
    } else if word == "sendln"@ {
        Some(CommandType::SendLineCmd)
    } else if word == "recv"@ {
        Some(CommandType::RecvCmd)
    } else if word == "recvuntil"@ {
        Some(CommandType::RecvUntil)
    } else if word == "recvline"@ {
        Some(CommandType::RecvLineCmd)
    } else if word == "sendpad"@ {
        Some(CommandType::SendPaddingCmd)
    } else if word == "attach_debugger"@ {
        Some(CommandType::AttachDbg)
    } else if word == "get_symbol_address"@ {
        Some(CommandType::GetSymAddrCmd)
    } else if word == "log"@ {
        Some(CommandType::LogCmd)
    } else if word == "regex"@ {
        Some(CommandType::RegexCmd)
    } else if word == "logregs"@ {
        Some(CommandType::LogRegCmd)
    } else if word == "string_to_address"@ {
        Some(CommandType::StringToAddrCmd)
    } else if word == "cyclic"@ {
        Some(CommandType::CyclicCmd)
    } else if word == "cyclicfind"@ {
        Some(CommandType::CyclicFindCmd)
    } else {
        None
    }
}

fn same_text(a: &String, b: &str) -> (same: bool)
    ensures
        same == (a@ == b@),
{
    let other = b.to_owned();
    *a == other
}

/// The kind of command that a word names.
pub fn parse_command(cmd_str: &str) -> (kind: Result<CommandType, ErrorKind>)
    ensures
        kind == match command_named(cmd_str@) {
            Some(k) => Ok::<CommandType, ErrorKind>(k),
            None => Err(ErrorKind::UnknownCommand),
        },
{
    let word = cmd_str.to_owned();
    if same_text(&word, "send") {
        Ok(CommandType::SendCmd)
    } else if same_text(&word, "sendln") {
        Ok(CommandType::SendLineCmd)
    } else if same_text(&word, "recv") {
        Ok(CommandType::RecvCmd)
    } else if same_text(&word, "recvuntil") {
        Ok(CommandType::RecvUntil)
    } else if same_text(&word, "recvline") {
        Ok(CommandType::RecvLineCmd)
    } else if same_text(&word, "sendpad") {
        Ok(CommandType::SendPaddingCmd)
    } else if same_text(&word, "attach_debugger") {
        Ok(CommandType::AttachDbg)
    } else if same_text(&word, "get_symbol_address") {
        Ok(CommandType::GetSymAddrCmd)
    } else if same_text(&word, "log") {
        Ok(CommandType::LogCmd)
    } else if same_text(&word, "regex") {
        Ok(CommandType::RegexCmd)
    } else if same_text(&word, "logregs") {
        Ok(CommandType::LogRegCmd)
    } else if same_text(&word, "string_to_address") {
        Ok(CommandType::StringToAddrCmd)
    } else if same_text(&word, "cyclic") {
        Ok(CommandType::CyclicCmd)
    } else if same_text(&word, "cyclicfind") {
        Ok(CommandType::CyclicFindCmd)
    } else {
        Err(ErrorKind::UnknownCommand)
    }
}

/// The kinds of command that a recipe is put together from, in the order in
/// which they are offered.
pub open spec fn offered() -> Seq<CommandType> {
    seq![
        CommandType::SendCmd,
        CommandType::SendLineCmd,
        CommandType::RecvCmd,
        CommandType::RecvUntil,
        CommandType::RecvLineCmd,
        CommandType::SendPaddingCmd,
        CommandType::AttachDbg,
        CommandType::GetSymAddrCmd,
        CommandType::LogCmd,
        CommandType::RegexCmd,
        CommandType::LogRegCmd,
        CommandType::StringToAddrCmd,
        CommandType::CyclicCmd,
        CommandType::CyclicFindCmd,
    ]
}

/// The kinds of command on offer.
pub fn available_ingredients() -> (kinds: Vec<CommandType>)
    ensures
        kinds@ == offered(),
{
    let mut kinds: Vec<CommandType> = Vec::new();
    kinds.push(CommandType::SendCmd);
    kinds.push(CommandType::SendLineCmd);
    kinds.push(CommandType::RecvCmd);
    kinds.push(CommandType::RecvUntil);
    kinds.push(CommandType::RecvLineCmd);
    kinds.push(CommandType::SendPaddingCmd);
    kinds.push(CommandType::AttachDbg);
    kinds.push(CommandType::GetSymAddrCmd);
    kinds.push(CommandType::LogCmd);
    kinds.push(CommandType::RegexCmd);
    kinds.push(CommandType::LogRegCmd);
    kinds.push(CommandType::StringToAddrCmd);
    kinds.push(CommandType::CyclicCmd);
    kinds.push(CommandType::CyclicFindCmd);
    kinds
}

/// The kinds on offer that belong to a category, in the order of the offer.
pub open spec fn offered_in(category: CommandCategory, upto: int) -> Seq<CommandType>
    decreases upto,
{
    if upto <= 0 {
        Seq::empty()
    } else if offered()[upto - 1].category_of() == category {
        offered_in(category, upto - 1).push(offered()[upto - 1])
    } else {
        offered_in(category, upto - 1)
    }
}

/// The kinds of command on offer in a category.
pub fn available_in(category: CommandCategory) -> (kinds: Vec<CommandType>)
    ensures
        kinds@ == offered_in(category, offered().len() as int),
{
    let all = available_ingredients();
    let mut kinds: Vec<CommandType> = Vec::new();
    let mut i: usize = 0;
    while i < all.len()
        invariant
            i <= all.len(),
            all@ == offered(),
            kinds@ == offered_in(category, i as int),
        decreases all.len() - i,
    {
        if all[i].category() == category {
            kinds.push(all[i]);
        }
        i += 1;
    }
    kinds
}

/// Where `regex::bytes::Regex::find` finds the leftmost match of a pattern
/// in a message: its start and its end.  `None` where the pattern does not
/// compile or matches nowhere.
pub uninterp spec fn regex_span(pattern: Seq<char>, msg: Seq<u8>) -> Option<(usize, usize)>;

/// Compiles `pattern` with `regex::bytes::Regex::new` and calls `Regex::find`
/// on the message.  The contract names the span found.
#[verifier::external_body]
fn find_span(pattern: &str, msg: &[u8]) -> (span: Option<(usize, usize)>)
    ensures
        span == regex_span(pattern@, msg@),
{
    let re = Regex::new(pattern).ok()?;
    re.find(msg).map(|found| (found.start(), found.end()))
}

/// The pattern of a template: an expression between braces, as short as can be.
pub open spec fn template_pattern() -> Seq<char> {
    "\\{(.*?)\\}"@
}

/// The first template `{...}` of a message: the span that the template
/// pattern matches first, where it lies within the message and has a brace at
/// either end.
pub open spec fn template_at(msg: Seq<u8>) -> Option<(usize, usize)> {
    match regex_span(template_pattern(), msg) {
        Some((start, end)) => if start + 2 <= end <= msg.len() && msg[start as int] == 123
            && msg[end - 1] == 125 {
            Some((start, end))
        } else {
            None
        },
        None => None,
    }
}

/// Finds the first template of a message.
fn find_template(msg: &[u8]) -> (span: Option<(usize, usize)>)
    ensures
        span == template_at(msg@),
        match span {
            Some((start, end)) => start + 2 <= end <= msg@.len() && msg@[start as int] == 123
                && msg@[end - 1] == 125,
            None => true,
        },
{
    match find_span("\\{(.*?)\\}", msg) {
        Some((start, end)) => {
            if end <= msg.len() && start <= end && end - start >= 2 && msg[start] == 123 && msg[end
                - 1] == 125 {
                Some((start, end))
            } else {
                None
            }
        },
        None => None,
    }
}

/// What a regular expression captures in a text.
pub enum Capture {
    /// The expression does not compile.
    BadPattern,
    /// The expression matches nowhere.
    NoMatch,
    /// The expression matches, but its first group took no part.
    NoGroup,
    /// What the first group matched.
    Group(Vec<u8>),
}

/// The model of a [`Capture`].
pub enum CaptureView {
    BadPattern,
    NoMatch,
    NoGroup,
    Group(Seq<u8>),
}

impl View for Capture {
    type V = CaptureView;

    open spec fn view(&self) -> CaptureView {
        match self {
            Capture::BadPattern => CaptureView::BadPattern,
            Capture::NoMatch => CaptureView::NoMatch,
            Capture::NoGroup => CaptureView::NoGroup,
            Capture::Group(b) => CaptureView::Group(b@),
        }
    }
}

/// What `regex::bytes::Regex::captures` gives for the first group of a
/// pattern in a text.
pub uninterp spec fn first_group(pattern: Seq<char>, content: Seq<u8>) -> CaptureView;

/// Compiles `pattern` with `regex::bytes::Regex::new`, calls
/// `Regex::captures` on `content` and takes group 1.  The contract names the
/// outcome.
#[verifier::external_body]
fn capture(pattern: &str, content: &[u8]) -> (captured: Capture)
    ensures
        captured@ == first_group(pattern@, content@),
{
    let re = match Regex::new(pattern) {
        Ok(re) => re,
        Err(_) => return Capture::BadPattern,
    };
    match re.captures(content) {
        None => Capture::NoMatch,
        Some(groups) => match groups.get(1) {
            None => Capture::NoGroup,
            Some(group) => Capture::Group(group.as_bytes().to_vec()),
        },
    }
}

/// Calls `u32::to_ne_bytes`, which gives the bytes of the number in the byte
/// order of the machine: one of the two orders.
#[verifier::external_body]
fn native_bytes(v: u32) -> (bytes: [u8; 4])
    ensures
        bytes@ == packed(v as nat, 4, Endian::Little) || bytes@ == packed(v as nat, 4, Endian::Big),
{
    v.to_ne_bytes()
}

/// The message after its first template is replaced by the value of the
/// expression in it.
pub open spec fn substituted(msg: Seq<u8>, registers: Map<Seq<char>, Seq<u8>>) -> Result<
    Option<Seq<u8>>,
    ErrorKind,
> {
    match template_at(msg) {
        None => Ok(None),
        Some((start, end)) => {
            let script = msg.subrange(start + 1, end - 1);
            if !valid_utf8(script) {
                Err(ErrorKind::InvalidUtf8)
            } else {
                match parse_script(script) {
                    Err(e) => Err(e),
                    Ok(root) => match eval(root, registers) {
                        Err(e) => Err(e),
                        Ok(value) => Ok(
                            Some(
                                msg.subrange(0, start as int) + value_bytes(value) + msg.subrange(
                                    end as int,
                                    msg.len() as int,
                                ),
                            ),
                        ),
                    },
                }
            }
        },
    }
}

/// Replaces the first template `{expression}` of a message by the value of
/// the expression over the registers.  `None` where the message holds no
/// template.
pub fn substitute_once(msg: &[u8], state: &State) -> (replaced: Result<Option<Vec<u8>>, ErrorKind>)
    requires
        state.registers.wf(),
    ensures
        match replaced {
            Ok(Some(m)) => substituted(msg@, state.registers@) == Ok::<
                Option<Seq<u8>>,
                ErrorKind,
            >(Some(m@)),
            Ok(None) => substituted(msg@, state.registers@) == Ok::<Option<Seq<u8>>, ErrorKind>(
                None,
            ),
            Err(e) => substituted(msg@, state.registers@) == Err::<Option<Seq<u8>>, ErrorKind>(e),
        },
{
    broadcast use vstd::utf8::group_utf8_lib;

    let (start, end) = match find_template(msg) {
        None => {
            return Ok(None);
        },
        Some(span) => span,
    };
    let script = vstd::slice::slice_subrange(msg, start + 1, end - 1);
    let text = match utf8_text(script) {
        None => {
            return Err(ErrorKind::InvalidUtf8);
        },
        Some(text) => text,
    };
    let ast = match Ast::new(text) {
        Err(e) => {
            return Err(e);
        },
        Ok(ast) => ast,
    };
    let value = match ast.get_result(state) {
        Err(e) => {
            return Err(e);
        },
        Ok(value) => value,
    };
    let mut replaced: Vec<u8> = Vec::new();
    replaced.extend_from_slice(vstd::slice::slice_subrange(msg, 0, start));
    replaced.extend_from_slice(value.as_slice());
    replaced.extend_from_slice(vstd::slice::slice_subrange(msg, end, msg.len()));
    assert(replaced@ =~= msg@.subrange(0, start as int) + value@ + msg@.subrange(
        end as int,
        msg@.len() as int,
    ));
    Ok(Some(replaced))
}

/// The message after its templates are replaced one after the other, the
/// first one first, until none is left or `rounds` of them are replaced.
pub open spec fn substituted_all(
    msg: Seq<u8>,
    registers: Map<Seq<char>, Seq<u8>>,
    rounds: nat,
) -> Result<Seq<u8>, ErrorKind>
    decreases rounds,
{
    if rounds == 0 {
        Ok(msg)
    } else {
        match substituted(msg, registers) {
            Err(e) => Err(e),
            Ok(None) => Ok(msg),
            Ok(Some(next)) => substituted_all(next, registers, (rounds - 1) as nat),
        }
    }
}

/// Replaces the templates of a message by their values, the first one first,
/// until none is left.  A value may bring a template of its own, so at most
/// `rounds` templates are replaced.
pub fn substitute(msg: &[u8], state: &State, rounds: usize) -> (replaced: Result<
    Vec<u8>,
    ErrorKind,
>)
    requires
        state.registers.wf(),
    ensures
        match replaced {
            Ok(m) => substituted_all(msg@, state.registers@, rounds as nat) == Ok::<
                Seq<u8>,
                ErrorKind,
            >(m@),
            Err(e) => substituted_all(msg@, state.registers@, rounds as nat) == Err::<
                Seq<u8>,
                ErrorKind,
            >(e),
        },
{
    let mut current = vstd::slice::slice_to_vec(msg);
    let mut left = rounds;
    while left > 0
        invariant
            state.registers.wf(),
            substituted_all(msg@, state.registers@, rounds as nat) == substituted_all(
                current@,
                state.registers@,
                left as nat,
            ),
        decreases left,
    {
        match substitute_once(current.as_slice(), state) {
            Err(e) => {
                return Err(e);
            },
            Ok(None) => {
                return Ok(current);
            },
            Ok(Some(next)) => {
                current = next;
            },
        }
        left -= 1;
    }
    Ok(current)
}

/// The number that a text of decimal digits, after an optional plus sign,
/// stands for, where it is at most `limit`.
pub open spec fn unsigned_value(text: Seq<u8>, limit: nat) -> Option<nat> {
    match digits_value(
        if text.len() > 0 && text[0] == 43 {
            text.skip(1)
        } else {
            text
        },
    ) {
        Some(v) => if v <= limit {
            Some(v)
        } else {
            None
        },
        None => None,
    }
}

/// Reads an unsigned number of at most `limit`.
pub fn read_unsigned(text: &[u8], limit: u64) -> (value: Option<u64>)
    ensures
        match value {
            Some(v) => unsigned_value(text@, limit as nat) == Some(v as nat),
            None => unsigned_value(text@, limit as nat) is None,
        },
{
    let digits = if text.len() > 0 && text[0] == 43 {
        vstd::slice::slice_subrange(text, 1, text.len())
    } else {
        text
    };
    read_digits(digits, limit)
}

/// What is to be done for a command.
pub enum Action {
    /// Send the bytes to the program.
    Send(Vec<u8>),
    /// Send the bytes and a newline to the program.
    SendLine(Vec<u8>),
    /// Receive at most so many bytes.
    Recv(usize),
    /// Receive up to and including the terminator.
    RecvUntil(Vec<u8>),
    /// Receive one line.
    RecvLine,
    /// Attach a debugger to the program.
    AttachDebugger,
    /// Log the text; the command then gives it back.
    Log(Vec<u8>),
    /// Log the registers.
    LogRegisters,
    /// Open the program under test and resolve the symbol of this name.
    ResolveSymbol(Vec<u8>),
    /// Run the steps of the custom ingredient stored under this name.
    RunCustom(Vec<u8>),
    /// Nothing is left to do: the command gives this result.
    Done(Option<Vec<u8>>),
}

/// The model of an [`Action`].
pub enum ActionView {
    Send(Seq<u8>),
    SendLine(Seq<u8>),
    Recv(usize),
    RecvUntil(Seq<u8>),
    RecvLine,
    AttachDebugger,
    Log(Seq<u8>),
    LogRegisters,
    ResolveSymbol(Seq<u8>),
    RunCustom(Seq<u8>),
    Done(Option<Seq<u8>>),
}

impl View for Action {
    type V = ActionView;

    open spec fn view(&self) -> ActionView {
        match self {
            Action::Send(b) => ActionView::Send(b@),
            Action::SendLine(b) => ActionView::SendLine(b@),
            Action::Recv(n) => ActionView::Recv(*n),
            Action::RecvUntil(b) => ActionView::RecvUntil(b@),
            Action::RecvLine => ActionView::RecvLine,
            Action::AttachDebugger => ActionView::AttachDebugger,
            Action::Log(b) => ActionView::Log(b@),
            Action::LogRegisters => ActionView::LogRegisters,
            Action::ResolveSymbol(b) => ActionView::ResolveSymbol(b@),
            Action::RunCustom(b) => ActionView::RunCustom(b@),
            Action::Done(r) => ActionView::Done(
                match r {
                    Some(b) => Some(b@),
                    None => None,
                },
            ),
        }
    }
}

/// The position of the first byte `b` in `text`.
pub open spec fn first_byte(text: Seq<u8>, b: u8, from: int) -> Option<int>
    decreases text.len() - from,
{
    if from < 0 || from >= text.len() {
        None
    } else if text[from] == b {
        Some(from)
    } else {
        first_byte(text, b, from + 1)
    }
}

fn find_byte(text: &[u8], b: u8) -> (found: Option<usize>)
    ensures
        match found {
            Some(i) => first_byte(text@, b, 0) == Some(i as int) && i < text@.len(),
            None => first_byte(text@, b, 0) is None,
        },
{
    let mut i: usize = 0;
    while i < text.len()
        invariant
            i <= text@.len(),
            first_byte(text@, b, 0) == first_byte(text@, b, i as int),
        decreases text@.len() - i,
    {
        if text[i] == b {
            return Some(i);
        }
        i += 1;
    }
    None
}

/// Every byte is a hexadecimal digit.
pub open spec fn all_hex(digits: Seq<u8>) -> bool {
    forall|i: int| 0 <= i < digits.len() ==> in_class(#[trigger] digits[i], ByteClass::HexDigit)
}

/// The bytes read as hexadecimal digits, after an optional plus sign: their
/// value where it fits in 32 bits.
pub open spec fn hex_word(text: Seq<u8>) -> Option<u32> {
    let digits = if text.len() > 0 && text[0] == 43 {
        text.skip(1)
    } else {
        text
    };
    if digits.len() == 0 || !all_hex(digits) {
        None
    } else if hex_number(digits) > u32::MAX {
        None
    } else {
        Some(hex_number(digits) as u32)
    }
}

proof fn lemma_hex_grows(digits: Seq<u8>, upto: int)
    requires
        0 <= upto <= digits.len(),
    ensures
        hex_number(digits.take(upto)) <= hex_number(digits),
    decreases digits.len(),
{
    if upto < digits.len() {
        assert(digits.drop_last().take(upto) =~= digits.take(upto));
        lemma_hex_grows(digits.drop_last(), upto);
    } else {
        assert(digits.take(upto) =~= digits);
    }
}

/// Reads a 32-bit number in hexadecimal.
pub fn read_hex_word(text: &[u8]) -> (value: Option<u32>)
    ensures
        value == hex_word(text@),
{
    let digits = if text.len() > 0 && text[0] == 43 {
        vstd::slice::slice_subrange(text, 1, text.len())
    } else {
        text
    };
    if digits.len() == 0 {
        return None;
    }
    let mut acc: u64 = 0;
    let mut fits = true;
    let mut i: usize = 0;
    while i < digits.len()
        invariant
            i <= digits@.len(),
            digits@.len() > 0,
            digits@ == (if text@.len() > 0 && text@[0] == 43 {
                text@.skip(1)
            } else {
                text@
            }),
            forall|j: int| 0 <= j < i ==> in_class(#[trigger] digits@[j], ByteClass::HexDigit),
            fits ==> acc <= u32::MAX && acc == hex_number(digits@.take(i as int)),
            !fits ==> hex_number(digits@.take(i as int)) > u32::MAX,
        decreases digits@.len() - i,
    {
        let b = digits[i];
        proof {
            assert(digits@.take(i + 1).drop_last() =~= digits@.take(i as int));
        }
        let d: u64 = if b >= 48 && b <= 57 {
            (b - 48) as u64
        } else if b >= 65 && b <= 70 {
            (b - 55) as u64
        } else if b >= 97 && b <= 102 {
            (b - 87) as u64
        } else {
            return None;
        };
        if fits {
            let next = acc * 16 + d;
            if next > 0xffff_ffff {
                fits = false;
            } else {
                acc = next;
            }
        }
        i += 1;
    }
    assert(digits@.take(digits@.len() as int) =~= digits@);
    proof {
        if !fits {
            lemma_hex_grows(digits@, digits@.len() as int);
        }
    }
    if fits {
        Some(acc as u32)
    } else {
        None
    }
}

/// The text of a position or an address: its decimal digits.
pub fn number_text(n: u64) -> (text: Vec<u8>)
    ensures
        text@ == decimal_bytes(n as nat),
{
    let mut text: Vec<u8> = Vec::new();
    push_decimal_bytes(&mut text, n);
    text
}

/// `count` times the letter `A`.
pub fn padding(count: usize) -> (bytes: Vec<u8>)
    ensures
        bytes@ == Seq::new(count as nat, |i: int| 65u8),
{
    let mut bytes: Vec<u8> = Vec::new();
    let mut i: usize = 0;
    while i < count
        invariant
            i <= count,
            bytes@ == Seq::new(i as nat, |j: int| 65u8),
        decreases count - i,
    {
        bytes.push(65);
        i += 1;
    }
    bytes
}

/// What a regular-expression command gives: the parameter is a register
/// name, an at sign and a pattern, and the result is what the first group of
/// the pattern captures in the register.
pub open spec fn regex_result(msg: Seq<u8>, registers: Map<Seq<char>, Seq<u8>>) -> Result<
    Seq<u8>,
    ErrorKind,
> {
    if !valid_utf8(msg) {
        Err(ErrorKind::InvalidUtf8)
    } else {
        match first_byte(msg, 64, 0) {
            None => Err(ErrorKind::MalformedCommand),
            Some(at) => {
                let name = msg.subrange(0, at);
                let pattern = msg.subrange(at + 1, msg.len() as int);
                if !valid_utf8(name) || !valid_utf8(pattern) {
                    Err(ErrorKind::InvalidUtf8)
                } else if !registers.contains_key(decode_utf8(name)) {
                    Err(ErrorKind::InvalidRegister)
                } else {
                    match first_group(decode_utf8(pattern), registers[decode_utf8(name)]) {
                        CaptureView::BadPattern => Err(ErrorKind::InvalidPattern),
                        CaptureView::NoMatch => Err(ErrorKind::NothingCaptured),
                        CaptureView::NoGroup => Err(ErrorKind::NoGroupCaptured),
                        CaptureView::Group(b) => Ok(b),
                    }
                }
            },
        }
    }
}

/// Runs a regular-expression command over the registers.
pub fn run_regex(msg: &[u8], registers: &Registers) -> (result: Result<Vec<u8>, ErrorKind>)
    requires
        registers.wf(),
    ensures
        match result {
            Ok(b) => regex_result(msg@, registers@) == Ok::<Seq<u8>, ErrorKind>(b@),
            Err(e) => regex_result(msg@, registers@) == Err::<Seq<u8>, ErrorKind>(e),
        },
{
    if utf8_text(msg).is_none() {
        return Err(ErrorKind::InvalidUtf8);
    }
    let at = match find_byte(msg, 64) {
        None => {
            return Err(ErrorKind::MalformedCommand);
        },
        Some(at) => at,
    };
    let name = utf8_text(vstd::slice::slice_subrange(msg, 0, at));
    let total = msg.len();
    let pattern = utf8_text(vstd::slice::slice_subrange(msg, at + 1, total));
    match (name, pattern) {
        (Some(name), Some(pattern)) => {
            let content = match registers.get(name) {
                None => {
                    return Err(ErrorKind::InvalidRegister);
                },
                Some(content) => content,
            };
            match capture(pattern, content) {
                Capture::BadPattern => Err(ErrorKind::InvalidPattern),
                Capture::NoMatch => Err(ErrorKind::NothingCaptured),
                Capture::NoGroup => Err(ErrorKind::NoGroupCaptured),
                Capture::Group(b) => Ok(b),
            }
        },
        _ => Err(ErrorKind::InvalidUtf8),
    }
}

/// The length of the windows of the cyclic pattern that commands work with.
pub const CYCLIC_WINDOW: usize = 4;

/// The most bytes that one receive asks for where the command names no number.
pub const DEFAULT_READ_SIZE: usize = 4096;

/// What a command plans: what is left to do on the program under test, or
/// the result where nothing is.
///
/// - Sending commands send their parameter; padding sends as many `A` as the
///   parameter says.
/// - Receiving reads as many bytes as the parameter says, 4096 where it is
///   empty; receiving until reads up to the parameter.
/// - Packing an address gives the four bytes of the decimal number in the
///   parameter, in the byte order of the machine.
/// - The cyclic commands give the first bytes of the pattern for windows of
///   four, and the position in it of the window whose four bytes are the
///   hexadecimal number in the parameter.
pub open spec fn planned(
    kind: CommandType,
    msg: Seq<u8>,
    registers: Map<Seq<char>, Seq<u8>>,
    action: Result<ActionView, ErrorKind>,
) -> bool {
    match kind {
        CommandType::SendCmd => action == Ok::<ActionView, ErrorKind>(ActionView::Send(msg)),
        CommandType::SendLineCmd => action == Ok::<ActionView, ErrorKind>(
            ActionView::SendLine(msg),
        ),
        CommandType::RecvCmd => action == (if msg.len() == 0 {
            Ok::<ActionView, ErrorKind>(ActionView::Recv(DEFAULT_READ_SIZE))
        } else if !valid_utf8(msg) {
            Err(ErrorKind::InvalidUtf8)
        } else {
            match unsigned_value(msg, usize::MAX as nat) {
                Some(n) => Ok(ActionView::Recv(n as usize)),
                None => Err(ErrorKind::InvalidNumber),
            }
        }),
        CommandType::RecvUntil => action == Ok::<ActionView, ErrorKind>(
            ActionView::RecvUntil(msg),
        ),
        CommandType::RecvLineCmd => action == Ok::<ActionView, ErrorKind>(ActionView::RecvLine),
        CommandType::SendPaddingCmd => action == (if !valid_utf8(msg) {
            Err::<ActionView, ErrorKind>(ErrorKind::InvalidUtf8)
        } else {
            match unsigned_value(msg, usize::MAX as nat) {
                Some(n) => Ok(ActionView::Send(Seq::new(n, |i: int| 65u8))),
                None => Err(ErrorKind::InvalidNumber),
            }
        }),
        CommandType::AttachDbg => action == Ok::<ActionView, ErrorKind>(
            ActionView::AttachDebugger,
        ),
        CommandType::GetSymAddrCmd => action == (if !valid_utf8(msg) {
            Err::<ActionView, ErrorKind>(ErrorKind::InvalidUtf8)
        } else {
            Ok(ActionView::ResolveSymbol(msg))
        }),
        CommandType::LogCmd => action == (if !valid_utf8(msg) {
            Err::<ActionView, ErrorKind>(ErrorKind::InvalidUtf8)
        } else {
            Ok(ActionView::Log(msg))
        }),
        CommandType::RegexCmd => action == (match regex_result(msg, registers) {
            Ok(b) => Ok::<ActionView, ErrorKind>(ActionView::Done(Some(b))),
            Err(e) => Err(e),
        }),
        CommandType::LogRegCmd => action == Ok::<ActionView, ErrorKind>(ActionView::LogRegisters),
        CommandType::StringToAddrCmd => if !valid_utf8(msg) {
            action == Err::<ActionView, ErrorKind>(ErrorKind::InvalidUtf8)
        } else {
            match unsigned_value(msg, u32::MAX as nat) {
                Some(n) => action == Ok::<ActionView, ErrorKind>(
                    ActionView::Done(Some(packed(n, 4, Endian::Little))),
                ) || action == Ok::<ActionView, ErrorKind>(
                    ActionView::Done(Some(packed(n, 4, Endian::Big))),
                ),
                None => action == Err::<ActionView, ErrorKind>(ErrorKind::InvalidNumber),
            }
        },
        CommandType::CyclicCmd => action == (if !valid_utf8(msg) {
            Err::<ActionView, ErrorKind>(ErrorKind::InvalidUtf8)
        } else {
            match unsigned_value(msg, 256) {
                Some(n) => if n <= cyclic_pattern(CYCLIC_WINDOW).len() {
                    Ok(ActionView::Done(Some(cyclic_pattern(CYCLIC_WINDOW).take(n as int))))
                } else {
                    Err(ErrorKind::SequenceExhausted)
                },
                None => Err(ErrorKind::InvalidNumber),
            }
        }),
        CommandType::CyclicFindCmd => if !valid_utf8(msg) {
            action == Err::<ActionView, ErrorKind>(ErrorKind::InvalidUtf8)
        } else {
            match hex_word(msg) {
                None => action == Err::<ActionView, ErrorKind>(ErrorKind::InvalidNumber),
                Some(word) => exists|window: Seq<u8>|
                    (#[trigger] window_of(word, window)) && (if !in_pattern_alphabet(window) {
                        action == Err::<ActionView, ErrorKind>(ErrorKind::InvalidNumber)
                    } else {
                        match action {
                            Ok(ActionView::Done(Some(text))) => exists|pos: usize|
                                first_window(window, cyclic_pattern(CYCLIC_WINDOW), Some(pos))
                                    && text == decimal_bytes(pos as nat),
                            Ok(ActionView::Done(None)) => first_window(
                                window,
                                cyclic_pattern(CYCLIC_WINDOW),
                                None,
                            ),
                            _ => false,
                        }
                    }),
            }
        },
        CommandType::Custom => action == (if !valid_utf8(msg) {
            Err::<ActionView, ErrorKind>(ErrorKind::InvalidUtf8)
        } else {
            Ok(ActionView::RunCustom(msg))
        }),
    }
}

/// The four bytes of a word, in one of the two byte orders.
pub open spec fn window_of(word: u32, window: Seq<u8>) -> bool {
    window == packed(word as nat, 4, Endian::Little) || window == packed(
        word as nat,
        4,
        Endian::Big,
    )
}

/// Whether an action is what its kind of command plans.
pub open spec fn is_planned(
    kind: CommandType,
    msg: Seq<u8>,
    registers: Map<Seq<char>, Seq<u8>>,
    action: Result<Action, ErrorKind>,
) -> bool {
    planned(
        kind,
        msg,
        registers,
        match action {
            Ok(a) => Ok(a@),
            Err(e) => Err(e),
        },
    )
}

fn all_in_alphabet(window: &[u8]) -> (inside: bool)
    ensures
        inside == in_pattern_alphabet(window@),
{
    let mut i: usize = 0;
    while i < window.len()
        invariant
            i <= window@.len(),
            forall|j: int| 0 <= j < i ==> 97 <= #[trigger] window@[j] <= 100,
        decreases window@.len() - i,
    {
        if window[i] < 97 || window[i] > 100 {
            return false;
        }
        i += 1;
    }
    true
}

/// Plans a command of the given kind with the given parameter.
pub fn plan(kind: CommandType, msg: &[u8], state: &State) -> (action: Result<Action, ErrorKind>)
    requires
        state.registers.wf(),
    ensures
        is_planned(kind, msg@, state.registers@, action),
{
    let text = utf8_text(msg);
    match kind {
        CommandType::SendCmd => Ok(Action::Send(vstd::slice::slice_to_vec(msg))),
        CommandType::SendLineCmd => Ok(Action::SendLine(vstd::slice::slice_to_vec(msg))),
        CommandType::RecvCmd => {
            if msg.len() == 0 {
                Ok(Action::Recv(DEFAULT_READ_SIZE))
            } else if text.is_none() {
                Err(ErrorKind::InvalidUtf8)
            } else {
                match read_unsigned(msg, usize::MAX as u64) {
                    Some(n) => Ok(Action::Recv(n as usize)),
                    None => Err(ErrorKind::InvalidNumber),
                }
            }
        },
        CommandType::RecvUntil => Ok(Action::RecvUntil(vstd::slice::slice_to_vec(msg))),
        CommandType::RecvLineCmd => Ok(Action::RecvLine),
        CommandType::SendPaddingCmd => {
            if text.is_none() {
                Err(ErrorKind::InvalidUtf8)
            } else {
                match read_unsigned(msg, usize::MAX as u64) {
                    Some(n) => Ok(Action::Send(padding(n as usize))),
                    None => Err(ErrorKind::InvalidNumber),
                }
            }
        },
        CommandType::AttachDbg => Ok(Action::AttachDebugger),
        CommandType::GetSymAddrCmd => {
            if text.is_none() {
                Err(ErrorKind::InvalidUtf8)
            } else {
                Ok(Action::ResolveSymbol(vstd::slice::slice_to_vec(msg)))
            }
        },
        CommandType::LogCmd => {
            if text.is_none() {
                Err(ErrorKind::InvalidUtf8)
            } else {
                Ok(Action::Log(vstd::slice::slice_to_vec(msg)))
            }
        },
        CommandType::RegexCmd => match run_regex(msg, &state.registers) {
            Ok(b) => Ok(Action::Done(Some(b))),
            Err(e) => Err(e),
        },
        CommandType::LogRegCmd => Ok(Action::LogRegisters),
        CommandType::StringToAddrCmd => {
            if text.is_none() {
                Err(ErrorKind::InvalidUtf8)
            } else {
                match read_unsigned(msg, 0xffff_ffff) {
                    Some(n) => {
                        let bytes = native_bytes(n as u32);
                        Ok(Action::Done(Some(vstd::slice::slice_to_vec(bytes.as_slice()))))
                    },
                    None => Err(ErrorKind::InvalidNumber),
                }
            }
        },
        CommandType::CyclicCmd => {
            if text.is_none() {
                Err(ErrorKind::InvalidUtf8)
            } else {
                match read_unsigned(msg, 256) {
                    Some(n) => {
                        proof {
                            reveal_with_fuel(power, 5);
                        }
                        match cyclic(n as usize, CYCLIC_WINDOW) {
                            Ok(b) => Ok(Action::Done(Some(b))),
                            Err(e) => Err(e),
                        }
                    },
                    None => Err(ErrorKind::InvalidNumber),
                }
            }
        },
        CommandType::CyclicFindCmd => {
            if text.is_none() {
                Err(ErrorKind::InvalidUtf8)
            } else {
                match read_hex_word(msg) {
                    None => Err(ErrorKind::InvalidNumber),
                    Some(word) => {
                        let bytes = native_bytes(word);
                        let window = bytes.as_slice();
                        assert(window_of(word, window@));
                        if !all_in_alphabet(window) {
                            Err(ErrorKind::InvalidNumber)
                        } else {
                            proof {
                                crate::misc::packing::lemma_le_round_trip(word as nat, 4);
                            }
                            match cyclic_find(window, CYCLIC_WINDOW) {
                                Some(pos) => Ok(Action::Done(Some(number_text(pos as u64)))),
                                None => Ok(Action::Done(None)),
                            }
                        }
                    },
                }
            }
        },
        CommandType::Custom => {
            if text.is_none() {
                Err(ErrorKind::InvalidUtf8)
            } else {
                Ok(Action::RunCustom(vstd::slice::slice_to_vec(msg)))
            }
        },
    }
}

/// Stores the result of a step in the register that the step names, where it
/// names one and has a result.
pub fn store_result(state: &mut State, output: &str, result: Option<Vec<u8>>)
    requires
        old(state).registers.wf(),
    ensures
        final(state).registers.wf(),
        final(state).program_path == old(state).program_path,
        final(state).do_exit == old(state).do_exit,
        final(state).output == old(state).output,
        final(state).registers@ == (match result {
            Some(bytes) => if output@.len() > 0 {
                old(state).registers@.insert(output@, bytes@)
            } else {
                old(state).registers@
            },
            None => old(state).registers@,
        }),
{
    match result {
        Some(bytes) => {
            if output.unicode_len() > 0 {
                state.registers.set(output, bytes);
            }
        },
        None => {},
    }
}

} // verus!
