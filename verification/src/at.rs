//! Serialising AT commands for an HC-05 style Bluetooth module.
use vstd::prelude::*;

verus! {

/// Role of the Bluetooth module.
#[derive(Clone, Copy, PartialEq, Eq, Debug, Structural)]
pub enum ATRole {
    Slave,
    Master,
    SlaveLoop,
}

/// The digit the module uses for a role.
pub open spec fn role_digit(r: ATRole) -> char {
    match r {
        ATRole::Slave => '0',
        ATRole::Master => '1',
        ATRole::SlaveLoop => '2',
    }
}

impl From<ATRole> for char {
    fn from(value: ATRole) -> (c: char) {
        match value {
            ATRole::Slave => '0',
            ATRole::Master => '1',
            ATRole::SlaveLoop => '2',
        }
    }
}

impl vstd::std_specs::convert::FromSpecImpl<ATRole> for char {
    open spec fn obeys_from_spec() -> bool {
        true
    }

    open spec fn from_spec(v: ATRole) -> char {
        role_digit(v)
    }
}

pub struct ATVersionParams {
    pub value: heapless::String<16>,
}

pub struct ATAddressParams {
    pub nap: heapless::Vec<u8, 2>,
    pub uap: u8,
    pub lap: heapless::Vec<u8, 3>,
}

pub struct ATNameParams {
    pub value: heapless::String<16>,
}

pub struct ATRoleParams {
    pub value: ATRole,
}

pub struct ATUartParams {
    pub baudrate: u64,
    pub stop_bit: u64,
    pub parity_bit: u64,
}

/// An AT command, with the parameters of its write form when it has one.
pub enum ATCommand {
    Ping,
    Reset,
    Version(Option<ATVersionParams>),
    Address(Option<ATAddressParams>),
    Name(Option<ATNameParams>),
    Role(Option<ATRoleParams>),
    Uart(Option<ATUartParams>),
}

/// The text of an AT command buffer.
pub type ATText = heapless::String<32>;

/// The characters an AT command buffer holds.
pub uninterp spec fn at_text_chars(s: ATText) -> Seq<char>;

/// `String::<32>::new`: an empty buffer.
#[verifier::external_body]
fn at_text_new() -> (s: ATText)
    ensures
        at_text_chars(s) == Seq::<char>::empty(),
{
    heapless::String::new()
}

/// Whether every character is ASCII, and so takes one byte in UTF-8.
pub open spec fn all_ascii(s: Seq<char>) -> bool {
    forall|i: int| 0 <= i < s.len() ==> (#[trigger] s[i] as u32) < 128
}

/// `String::<32>::push_str` on an ASCII buffer and an ASCII text: the
/// buffer then holds one byte per character, so the push succeeds when the
/// characters fit in the 32 bytes of the buffer, and appends them.
#[verifier::external_body]
fn at_text_push_str(s: &mut ATText, t: &str) -> (ok: bool)
    requires
        all_ascii(at_text_chars(*old(s))),
        all_ascii(t@),
        at_text_chars(*old(s)).len() + t@.len() <= 32,
    ensures
        ok,
        at_text_chars(*final(s)) == at_text_chars(*old(s)) + t@,
{
    s.push_str(t).is_ok()
}

/// The name of a command in AT syntax.
pub open spec fn token_word(t: &ATCommand) -> Seq<char> {
    match t {
        ATCommand::Ping => seq!['A', 'T'],
        ATCommand::Reset => seq!['R', 'E', 'S', 'E', 'T'],
        ATCommand::Version(_) => seq!['V', 'E', 'R', 'S', 'I', 'O', 'N'],
        ATCommand::Address(_) => seq!['A', 'D', 'D', 'R'],
        ATCommand::Name(_) => seq!['N', 'A', 'M', 'E'],
        ATCommand::Role(_) => seq!['R', 'O', 'L', 'E'],
        ATCommand::Uart(_) => seq!['U', 'A', 'R', 'T'],
    }
}

/// The query form of a command: `AT`, then for any command but `Ping` a
/// `+`, the command name and, but for `Reset`, a `?`; then CR LF.
pub open spec fn spec_read_form(t: &ATCommand) -> Seq<char> {
    let body = match t {
        ATCommand::Ping => Seq::<char>::empty(),
        ATCommand::Reset => seq!['+'] + token_word(t),
        _ => seq!['+'] + token_word(t) + seq!['?'],
    };
    seq!['A', 'T'] + body + seq!['\r', '\n']
}

/// The AT name of a command.
pub fn serialize_token(token: &ATCommand) -> (r: Result<&'static str, ()>)
    ensures
        r matches Ok(s) && s@ == token_word(token) && all_ascii(s@),
{
    let s = match token {
        ATCommand::Ping => "AT",
        ATCommand::Reset => "RESET",
        ATCommand::Version(_) => "VERSION",
        ATCommand::Address(_) => "ADDR",
        ATCommand::Name(_) => "NAME",
        ATCommand::Role(_) => "ROLE",
        ATCommand::Uart(_) => "UART",
    };
    proof {
        reveal_strlit("AT");
        reveal_strlit("RESET");
        reveal_strlit("VERSION");
        reveal_strlit("ADDR");
        reveal_strlit("NAME");
        reveal_strlit("ROLE");
        reveal_strlit("UART");
    }
    Ok(s)
}

/// The query form of a command (see `spec_read_form`).
pub fn serialize_command_read(token: &ATCommand) -> (r: Result<ATText, ()>)
    ensures
        r matches Ok(s) && at_text_chars(s) == spec_read_form(token),
{
    let t = match serialize_token(token) {
        Ok(t) => t,
        Err(e) => return Err(e),
    };
    proof {
        reveal_strlit("AT");
        reveal_strlit("+");
        reveal_strlit("?");
        reveal_strlit("\r\n");
    }
    let mut result = at_text_new();
    at_text_push_str(&mut result, "AT");
    match token {
        ATCommand::Ping => {},
        _ => {
            at_text_push_str(&mut result, "+");
            at_text_push_str(&mut result, t);
            match token {
                ATCommand::Reset => {},
                _ => {
                    at_text_push_str(&mut result, "?");
                },
            }
        },
    }
    at_text_push_str(&mut result, "\r\n");
    assert(at_text_chars(result) =~= spec_read_form(token));
    Ok(result)
}

/// Whether a command has a write form with its parameters given: `Name`,
/// `Role` and `Uart` with parameters.
pub open spec fn spec_has_write_form(t: &ATCommand) -> bool {
    match t {
        ATCommand::Name(p) => p is Some,
        ATCommand::Role(p) => p is Some,
        ATCommand::Uart(p) => p is Some,
        _ => false,
    }
}

/// The write form of a command: an empty buffer when the command has a
/// write form with its parameters given, and an error otherwise.
pub fn serialize_command_write(token: &ATCommand) -> (r: Result<ATText, ()>)
    ensures
        match r {
            Ok(s) => spec_has_write_form(token) && at_text_chars(s) == Seq::<char>::empty(),
            Err(_) => !spec_has_write_form(token),
        },
{
    let result = at_text_new();
    match token {
        ATCommand::Name(p) => {
            if p.is_none() {
                return Err(());
            }
        },
        ATCommand::Role(p) => {
            if p.is_none() {
                return Err(());
            }
        },
        ATCommand::Uart(p) => {
            if p.is_none() {
                return Err(());
            }
        },
        _ => {
            return Err(());
        },
    }
    Ok(result)
}

} // verus!
