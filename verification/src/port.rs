//! The port of the loopback server.
use vstd::prelude::*;

use crate::text::{cat4, number};

verus! {

/// The port unless the environment says otherwise.
pub const DEFAULT_PORT: u16 = 7741;

/// The words of the standard library for why a text is no `u16`.
pub uninterp spec fn port_error(text: Seq<char>) -> Seq<char>;

/// Reads a text with `str::parse::<u16>`: a number exactly where the text is an optional
/// plus sign and digits of a value that fits, and otherwise the words of its error, of
/// which it is claimed that they depend on the text alone.
#[verifier::external_body]
fn parse_port(text: &str) -> (r: Result<u16, String>)
    ensures
        match r {
            Ok(port) => number(text@, u16::MAX as nat) == Some(port as nat),
            Err(e) => number(text@, u16::MAX as nat) is None && e@ == port_error(text@),
        },
{
    match text.parse::<u16>() {
        Ok(port) => Ok(port),
        Err(e) => Err(e.to_string()),
    }
}

/// The port that a parsed setting stands for. Zero is refused: nobody could know the
/// port that it would get.
pub open spec fn port_from(text: Seq<char>, parsed: Result<u16, Seq<char>>) -> Result<
    u16,
    Seq<char>,
> {
    match parsed {
        Ok(port) => if port == 0 {
            Err("SQUABBLE_PORT=0 would bind an ephemeral port the cartridge cannot target"@)
        } else {
            Ok(port)
        },
        Err(e) => Err("SQUABBLE_PORT=`"@ + text + "` is not a port: "@ + e),
    }
}

/// The port that a parsed setting stands for.
pub fn checked_port(text: &str, parsed: Result<u16, String>) -> (r: Result<u16, String>)
    ensures
        match (r, port_from(
            text@,
            match parsed {
                Ok(port) => Ok(port),
                Err(e) => Err(e@),
            },
        )) {
            (Ok(a), Ok(b)) => a == b,
            (Err(a), Err(b)) => a@ == b,
            _ => false,
        },
{
    match parsed {
        Ok(port) => if port == 0 {
            Err(
                "SQUABBLE_PORT=0 would bind an ephemeral port the cartridge cannot target".to_owned(),
            )
        } else {
            Ok(port)
        },
        Err(e) => Err(cat4("SQUABBLE_PORT=`", text, "` is not a port: ", &e)),
    }
}

/// The port that the setting names, or the default where there is no setting. A setting
/// that is no port is an error, never the default.
pub fn port_from_env(setting: Option<&str>) -> (r: Result<u16, String>)
    ensures
        match (setting, r) {
            (None, Ok(port)) => port == DEFAULT_PORT,
            (None, Err(_)) => false,
            (Some(text), Ok(port)) => port != 0 && number(text@, u16::MAX as nat) == Some(
                port as nat,
            ),
            (Some(text), Err(e)) => match number(text@, u16::MAX as nat) {
                Some(n) => n == 0 && e@
                    == "SQUABBLE_PORT=0 would bind an ephemeral port the cartridge cannot target"@,
                None => e@ == "SQUABBLE_PORT=`"@ + text@ + "` is not a port: "@ + port_error(text@),
            },
        },
{
    match setting {
        Some(text) => checked_port(text, parse_port(text)),
        None => Ok(DEFAULT_PORT),
    }
}

/// A number is the port exactly where it is not zero; what is no number is refused with the
/// setting and the reason.
pub proof fn every_number_but_zero_is_a_port(text: Seq<char>, port: u16, e: Seq<char>)
    ensures
        port_from(text, Ok(port)) is Ok <==> port != 0,
        port != 0 ==> port_from(text, Ok(port)) == Ok::<u16, Seq<char>>(port),
        port_from(text, Err(e)) == Err::<u16, Seq<char>>(
            "SQUABBLE_PORT=`"@ + text + "` is not a port: "@ + e,
        ),
{
}

} // verus!
