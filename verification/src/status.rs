//! The text of a status response.

use vstd::prelude::*;
use vstd::string::StringExecFns;
use crate::config::Config;
use crate::error::ProtocolError;
use crate::mctypes::strings::MAX_STRING_BYTES;
use crate::packets::StatusResponse;

verus! {

/// The standard base64 text of `bytes`, with padding, as `radix64::STD`
/// encodes it.
pub uninterp spec fn spec_base64_std(bytes: Seq<u8>) -> Seq<char>;

/// `radix64::STD.encode`: the standard padded base64 text of the input. The
/// call sizes its buffer at four times the input's length, which therefore
/// has to fit a `usize`.
#[verifier::external_body]
fn base64_std(bytes: &[u8]) -> (text: String)
    requires
        bytes@.len() * 4 <= usize::MAX,
    ensures
        text@ == spec_base64_std(bytes@),
{
    radix64::STD.encode(bytes)
}

/// The character for the digit `d`.
pub open spec fn spec_digit(d: nat) -> char
    recommends
        d < 10,
{
    if d == 0 {
        '0'
    } else if d == 1 {
        '1'
    } else if d == 2 {
        '2'
    } else if d == 3 {
        '3'
    } else if d == 4 {
        '4'
    } else if d == 5 {
        '5'
    } else if d == 6 {
        '6'
    } else if d == 7 {
        '7'
    } else if d == 8 {
        '8'
    } else {
        '9'
    }
}

/// `n` in decimal, without leading zeros.
pub open spec fn spec_decimal(n: nat) -> Seq<char>
    decreases n,
{
    if n < 10 {
        seq![spec_digit(n)]
    } else {
        spec_decimal(n / 10).push(spec_digit(n % 10))
    }
}

/// The text shown for a favicon: its base64 form, or nothing where there is
/// no favicon.
pub open spec fn spec_favicon_text(favicon: Option<Seq<u8>>) -> Seq<char> {
    match favicon {
        Some(bytes) => spec_base64_std(bytes),
        None => Seq::empty(),
    }
}

/// The JSON text of a status response. The description and the favicon text
/// are inserted as they are.
pub open spec fn spec_status_json(
    protocol_version: nat,
    max_players: nat,
    online: nat,
    motd: Seq<char>,
    favicon_text: Seq<char>,
) -> Seq<char> {
    "{\"version\":{\"name\":\"Composition 1.15.2\",\"protocol\":"@ + spec_decimal(protocol_version)
        + "},\"players\":{\"max\":"@ + spec_decimal(max_players) + ",\"online\":"@ + spec_decimal(
        online,
    )
        + ",\"sample\":[{\"name\":\"fumolover12\",\"id\":\"4566e69f-c907-48ee-8d71-d7ba5aa00d20\"}]},\"description\":{\"text\":\""@
        + motd + "\"},\"favicon\":\"data:image/png;base64,"@ + favicon_text + "\"}"@
}

fn digit_text(d: u64) -> (text: &'static str)
    requires
        d < 10,
    ensures
        text@ == seq![spec_digit(d as nat)],
{
    proof {
        reveal_strlit("0");
        reveal_strlit("1");
        reveal_strlit("2");
        reveal_strlit("3");
        reveal_strlit("4");
        reveal_strlit("5");
        reveal_strlit("6");
        reveal_strlit("7");
        reveal_strlit("8");
        reveal_strlit("9");
    }
    let text = if d == 0 {
        "0"
    } else if d == 1 {
        "1"
    } else if d == 2 {
        "2"
    } else if d == 3 {
        "3"
    } else if d == 4 {
        "4"
    } else if d == 5 {
        "5"
    } else if d == 6 {
        "6"
    } else if d == 7 {
        "7"
    } else if d == 8 {
        "8"
    } else {
        "9"
    };
    assert(text@ =~= seq![spec_digit(d as nat)]);
    text
}

/// Appends `n` in decimal to `out`.
pub fn append_decimal(out: &mut String, n: u64)
    ensures
        final(out)@ == old(out)@ + spec_decimal(n as nat),
    decreases n,
{
    if n >= 10 {
        append_decimal(out, n / 10);
    }
    out.append(digit_text(n % 10));
    proof {
        if n >= 10 {
            assert(final(out)@ =~= old(out)@ + spec_decimal((n / 10) as nat).push(
                spec_digit((n % 10) as nat),
            ));
        }
    }
}

/// Builds the JSON text of a status response from what it shows.
pub fn status_json(
    protocol_version: u16,
    max_players: u32,
    online: u16,
    motd: &str,
    favicon_text: &str,
) -> (json: String)
    ensures
        json@ == spec_status_json(
            protocol_version as nat,
            max_players as nat,
            online as nat,
            motd@,
            favicon_text@,
        ),
{
    let mut json: String = String::new();
    json.append("{\"version\":{\"name\":\"Composition 1.15.2\",\"protocol\":");
    append_decimal(&mut json, protocol_version as u64);
    json.append("},\"players\":{\"max\":");
    append_decimal(&mut json, max_players as u64);
    json.append(",\"online\":");
    append_decimal(&mut json, online as u64);
    json.append(
        ",\"sample\":[{\"name\":\"fumolover12\",\"id\":\"4566e69f-c907-48ee-8d71-d7ba5aa00d20\"}]},\"description\":{\"text\":\"",
    );
    json.append(motd);
    json.append("\"},\"favicon\":\"data:image/png;base64,");
    json.append(favicon_text);
    json.append("\"}");
    assert(json@ =~= spec_status_json(
        protocol_version as nat,
        max_players as nat,
        online as nat,
        motd@,
        favicon_text@,
    ));
    json
}

/// The bytes of a favicon as the specification sees them.
pub open spec fn spec_favicon_bytes(favicon: Option<&[u8]>) -> Option<Seq<u8>> {
    match favicon {
        Some(bytes) => Some(bytes@),
        None => None,
    }
}

/// Whether a favicon is small enough to be shown: it is absent, or no
/// longer than a string field, which its text has to fit anyway.
pub open spec fn spec_favicon_fits(favicon: Option<Seq<u8>>) -> bool {
    match favicon {
        Some(bytes) => bytes.len() <= MAX_STRING_BYTES,
        None => true,
    }
}

/// The status response of a server with the given configuration, player
/// count and favicon. A favicon that does not fit is a framing error.
pub fn status_response(config: &Config, online: u16, favicon: Option<&[u8]>) -> (r: Result<
    StatusResponse,
    ProtocolError,
>)
    ensures
        match r {
            Ok(response) => spec_favicon_fits(spec_favicon_bytes(favicon)) && response@
                == spec_status_json(
                config.protocol_version as nat,
                config.max_players as nat,
                online as nat,
                config.motd@,
                spec_favicon_text(spec_favicon_bytes(favicon)),
            ),
            Err(e) => !spec_favicon_fits(spec_favicon_bytes(favicon)) && e
                == ProtocolError::FramingError,
        },
{
    let favicon_text: String = match favicon {
        Some(bytes) => {
            if bytes.len() > MAX_STRING_BYTES {
                return Err(ProtocolError::FramingError);
            }
            base64_std(bytes)
        },
        None => String::new(),
    };
    Ok(
        StatusResponse {
            json: status_json(
                config.protocol_version,
                config.max_players,
                online,
                config.motd.as_str(),
                favicon_text.as_str(),
            ),
        },
    )
}

} // verus!
