//! The fixed command registry: the closed set of slash-commands, their
//! names in declaration order, which of them demand a non-empty buffer, and
//! exact-match lookup of confirmed input.

use vstd::prelude::*;
use vstd::string::StrSliceExecFns;

verus! {

/// The closed set of commands the dispatcher knows. The registry is fixed
/// at build time; exhaustive matches keep every command handled.
#[derive(Clone, Copy, Debug, PartialEq, Eq, Structural)]
pub enum CommandId {
    Base64Decode,
    Base64Encode,
    Copy,
    CssFormat,
    CssMinify,
    Cuid,
    Exit,
    JsonFormat,
    JsonMinify,
    Sha256,
    Uuid,
}

/// The registered command names, in declaration order. Autocomplete and
/// lookup both go by this order, which keeps candidate lists deterministic.
pub open spec fn command_names() -> Seq<Seq<char>> {
    seq![
        "/base64-decode"@,
        "/base64-encode"@,
        "/copy"@,
        "/css-format"@,
        "/css-minify"@,
        "/cuid"@,
        "/exit"@,
        "/json-format"@,
        "/json-minify"@,
        "/sha-256"@,
        "/uuid"@,
    ]
}

/// The command a confirmed (trimmed) input names, by exact match.
pub open spec fn command_of(s: Seq<char>) -> Option<CommandId> {
    if s == "/base64-decode"@ {
        Some(CommandId::Base64Decode)
    } else if s == "/base64-encode"@ {
        Some(CommandId::Base64Encode)
    } else if s == "/copy"@ {
        Some(CommandId::Copy)
    } else if s == "/css-format"@ {
        Some(CommandId::CssFormat)
    } else if s == "/css-minify"@ {
        Some(CommandId::CssMinify)
    } else if s == "/cuid"@ {
        Some(CommandId::Cuid)
    } else if s == "/exit"@ {
        Some(CommandId::Exit)
    } else if s == "/json-format"@ {
        Some(CommandId::JsonFormat)
    } else if s == "/json-minify"@ {
        Some(CommandId::JsonMinify)
    } else if s == "/sha-256"@ {
        Some(CommandId::Sha256)
    } else if s == "/uuid"@ {
        Some(CommandId::Uuid)
    } else {
        None
    }
}

/// Whether the command refuses to run on an empty buffer. The generators
/// (`/cuid`, `/uuid`) and `/exit` run regardless; every transform and the
/// clipboard copy need content.
pub open spec fn spec_requires_nonempty(c: CommandId) -> bool {
    match c {
        CommandId::Cuid => false,
        CommandId::Exit => false,
        CommandId::Uuid => false,
        _ => true,
    }
}

pub fn requires_nonempty(c: CommandId) -> (r: bool)
    ensures
        r == spec_requires_nonempty(c),
{
    match c {
        CommandId::Cuid => false,
        CommandId::Exit => false,
        CommandId::Uuid => false,
        _ => true,
    }
}

/// The registered command names as shown to the user, in declaration order.
pub fn get_available_commands() -> (r: Vec<&'static str>)
    ensures
        r.deep_view() == command_names(),
{
    let r: Vec<&'static str> = vec![
        "/base64-decode",
        "/base64-encode",
        "/copy",
        "/css-format",
        "/css-minify",
        "/cuid",
        "/exit",
        "/json-format",
        "/json-minify",
        "/sha-256",
        "/uuid",
    ];
    proof {
        assert(r.deep_view() =~= command_names());
    }
    r
}

/// Whether a character vector spells exactly the given string.
pub fn chars_eq_str(v: &Vec<char>, s: &str) -> (r: bool)
    ensures
        r == (v@ == s@),
{
    let n = s.unicode_len();
    if v.len() != n {
        proof {
            assert(v@.len() != s@.len());
        }
        return false;
    }
    let mut i: usize = 0;
    while i < n
        invariant
            0 <= i <= n,
            n == s@.len(),
            n == v@.len(),
            forall|k: int| 0 <= k < i ==> v@[k] == s@[k],
        decreases n - i,
    {
        if v[i] != s.get_char(i) {
            return false;
        }
        i = i + 1;
    }
    proof {
        assert(v@ =~= s@);
    }
    true
}

/// Looks up which command, if any, the trimmed input names exactly.
pub fn lookup_command(t: &Vec<char>) -> (r: Option<CommandId>)
    ensures
        r == command_of(t@),
{
    if chars_eq_str(t, "/base64-decode") {
        Some(CommandId::Base64Decode)
    } else if chars_eq_str(t, "/base64-encode") {
        Some(CommandId::Base64Encode)
    } else if chars_eq_str(t, "/copy") {
        Some(CommandId::Copy)
    } else if chars_eq_str(t, "/css-format") {
        Some(CommandId::CssFormat)
    } else if chars_eq_str(t, "/css-minify") {
        Some(CommandId::CssMinify)
    } else if chars_eq_str(t, "/cuid") {
        Some(CommandId::Cuid)
    } else if chars_eq_str(t, "/exit") {
        Some(CommandId::Exit)
    } else if chars_eq_str(t, "/json-format") {
        Some(CommandId::JsonFormat)
    } else if chars_eq_str(t, "/json-minify") {
        Some(CommandId::JsonMinify)
    } else if chars_eq_str(t, "/sha-256") {
        Some(CommandId::Sha256)
    } else if chars_eq_str(t, "/uuid") {
        Some(CommandId::Uuid)
    } else {
        None
    }
}

} // verus!
