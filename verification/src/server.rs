//! The server's decisions over plain values: the configuration, what a
//! failed level load leaves running, the connectionless argument
//! sanitizers and the menu-response parser. Sockets, the netchan and the
//! script VM live outside this library.

use vstd::prelude::*;
use vstd::string::*;
use vstd::utf8::*;
use crate::text::{parse_i32, parse_i32_of, push_char, split_whitespace, str_eq, tokens};

verus! {

/// Retail's `MAX_CLIENTS`. Client slots index a 6-bit wire field, so more
/// than 64 would collide.
pub const MAX_CLIENTS: usize = 64;

/// The last script menu `Cmd_MenuResponse_f` looks up: the menu configstring
/// range has 32 slots.
pub const MAX_MENUS: i32 = 31;

/// The longest challenge token echoed back in an info string, in bytes.
pub const MAX_CHALLENGE_LEN: usize = 32;

pub struct ServerConfig {
    pub map: String,
    pub hostname: String,
    pub max_clients: usize,
    /// `g_gametype` as text (`dm`, `tdm`, `sd`).
    pub gametype: String,
    /// Scripted entities that exercise the packet-entity wire path. 0 is off.
    pub test_entities: usize,
    /// Log one line per snapshot per client with the numbers that drive a
    /// client's prediction.
    pub trace: bool,
    /// Debug bots in play. Each takes a real slot; 0 is off.
    pub bots: usize,
    /// Whether the bots fight. Without it they only wander.
    pub bots_shoot: bool,
}

impl ServerConfig {
    /// How many client slots a server started with this configuration
    /// opens: `max_clients`, capped at `MAX_CLIENTS`.
    pub fn client_slots(&self) -> (r: usize)
        ensures
            r == if self.max_clients < MAX_CLIENTS {
                self.max_clients
            } else {
                MAX_CLIENTS
            },
    {
        if self.max_clients < MAX_CLIENTS {
            self.max_clients
        } else {
            MAX_CLIENTS
        }
    }
}

#[verifier::external_type_specification]
#[verifier::external_body]
pub struct ExAnyhowError(anyhow::Error);

/// Why a level load failed, which is what says whether the server can go on.
#[derive(Debug)]
pub enum LoadFailure {
    /// Refused before anything was torn down, so the level that is serving
    /// is untouched and the console line was a no-op.
    KeptLevel(anyhow::Error),
    /// Failed with the level already gone: no script to call `exitLevel`, no
    /// table for a client to pull. Retail ends the process on this.
    Fatal(anyhow::Error),
}

impl LoadFailure {
    /// Whether the level that was serving is still serving.
    pub fn kept_level(&self) -> (r: bool)
        ensures
            r == (self is KeptLevel),
    {
        match self {
            LoadFailure::KeptLevel(_) => true,
            LoadFailure::Fatal(_) => false,
        }
    }
}

/// `anyhow::Error::context`: the same error wrapped under a line saying
/// which console command failed. Nothing is stated of the error value,
/// which is opaque here.
#[verifier::external_body]
fn error_with_context(e: anyhow::Error, what: &str) -> anyhow::Error {
    e.context(what.to_string())
}

/// What the console drain does with a level load's outcome: whether it may
/// keep running, and the error that must end the process when the load
/// failed past the teardown. A refused load leaves the level serving and
/// the drain running.
pub fn absorb_load(what: &str, r: Result<(), LoadFailure>) -> (out: (bool, Option<anyhow::Error>))
    ensures
        out.0 == !(r matches Err(LoadFailure::Fatal(_))),
        out.1 is Some <==> (r matches Err(LoadFailure::Fatal(_))),
{
    match r {
        Ok(()) => (true, None),
        Err(LoadFailure::KeptLevel(_)) => (true, None),
        Err(LoadFailure::Fatal(e)) => (false, Some(error_with_context(e, what))),
    }
}

/// What `String::from_utf8_lossy` makes of a byte string: its UTF-8
/// decoding, each invalid sequence replaced by U+FFFD.
pub uninterp spec fn lossy_utf8(bytes: Seq<u8>) -> Seq<char>;

/// `String::from_utf8_lossy`, owned. Its documentation promises the
/// decoding of the bytes with every invalid sequence replaced by U+FFFD;
/// the contract names that result, and states the one case it can spell
/// out: bytes that are valid UTF-8 decode as such.
#[verifier::external_body]
fn utf8_lossy(bytes: &[u8]) -> (r: String)
    ensures
        r@ == lossy_utf8(bytes@),
        valid_utf8(bytes@) ==> r@ == decode_utf8(bytes@),
{
    String::from_utf8_lossy(bytes).into_owned()
}

/// The bytes of an OOB argument with every trailing `\n` and NUL taken off.
pub open spec fn trim_line_end(b: Seq<u8>) -> Seq<u8>
    decreases b.len(),
{
    if b.len() > 0 && (b.last() == 10u8 || b.last() == 0u8) {
        trim_line_end(b.drop_last())
    } else {
        b
    }
}

/// OOB argument text, minus a trailing line terminator. The terminator
/// bytes are ASCII and never part of a multi-byte sequence, so taking them
/// off before the decode leaves the same text as taking the characters off
/// after it.
pub fn oob_arg(rest: &[u8]) -> (r: String)
    ensures
        r@ == lossy_utf8(trim_line_end(rest@)),
        valid_utf8(trim_line_end(rest@)) ==> r@ == decode_utf8(trim_line_end(rest@)),
{
    let mut n = rest.len();
    assert(rest@.take(n as int) =~= rest@);
    while n > 0 && (rest[n - 1] == 10u8 || rest[n - 1] == 0u8)
        invariant
            n <= rest@.len(),
            trim_line_end(rest@.take(n as int)) == trim_line_end(rest@),
        decreases n,
    {
        assert(rest@.take(n as int).drop_last() =~= rest@.take(n - 1));
        n = n - 1;
    }
    let mut kept: Vec<u8> = Vec::new();
    let mut i: usize = 0;
    while i < n
        invariant
            n <= rest@.len(),
            i <= n,
            kept@ == rest@.take(i as int),
        decreases n - i,
    {
        kept.push(rest[i]);
        assert(kept@ =~= rest@.take(i + 1));
        i = i + 1;
    }
    assert(trim_line_end(rest@.take(n as int)) == rest@.take(n as int));
    utf8_lossy(kept.as_slice())
}

/// `mr <serverId> <menuIndex> <response>`: exactly four whitespace-separated
/// arguments, a serverId equal to the live one, and an index that is a slot
/// of the menu range. The response passes through unparsed.
pub open spec fn menu_response_of(cmd: Seq<char>, server_id: i32) -> Option<(i32, Seq<char>)> {
    let t = tokens(cmd);
    if t.len() == 4 && t[0] == "mr"@ && parse_i32_of(t[1]) == Some(server_id) {
        match parse_i32_of(t[2]) {
            Some(index) => if 0 <= index <= MAX_MENUS {
                Some((index, t[3]))
            } else {
                None
            },
            None => None,
        }
    } else {
        None
    }
}

/// `Cmd_MenuResponse_f`'s parse of an `mr` client command: the menu index
/// and the response, or `None` for anything else, including a response for
/// a serverId that is no longer live.
pub fn parse_menu_response(cmd: &str, server_id: i32) -> (r: Option<(i32, String)>)
    ensures
        match r {
            Some((index, response)) => menu_response_of(cmd@, server_id) == Some(
                (index, response@),
            ),
            None => menu_response_of(cmd@, server_id) is None,
        },
{
    proof {
        reveal_strlit("mr");
    }
    let mut t = split_whitespace(cmd);
    if t.len() != 4 || !str_eq(t[0].as_str(), "mr") {
        return None;
    }
    let sid = match parse_i32(t[1].as_str()) {
        Some(v) => v,
        None => return None,
    };
    let index = match parse_i32(t[2].as_str()) {
        Some(v) => v,
        None => return None,
    };
    if sid != server_id || index < 0 || index > MAX_MENUS {
        return None;
    }
    let response = t.pop().unwrap();
    assert(response@ == tokens(cmd@)[3]);
    Some((index, response))
}


/// How many bytes a character takes in UTF-8.
pub open spec fn utf8_width(c: char) -> int {
    if (c as u32) < 0x80 {
        1
    } else if (c as u32) < 0x800 {
        2
    } else if (c as u32) < 0x10000 {
        3
    } else {
        4
    }
}

/// The UTF-8 byte length of a character sequence.
pub open spec fn utf8_total(s: Seq<char>) -> int
    decreases s.len(),
{
    if s.len() == 0 {
        0
    } else {
        utf8_total(s.drop_last()) + utf8_width(s.last())
    }
}

/// The characters with the info-string separators `\` and `"` taken out.
pub open spec fn strip_info_chars(s: Seq<char>) -> Seq<char>
    decreases s.len(),
{
    if s.len() == 0 {
        s
    } else if s.last() == '\\' || s.last() == '"' {
        strip_info_chars(s.drop_last())
    } else {
        strip_info_chars(s.drop_last()).push(s.last())
    }
}

/// How many characters of `s`, from position `i` on, fit in `max` bytes:
/// the first position whose character would take the prefix past `max`.
pub open spec fn fit_count(s: Seq<char>, max: int, i: int) -> int
    decreases s.len() - i,
{
    if i < 0 || i >= s.len() {
        s.len() as int
    } else if utf8_total(s.take(i + 1)) > max {
        i
    } else {
        fit_count(s, max, i + 1)
    }
}

/// `Cmd_Argv(1)` as it goes back out inside an info string: the first
/// whitespace-separated token (empty when there is none), without `\` and
/// `"`, cut before the first character that would take it past 32 bytes.
pub open spec fn challenge_arg_of(arg: Seq<char>) -> Seq<char> {
    let t = tokens(arg);
    let first = if t.len() > 0 {
        t[0]
    } else {
        Seq::<char>::empty()
    };
    let kept = strip_info_chars(first);
    kept.take(fit_count(kept, MAX_CHALLENGE_LEN as int, 0))
}

fn utf8_len(c: char) -> (r: usize)
    ensures
        r == utf8_width(c),
{
    let v = c as u32;
    if v < 0x80 {
        1
    } else if v < 0x800 {
        2
    } else if v < 0x10000 {
        3
    } else {
        4
    }
}

proof fn lemma_fit_count_range(s: Seq<char>, max: int, i: int)
    requires
        0 <= i <= s.len(),
    ensures
        i <= fit_count(s, max, i) <= s.len(),
    decreases s.len() - i,
{
    if i < s.len() {
        lemma_fit_count_range(s, max, i + 1);
    }
}

/// The challenge token a browser query echoes back, sanitized for an info
/// string.
pub fn challenge_arg(arg: &str) -> (r: String)
    ensures
        r@ == challenge_arg_of(arg@),
{
    let t = split_whitespace(arg);
    let ghost first = if t@.len() > 0 {
        t@[0]@
    } else {
        Seq::<char>::empty()
    };
    let empty = String::new();
    let tok: &str = if t.len() > 0 {
        t[0].as_str()
    } else {
        empty.as_str()
    };
    assert(tok@ == first);
    let n = tok.unicode_len();
    let mut kept: Vec<char> = Vec::new();
    let mut i: usize = 0;
    while i < n
        invariant
            n == tok@.len(),
            i <= n,
            kept@ == strip_info_chars(tok@.take(i as int)),
        decreases n - i,
    {
        let c = tok.get_char(i);
        assert(tok@.take(i + 1).drop_last() =~= tok@.take(i as int));
        if c != '\\' && c != '"' {
            kept.push(c);
        }
        i = i + 1;
    }
    assert(tok@.take(n as int) =~= tok@);
    let ghost k = kept@;
    let mut out = String::new();
    let mut total: usize = 0;
    let mut j: usize = 0;
    while j < kept.len()
        invariant
            k == kept@,
            k == strip_info_chars(first),
            j <= k.len(),
            out@ == k.take(j as int),
            total == utf8_total(k.take(j as int)),
            total <= MAX_CHALLENGE_LEN,
            fit_count(k, MAX_CHALLENGE_LEN as int, 0) == fit_count(k, MAX_CHALLENGE_LEN as int, j as int),
        ensures
            j == k.len() || (j < k.len() && utf8_total(k.take(j + 1)) > MAX_CHALLENGE_LEN),
        decreases k.len() - j,
    {
        let c = kept[j];
        let w = utf8_len(c);
        assert(k.take(j + 1).drop_last() =~= k.take(j as int));
        if total + w > MAX_CHALLENGE_LEN {
            break;
        }
        push_char(&mut out, c);
        assert(out@ =~= k.take(j + 1));
        total = total + w;
        j = j + 1;
    }
    proof {
        lemma_fit_count_range(k, MAX_CHALLENGE_LEN as int, j as int);
        if j == k.len() {
            assert(k.take(j as int) =~= k);
        }
    }
    out
}

} // verus!
