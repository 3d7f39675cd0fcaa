//! The line protocol between a second instance (or a desktop shortcut) and
//! the running instance: `TRIGGER <key>` answered by `OK`.
use vstd::prelude::*;
use crate::text::{
    chars_of, contains_chars, contains_seq, copy_str, has_prefix, is_ws, occurs_at, starts_with_chars,
    string_of_range, trim, trim_bounds, trim_end, trim_start,
};

verus! {

/// The local TCP port of the trigger server.
pub const FLICK_TRIGGER_PORT: u16 = 40104;

/// The request line that relays `key`.
pub open spec fn trigger_line(key: Seq<char>) -> Seq<char> {
    "TRIGGER "@ + key + "\n"@
}

/// The key that a received line asks to trigger: the trimmed text after
/// `TRIGGER ` in the trimmed line, when there is such text.
pub open spec fn triggered_key(line: Seq<char>) -> Option<Seq<char>> {
    let t = trim(line);
    if has_prefix(t, "TRIGGER "@) {
        let k = trim(t.subrange(8, t.len() as int));
        if k.len() > 0 {
            Some(k)
        } else {
            None
        }
    } else {
        None
    }
}

/// The request line that relays `key`.
pub fn trigger_message(key: &str) -> (r: String)
    ensures
        r@ == trigger_line(key@),
{
    let mut r = copy_str("TRIGGER ");
    r.append(key);
    r.push('\n');
    proof {
        reveal_strlit("\n");
    }
    assert(r@ =~= trigger_line(key@));
    r
}

/// The key that a line received by the trigger server asks for, if any; the
/// server answers `OK` to a line that gives one.
pub fn triggered_key_of(line: &str) -> (r: Option<String>)
    ensures
        match r {
            Some(k) => triggered_key(line@) == Some(k@),
            None => triggered_key(line@) is None,
        },
{
    proof {
        reveal_strlit("TRIGGER ");
    }
    let cs = chars_of(line);
    let (a, b) = trim_bounds(&cs);
    let t = string_of_range(&cs, a, b);
    let tc = chars_of(t.as_str());
    let prefix = chars_of("TRIGGER ");
    if !starts_with_chars(&tc, &prefix) {
        return None;
    }
    let rest = string_of_range(&tc, 8, tc.len());
    let rc = chars_of(rest.as_str());
    let (c, d) = trim_bounds(&rc);
    if c == d {
        return None;
    }
    Some(string_of_range(&rc, c, d))
}

/// The answer the trigger server sends for a recognised line.
pub fn trigger_ack() -> (r: String)
    ensures
        r@ == "OK\n"@,
{
    copy_str("OK\n")
}

/// Whether the reply to a relayed trigger acknowledges it: it holds `OK`.
pub fn relay_acknowledged(reply: &str) -> (r: bool)
    ensures
        r == contains_seq(reply@, "OK"@),
{
    let rc = chars_of(reply);
    let ok = chars_of("OK");
    contains_chars(&rc, &ok)
}

/// What a relay sends is what the trigger server reads back, for a key that
/// is one line with no surrounding whitespace; and the server's answer is an
/// acknowledgment to the relay.
pub proof fn lemma_relay_round_trip(key: Seq<char>)
    requires
        key.len() > 0,
        !is_ws(key[0]),
        !is_ws(key.last()),
        !key.contains('\n'),
    ensures
        triggered_key(trigger_line(key)) == Some(key),
        contains_seq("OK\n"@, "OK"@),
{
    reveal_strlit("TRIGGER ");
    reveal_strlit("\n");
    reveal_strlit("OK\n");
    reveal_strlit("OK");
    let p = "TRIGGER "@;
    let m = trigger_line(key);
    let pk = p + key;
    assert(m =~= pk.push('\n'));
    assert(trim_start(m) == m);
    assert(m.drop_last() =~= pk);
    assert(trim_end(m) == trim_end(pk));
    assert(pk.last() == key.last());
    assert(trim_end(pk) == pk);
    assert(trim(m) == pk);
    assert(pk.subrange(0, p.len() as int) =~= p);
    assert(has_prefix(pk, p));
    assert(pk.subrange(8, pk.len() as int) =~= key);
    assert(trim_start(key) == key);
    assert(trim_end(key) == key);
    assert("OK\n"@.subrange(0, 2) =~= "OK"@);
    assert(occurs_at("OK\n"@, "OK"@, 0));
}

} // verus!
