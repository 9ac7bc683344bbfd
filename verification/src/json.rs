//! The JSON wire format of the service, stated exactly and produced by
//! verified encoders: a user object is `{"id":N,"username":"S"}` with the
//! username escaped as JSON requires, and a listing is the `[...]` array of
//! the rows in storage order.

use vstd::prelude::*;

use crate::text::{append_dec, dec_rep, push_char};
use crate::user::{views, User};

verus! {

/// The character for one hexadecimal digit (lower case).
pub open spec fn hex_digit(d: int) -> char {
    if d == 0 {
        '0'
    } else if d == 1 {
        '1'
    } else if d == 2 {
        '2'
    } else if d == 3 {
        '3'
    } else if d == 4 {
        '4'
    } else if d == 5 {
        '5'
    } else if d == 6 {
        '6'
    } else if d == 7 {
        '7'
    } else if d == 8 {
        '8'
    } else if d == 9 {
        '9'
    } else if d == 10 {
        'a'
    } else if d == 11 {
        'b'
    } else if d == 12 {
        'c'
    } else if d == 13 {
        'd'
    } else if d == 14 {
        'e'
    } else {
        'f'
    }
}

/// How one character appears inside a JSON string literal: quote and
/// backslash get a backslash escape, the named control characters their
/// short escapes, any other control character a `\u00XX` escape, and
/// everything else stands as itself.
pub open spec fn escape_char_json(c: char) -> Seq<char> {
    if c == '"' {
        "\\\""@
    } else if c == '\\' {
        "\\\\"@
    } else if c == '\n' {
        "\\n"@
    } else if c == '\r' {
        "\\r"@
    } else if c == '\t' {
        "\\t"@
    } else if c == '\u{8}' {
        "\\b"@
    } else if c == '\u{c}' {
        "\\f"@
    } else if (c as u32) < 0x20 {
        "\\u00"@ + seq![hex_digit((c as u32) as int / 16), hex_digit((c as u32) as int % 16)]
    } else {
        seq![c]
    }
}

/// A string, escaped character by character for use inside a JSON string
/// literal.
pub open spec fn escape_json(s: Seq<char>) -> Seq<char>
    decreases s.len(),
{
    if s.len() == 0 {
        Seq::empty()
    } else {
        escape_json(s.drop_last()) + escape_char_json(s.last())
    }
}

/// The JSON object for one user row.
pub open spec fn user_json(id: u64, username: Seq<char>) -> Seq<char> {
    "{\"id\":"@ + dec_rep(id as int) + ",\"username\":\""@ + escape_json(username) + "\"}"@
}

/// The comma-separated objects of a user listing, in order.
pub open spec fn users_json_items(s: Seq<(u64, Seq<char>)>) -> Seq<char>
    decreases s.len(),
{
    if s.len() == 0 {
        Seq::empty()
    } else if s.len() == 1 {
        user_json(s[0].0, s[0].1)
    } else {
        users_json_items(s.drop_last()) + ","@ + user_json(s.last().0, s.last().1)
    }
}

/// The JSON array for a user listing.
pub open spec fn users_json(s: Seq<(u64, Seq<char>)>) -> Seq<char> {
    "["@ + users_json_items(s) + "]"@
}

/// An empty table lists as the empty JSON array `[]` — a well-formed
/// success body, not an error.
pub proof fn lemma_empty_users_json()
    ensures
        users_json(Seq::<(u64, Seq<char>)>::empty()) == "[]"@,
{
    reveal_strlit("[");
    reveal_strlit("]");
    reveal_strlit("[]");
    assert(users_json(Seq::<(u64, Seq<char>)>::empty()) =~= "[]"@);
}

fn hex_char(d: u32) -> (c: char)
    requires
        d < 16,
    ensures
        c == hex_digit(d as int),
{
    if d == 0 {
        '0'
    } else if d == 1 {
        '1'
    } else if d == 2 {
        '2'
    } else if d == 3 {
        '3'
    } else if d == 4 {
        '4'
    } else if d == 5 {
        '5'
    } else if d == 6 {
        '6'
    } else if d == 7 {
        '7'
    } else if d == 8 {
        '8'
    } else if d == 9 {
        '9'
    } else if d == 10 {
        'a'
    } else if d == 11 {
        'b'
    } else if d == 12 {
        'c'
    } else if d == 13 {
        'd'
    } else if d == 14 {
        'e'
    } else {
        'f'
    }
}

/// Appends `s` with every character JSON-escaped.
fn append_escaped_json(out: &mut String, s: &str)
    ensures
        final(out)@ == old(out)@ + escape_json(s@),
{
    let n = s.unicode_len();
    let mut i: usize = 0;
    proof {
        assert(old(out)@ + escape_json(s@.take(0)) =~= old(out)@);
    }
    while i < n
        invariant
            i <= n,
            n == s@.len(),
            out@ == old(out)@ + escape_json(s@.take(i as int)),
        decreases n - i,
    {
        let ghost pre = out@;
        let c = s.get_char(i);
        if c == '"' {
            out.append("\\\"");
        } else if c == '\\' {
            out.append("\\\\");
        } else if c == '\n' {
            out.append("\\n");
        } else if c == '\r' {
            out.append("\\r");
        } else if c == '\t' {
            out.append("\\t");
        } else if c == '\u{8}' {
            out.append("\\b");
        } else if c == '\u{c}' {
            out.append("\\f");
        } else if (c as u32) < 0x20 {
            let v = c as u32;
            out.append("\\u00");
            push_char(out, hex_char(v / 16));
            push_char(out, hex_char(v % 16));
            proof {
                assert(out@ =~= pre + escape_char_json(c));
            }
        } else {
            push_char(out, c);
            proof {
                assert(out@ =~= pre + escape_char_json(c));
            }
        }
        proof {
            assert(s@.take(i as int + 1).drop_last() =~= s@.take(i as int));
            assert(out@ =~= old(out)@ + escape_json(s@.take(i as int + 1)));
        }
        i = i + 1;
    }
    proof {
        assert(s@.take(n as int) =~= s@);
    }
}

/// Appends the JSON object for one user row.
pub(crate) fn append_user_json(out: &mut String, id: u64, username: &str)
    ensures
        final(out)@ == old(out)@ + user_json(id, username@),
{
    out.append("{\"id\":");
    append_dec(out, id);
    out.append(",\"username\":\"");
    append_escaped_json(out, username);
    out.append("\"}");
    proof {
        assert(out@ =~= old(out)@ + user_json(id, username@));
    }
}

/// The JSON object for one user row, as a string.
pub fn user_json_string(id: u64, username: &str) -> (r: String)
    ensures
        r@ == user_json(id, username@),
{
    let mut out = String::new();
    append_user_json(&mut out, id, username);
    proof {
        assert(out@ =~= user_json(id, username@));
    }
    out
}

/// The JSON array listing the given users, in order.
pub fn users_json_string(users: &Vec<User>) -> (r: String)
    ensures
        r@ == users_json(views(users@)),
{
    let mut out = String::from_str("[");
    let n = users.len();
    let mut i: usize = 0;
    proof {
        assert(out@ =~= "["@ + users_json_items(views(users@).take(0)));
    }
    while i < n
        invariant
            i <= n,
            n == users@.len(),
            out@ == "["@ + users_json_items(views(users@).take(i as int)),
        decreases n - i,
    {
        let ghost pre = out@;
        if i > 0 {
            out.append(",");
        }
        let u = &users[i];
        append_user_json(&mut out, u.id, u.username.as_str());
        proof {
            let vs = views(users@);
            assert(vs.take(i as int + 1).drop_last() =~= vs.take(i as int));
            assert(vs.take(i as int + 1).last() == users@[i as int]@);
            assert(out@ =~= "["@ + users_json_items(vs.take(i as int + 1)));
        }
        i = i + 1;
    }
    out.append("]");
    proof {
        assert(views(users@).take(n as int) =~= views(users@));
        assert(out@ =~= users_json(views(users@)));
    }
    out
}

} // verus!
