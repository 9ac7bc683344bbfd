//! The request body accepted by the create endpoint, stated exactly and
//! read by a verified parser: a JSON object that carries exactly one
//! member whose decoded name is `username` and whose value is a JSON
//! string. Other members are accepted and skipped, whatever well-formed
//! JSON value they hold; a repeated `username` member is rejected.
//! String values and member names decode the short backslash escapes and
//! `\uXXXX` escapes, with surrogates required to pair; in skipped values
//! a `\uXXXX` escape needs only its four hex digits. Whitespace between
//! tokens is allowed. Anything else is rejected.

use vstd::prelude::*;

use crate::text::push_char;

verus! {

/// The whitespace JSON allows between tokens.
pub open spec fn is_json_ws(c: char) -> bool {
    c == ' ' || c == '\n' || c == '\r' || c == '\t'
}

/// The first position at or after `i` holding no JSON whitespace.
pub open spec fn skip_ws(s: Seq<char>, i: int) -> int
    decreases s.len() - i,
{
    if 0 <= i < s.len() && is_json_ws(s[i]) {
        skip_ws(s, i + 1)
    } else {
        i
    }
}

proof fn lemma_skip_ws_bounds(s: Seq<char>, i: int)
    requires
        0 <= i <= s.len(),
    ensures
        i <= skip_ws(s, i) <= s.len(),
    decreases s.len() - i,
{
    if i < s.len() && is_json_ws(s[i]) {
        lemma_skip_ws_bounds(s, i + 1);
    }
}

/// The character a short backslash escape stands for, if the character
/// after the backslash is a valid one.
pub open spec fn unescape_char(c: char) -> Option<char> {
    if c == '"' {
        Some('"')
    } else if c == '\\' {
        Some('\\')
    } else if c == '/' {
        Some('/')
    } else if c == 'n' {
        Some('\n')
    } else if c == 't' {
        Some('\t')
    } else if c == 'r' {
        Some('\r')
    } else if c == 'b' {
        Some('\u{8}')
    } else if c == 'f' {
        Some('\u{c}')
    } else {
        None
    }
}

/// The value of one hexadecimal digit, upper or lower case.
pub open spec fn hex_val(c: char) -> Option<int> {
    if 48 <= (c as u32) && (c as u32) <= 57 {
        Some((c as u32) - 48)
    } else if 97 <= (c as u32) && (c as u32) <= 102 {
        Some((c as u32) - 87)
    } else if 65 <= (c as u32) && (c as u32) <= 70 {
        Some((c as u32) - 55)
    } else {
        None
    }
}

/// The value of the four hexadecimal digits starting at `i`, if all four
/// are there and are hexadecimal digits.
pub open spec fn hex4(s: Seq<char>, i: int) -> Option<int> {
    if 0 <= i && i + 4 <= s.len() && hex_val(s[i]) is Some && hex_val(s[i + 1]) is Some && hex_val(
        s[i + 2],
    ) is Some && hex_val(s[i + 3]) is Some {
        Some(
            hex_val(s[i]).unwrap() * 4096 + hex_val(s[i + 1]).unwrap() * 256 + hex_val(
                s[i + 2],
            ).unwrap() * 16 + hex_val(s[i + 3]).unwrap(),
        )
    } else {
        None
    }
}

/// The code of a character.
pub open spec fn char_code(c: char) -> int {
    c as u32 as int
}

/// The character with the given code.
pub open spec fn char_of(v: int) -> char {
    choose|c: char| char_code(c) == v
}

/// Reads a JSON string body starting at `i` (just after the opening
/// quote): the decoded characters and the position just after the closing
/// quote, or nothing if the input ends, holds a bare control character,
/// uses an escape this grammar does not know, or uses a `\uXXXX` escape
/// whose surrogates do not pair.
pub open spec fn scan_string(s: Seq<char>, i: int) -> Option<(Seq<char>, int)>
    decreases s.len() - i,
{
    if i < 0 || i >= s.len() {
        None
    } else if s[i] == '"' {
        Some((Seq::empty(), i + 1))
    } else if s[i] == '\\' {
        if i + 1 < s.len() {
            if s[i + 1] == 'u' {
                match hex4(s, i + 2) {
                    Some(v) => if 0xDC00 <= v && v < 0xE000 {
                        None
                    } else if 0xD800 <= v && v < 0xDC00 {
                        if i + 12 <= s.len() && s[i + 6] == '\\' && s[i + 7] == 'u' {
                            match hex4(s, i + 8) {
                                Some(w) => if 0xDC00 <= w && w < 0xE000 {
                                    match scan_string(s, i + 12) {
                                        Some(p) => Some(
                                            (
                                                seq![
                                                    char_of(
                                                        0x10000 + (v - 0xD800) * 0x400 + (w
                                                            - 0xDC00),
                                                    ),
                                                ] + p.0,
                                                p.1,
                                            ),
                                        ),
                                        None => None,
                                    }
                                } else {
                                    None
                                },
                                None => None,
                            }
                        } else {
                            None
                        }
                    } else {
                        match scan_string(s, i + 6) {
                            Some(p) => Some((seq![char_of(v)] + p.0, p.1)),
                            None => None,
                        }
                    },
                    None => None,
                }
            } else {
                match unescape_char(s[i + 1]) {
                    Some(c) => match scan_string(s, i + 2) {
                        Some(p) => Some((seq![c] + p.0, p.1)),
                        None => None,
                    },
                    None => None,
                }
            }
        } else {
            None
        }
    } else if (s[i] as u32) < 0x20 {
        None
    } else {
        match scan_string(s, i + 1) {
            Some(p) => Some((seq![s[i]] + p.0, p.1)),
            None => None,
        }
    }
}

proof fn lemma_scan_string_end(s: Seq<char>, i: int)
    ensures
        scan_string(s, i) matches Some(p) ==> 0 <= i && i < p.1 <= s.len(),
    decreases s.len() - i,
{
    if 0 <= i && i < s.len() {
        if s[i] == '\\' && i + 1 < s.len() {
            if s[i + 1] == 'u' {
                if hex4(s, i + 2) is Some {
                    if i + 12 <= s.len() {
                        lemma_scan_string_end(s, i + 12);
                    }
                    if i + 6 <= s.len() {
                        lemma_scan_string_end(s, i + 6);
                    }
                }
            } else {
                lemma_scan_string_end(s, i + 2);
            }
        }
        lemma_scan_string_end(s, i + 1);
    }
}

/// What encloses the position while an unknown member's value is being
/// skipped.
#[derive(Clone, Copy)]
pub enum Ctx {
    InObject,
    InArray,
}

/// Where the skipper stands inside an unknown member's value: between
/// tokens, inside a string or an escape, or inside a number.
#[derive(Clone, Copy)]
pub enum SkipState {
    Value,
    FirstKey,
    Key,
    Colon,
    After,
    FirstItem,
    Str { key: bool },
    StrEsc { key: bool },
    StrHex { key: bool, left: u8 },
    NumNeg,
    NumZero,
    NumInt,
    NumDot,
    NumFrac,
    NumExpSign,
    NumExpFirst,
    NumExpMore,
}

/// Orders the states that can follow each other without consuming a
/// character, so the skipper's recursion is seen to bottom out.
pub open spec fn skip_phase(st: SkipState) -> int {
    match st {
        SkipState::After => 0,
        SkipState::Value => 1,
        _ => 2,
    }
}

/// Whether the skipper's state can only occur inside a container, so
/// that the enclosing-container stack is not empty.
pub open spec fn needs_ctx(st: SkipState) -> bool {
    match st {
        SkipState::FirstKey => true,
        SkipState::Key => true,
        SkipState::Colon => true,
        SkipState::FirstItem => true,
        SkipState::Str { key } => key,
        SkipState::StrEsc { key } => key,
        SkipState::StrHex { key, left } => key,
        _ => false,
    }
}

/// Whether `c` is a decimal digit.
pub open spec fn is_digit(c: char) -> bool {
    48 <= (c as u32) && (c as u32) <= 57
}

/// Skips one well-formed JSON value starting at `i` in state `st` under
/// the enclosing containers `ctx`: the position just after the value, or
/// nothing if the input is not well-formed JSON there. As when the
/// original ignored an unknown member, a `\uXXXX` escape inside a skipped
/// string needs only its four hex digits.
pub open spec fn skip_json(s: Seq<char>, i: int, st: SkipState, ctx: Seq<Ctx>) -> Option<int>
    decreases s.len() - i, skip_phase(st),
{
    if i < 0 || i > s.len() {
        None
    } else if st is After && ctx.len() == 0 {
        Some(i)
    } else if i == s.len() {
        None
    } else {
        let c = s[i];
        match st {
            SkipState::Value => if is_json_ws(c) {
                skip_json(s, i + 1, SkipState::Value, ctx)
            } else if c == '"' {
                skip_json(s, i + 1, SkipState::Str { key: false }, ctx)
            } else if c == '{' {
                skip_json(s, i + 1, SkipState::FirstKey, ctx.push(Ctx::InObject))
            } else if c == '[' {
                skip_json(s, i + 1, SkipState::FirstItem, ctx.push(Ctx::InArray))
            } else if c == 't' {
                if i + 4 <= s.len() && s[i + 1] == 'r' && s[i + 2] == 'u' && s[i + 3] == 'e' {
                    skip_json(s, i + 4, SkipState::After, ctx)
                } else {
                    None
                }
            } else if c == 'f' {
                if i + 5 <= s.len() && s[i + 1] == 'a' && s[i + 2] == 'l' && s[i + 3] == 's' && s[i
                    + 4] == 'e' {
                    skip_json(s, i + 5, SkipState::After, ctx)
                } else {
                    None
                }
            } else if c == 'n' {
                if i + 4 <= s.len() && s[i + 1] == 'u' && s[i + 2] == 'l' && s[i + 3] == 'l' {
                    skip_json(s, i + 4, SkipState::After, ctx)
                } else {
                    None
                }
            } else if c == '-' {
                skip_json(s, i + 1, SkipState::NumNeg, ctx)
            } else if c == '0' {
                skip_json(s, i + 1, SkipState::NumZero, ctx)
            } else if 49 <= (c as u32) && (c as u32) <= 57 {
                skip_json(s, i + 1, SkipState::NumInt, ctx)
            } else {
                None
            },
            SkipState::FirstKey => if is_json_ws(c) {
                skip_json(s, i + 1, SkipState::FirstKey, ctx)
            } else if c == '}' {
                skip_json(s, i + 1, SkipState::After, ctx.drop_last())
            } else if c == '"' {
                skip_json(s, i + 1, SkipState::Str { key: true }, ctx)
            } else {
                None
            },
            SkipState::Key => if is_json_ws(c) {
                skip_json(s, i + 1, SkipState::Key, ctx)
            } else if c == '"' {
                skip_json(s, i + 1, SkipState::Str { key: true }, ctx)
            } else {
                None
            },
            SkipState::Colon => if is_json_ws(c) {
                skip_json(s, i + 1, SkipState::Colon, ctx)
            } else if c == ':' {
                skip_json(s, i + 1, SkipState::Value, ctx)
            } else {
                None
            },
            SkipState::After => if is_json_ws(c) {
                skip_json(s, i + 1, SkipState::After, ctx)
            } else if ctx.last() is InObject {
                if c == ',' {
                    skip_json(s, i + 1, SkipState::Key, ctx)
                } else if c == '}' {
                    skip_json(s, i + 1, SkipState::After, ctx.drop_last())
                } else {
                    None
                }
            } else {
                if c == ',' {
                    skip_json(s, i + 1, SkipState::Value, ctx)
                } else if c == ']' {
                    skip_json(s, i + 1, SkipState::After, ctx.drop_last())
                } else {
                    None
                }
            },
            SkipState::FirstItem => if is_json_ws(c) {
                skip_json(s, i + 1, SkipState::FirstItem, ctx)
            } else if c == ']' {
                skip_json(s, i + 1, SkipState::After, ctx.drop_last())
            } else {
                skip_json(s, i, SkipState::Value, ctx)
            },
            SkipState::Str { key } => if c == '"' {
                if key {
                    skip_json(s, i + 1, SkipState::Colon, ctx)
                } else {
                    skip_json(s, i + 1, SkipState::After, ctx)
                }
            } else if c == '\\' {
                skip_json(s, i + 1, SkipState::StrEsc { key }, ctx)
            } else if (c as u32) < 0x20 {
                None
            } else {
                skip_json(s, i + 1, SkipState::Str { key }, ctx)
            },
            SkipState::StrEsc { key } => if c == 'u' {
                skip_json(s, i + 1, SkipState::StrHex { key, left: 4 }, ctx)
            } else if unescape_char(c) is Some {
                skip_json(s, i + 1, SkipState::Str { key }, ctx)
            } else {
                None
            },
            SkipState::StrHex { key, left } => if hex_val(c) is Some {
                if left <= 1 {
                    skip_json(s, i + 1, SkipState::Str { key }, ctx)
                } else {
                    skip_json(s, i + 1, SkipState::StrHex { key, left: (left - 1) as u8 }, ctx)
                }
            } else {
                None
            },
            SkipState::NumNeg => if is_digit(c) {
                if c == '0' {
                    skip_json(s, i + 1, SkipState::NumZero, ctx)
                } else {
                    skip_json(s, i + 1, SkipState::NumInt, ctx)
                }
            } else {
                None
            },
            SkipState::NumZero => if c == '.' {
                skip_json(s, i + 1, SkipState::NumDot, ctx)
            } else if c == 'e' || c == 'E' {
                skip_json(s, i + 1, SkipState::NumExpSign, ctx)
            } else {
                skip_json(s, i, SkipState::After, ctx)
            },
            SkipState::NumInt => if is_digit(c) {
                skip_json(s, i + 1, SkipState::NumInt, ctx)
            } else if c == '.' {
                skip_json(s, i + 1, SkipState::NumDot, ctx)
            } else if c == 'e' || c == 'E' {
                skip_json(s, i + 1, SkipState::NumExpSign, ctx)
            } else {
                skip_json(s, i, SkipState::After, ctx)
            },
            SkipState::NumDot => if is_digit(c) {
                skip_json(s, i + 1, SkipState::NumFrac, ctx)
            } else {
                None
            },
            SkipState::NumFrac => if is_digit(c) {
                skip_json(s, i + 1, SkipState::NumFrac, ctx)
            } else if c == 'e' || c == 'E' {
                skip_json(s, i + 1, SkipState::NumExpSign, ctx)
            } else {
                skip_json(s, i, SkipState::After, ctx)
            },
            SkipState::NumExpSign => if c == '+' || c == '-' {
                skip_json(s, i + 1, SkipState::NumExpFirst, ctx)
            } else if is_digit(c) {
                skip_json(s, i + 1, SkipState::NumExpMore, ctx)
            } else {
                None
            },
            SkipState::NumExpFirst => if is_digit(c) {
                skip_json(s, i + 1, SkipState::NumExpMore, ctx)
            } else {
                None
            },
            SkipState::NumExpMore => if is_digit(c) {
                skip_json(s, i + 1, SkipState::NumExpMore, ctx)
            } else {
                skip_json(s, i, SkipState::After, ctx)
            },
        }
    }
}

proof fn lemma_skip_json_end(s: Seq<char>, i: int, st: SkipState, ctx: Seq<Ctx>)
    ensures
        skip_json(s, i, st, ctx) matches Some(j) ==> i <= j <= s.len(),
    decreases s.len() - i, skip_phase(st),
{
    if 0 <= i && i < s.len() {
        match st {
            SkipState::Value => {
                lemma_skip_json_end(s, i + 1, SkipState::Value, ctx);
                lemma_skip_json_end(s, i + 1, SkipState::Str { key: false }, ctx);
                lemma_skip_json_end(s, i + 1, SkipState::FirstKey, ctx.push(Ctx::InObject));
                lemma_skip_json_end(s, i + 1, SkipState::FirstItem, ctx.push(Ctx::InArray));
                if i + 4 <= s.len() {
                    lemma_skip_json_end(s, i + 4, SkipState::After, ctx);
                }
                if i + 5 <= s.len() {
                    lemma_skip_json_end(s, i + 5, SkipState::After, ctx);
                }
                lemma_skip_json_end(s, i + 1, SkipState::NumNeg, ctx);
                lemma_skip_json_end(s, i + 1, SkipState::NumZero, ctx);
                lemma_skip_json_end(s, i + 1, SkipState::NumInt, ctx);
            },
            SkipState::FirstKey => {
                lemma_skip_json_end(s, i + 1, SkipState::FirstKey, ctx);
                lemma_skip_json_end(s, i + 1, SkipState::After, ctx.drop_last());
                lemma_skip_json_end(s, i + 1, SkipState::Str { key: true }, ctx);
            },
            SkipState::Key => {
                lemma_skip_json_end(s, i + 1, SkipState::Key, ctx);
                lemma_skip_json_end(s, i + 1, SkipState::Str { key: true }, ctx);
            },
            SkipState::Colon => {
                lemma_skip_json_end(s, i + 1, SkipState::Colon, ctx);
                lemma_skip_json_end(s, i + 1, SkipState::Value, ctx);
            },
            SkipState::After => {
                lemma_skip_json_end(s, i + 1, SkipState::After, ctx);
                lemma_skip_json_end(s, i + 1, SkipState::Key, ctx);
                lemma_skip_json_end(s, i + 1, SkipState::After, ctx.drop_last());
                lemma_skip_json_end(s, i + 1, SkipState::Value, ctx);
            },
            SkipState::FirstItem => {
                lemma_skip_json_end(s, i + 1, SkipState::FirstItem, ctx);
                lemma_skip_json_end(s, i + 1, SkipState::After, ctx.drop_last());
                lemma_skip_json_end(s, i, SkipState::Value, ctx);
            },
            SkipState::Str { key } => {
                lemma_skip_json_end(s, i + 1, SkipState::Colon, ctx);
                lemma_skip_json_end(s, i + 1, SkipState::After, ctx);
                lemma_skip_json_end(s, i + 1, SkipState::StrEsc { key }, ctx);
                lemma_skip_json_end(s, i + 1, SkipState::Str { key }, ctx);
            },
            SkipState::StrEsc { key } => {
                lemma_skip_json_end(s, i + 1, SkipState::StrHex { key, left: 4 }, ctx);
                lemma_skip_json_end(s, i + 1, SkipState::Str { key }, ctx);
            },
            SkipState::StrHex { key, left } => {
                lemma_skip_json_end(s, i + 1, SkipState::Str { key }, ctx);
                if left > 1 {
                    lemma_skip_json_end(
                        s,
                        i + 1,
                        SkipState::StrHex { key, left: (left - 1) as u8 },
                        ctx,
                    );
                }
            },
            SkipState::NumNeg => {
                lemma_skip_json_end(s, i + 1, SkipState::NumZero, ctx);
                lemma_skip_json_end(s, i + 1, SkipState::NumInt, ctx);
            },
            SkipState::NumZero => {
                lemma_skip_json_end(s, i + 1, SkipState::NumDot, ctx);
                lemma_skip_json_end(s, i + 1, SkipState::NumExpSign, ctx);
                lemma_skip_json_end(s, i, SkipState::After, ctx);
            },
            SkipState::NumInt => {
                lemma_skip_json_end(s, i + 1, SkipState::NumInt, ctx);
                lemma_skip_json_end(s, i + 1, SkipState::NumDot, ctx);
                lemma_skip_json_end(s, i + 1, SkipState::NumExpSign, ctx);
                lemma_skip_json_end(s, i, SkipState::After, ctx);
            },
            SkipState::NumDot => {
                lemma_skip_json_end(s, i + 1, SkipState::NumFrac, ctx);
            },
            SkipState::NumFrac => {
                lemma_skip_json_end(s, i + 1, SkipState::NumFrac, ctx);
                lemma_skip_json_end(s, i + 1, SkipState::NumExpSign, ctx);
                lemma_skip_json_end(s, i, SkipState::After, ctx);
            },
            SkipState::NumExpSign => {
                lemma_skip_json_end(s, i + 1, SkipState::NumExpFirst, ctx);
                lemma_skip_json_end(s, i + 1, SkipState::NumExpMore, ctx);
            },
            SkipState::NumExpFirst => {
                lemma_skip_json_end(s, i + 1, SkipState::NumExpMore, ctx);
            },
            SkipState::NumExpMore => {
                lemma_skip_json_end(s, i + 1, SkipState::NumExpMore, ctx);
                lemma_skip_json_end(s, i, SkipState::After, ctx);
            },
        }
    }
}

/// Reads the members of the request object from `i` (at or before a
/// member name): the username the object carries and the position just
/// after the closing brace, or nothing. `found` carries a username read
/// earlier in the object; a second `username` member is rejected, a
/// member with any other name is skipped.
pub open spec fn members(s: Seq<char>, i: int, found: Option<Seq<char>>) -> Option<
    (Seq<char>, int),
>
    decreases s.len() - i,
    via members_decreases
{
    let k = skip_ws(s, i);
    if k < s.len() && s[k] == '"' {
        match scan_string(s, k + 1) {
            Some(kp) => {
                let c = skip_ws(s, kp.1);
                if c < s.len() && s[c] == ':' {
                    let v = skip_ws(s, c + 1);
                    if kp.0 == "username"@ {
                        if found is Some {
                            None
                        } else if v < s.len() && s[v] == '"' {
                            match scan_string(s, v + 1) {
                                Some(np) => after_member(s, np.1, Some(np.0)),
                                None => None,
                            }
                        } else {
                            None
                        }
                    } else {
                        match skip_json(s, v, SkipState::Value, Seq::empty()) {
                            Some(e) => after_member(s, e, found),
                            None => None,
                        }
                    }
                } else {
                    None
                }
            },
            None => None,
        }
    } else {
        None
    }
}

/// Reads what follows a member's value: a comma and the next member, or
/// the closing brace, which ends the object and requires that a username
/// was found.
pub open spec fn after_member(s: Seq<char>, i: int, found: Option<Seq<char>>) -> Option<
    (Seq<char>, int),
>
    decreases s.len() - i,
    via after_member_decreases
{
    let t = skip_ws(s, i);
    if t < s.len() {
        if s[t] == ',' {
            members(s, t + 1, found)
        } else if s[t] == '}' {
            match found {
                Some(name) => Some((name, t + 1)),
                None => None,
            }
        } else {
            None
        }
    } else {
        None
    }
}

#[via_fn]
proof fn members_decreases(s: Seq<char>, i: int, found: Option<Seq<char>>) {
    if 0 <= i && i <= s.len() {
        lemma_skip_ws_bounds(s, i);
    }
    let k = skip_ws(s, i);
    lemma_scan_string_end(s, k + 1);
    match scan_string(s, k + 1) {
        Some(kp) => {
            lemma_skip_ws_bounds(s, kp.1);
            let c = skip_ws(s, kp.1);
            if 0 <= c + 1 && c + 1 <= s.len() {
                lemma_skip_ws_bounds(s, c + 1);
            }
            let v = skip_ws(s, c + 1);
            lemma_scan_string_end(s, v + 1);
            lemma_skip_json_end(s, v, SkipState::Value, Seq::empty());
        },
        None => {},
    }
}

#[via_fn]
proof fn after_member_decreases(s: Seq<char>, i: int, found: Option<Seq<char>>) {
    if 0 <= i && i <= s.len() {
        lemma_skip_ws_bounds(s, i);
    }
}

/// The username carried by a well-formed create request body, or nothing
/// if the body does not match the grammar: a JSON object holding exactly
/// one `username` member, whose value is a string, among any other
/// members, with nothing but whitespace after it.
pub open spec fn parse_create(s: Seq<char>) -> Option<Seq<char>> {
    let i0 = skip_ws(s, 0);
    if i0 < s.len() && s[i0] == '{' {
        let k = skip_ws(s, i0 + 1);
        if k < s.len() && s[k] == '}' {
            None
        } else {
            match members(s, i0 + 1, None) {
                Some(p) => if skip_ws(s, p.1) == s.len() {
                    Some(p.0)
                } else {
                    None
                },
                None => None,
            }
        }
    } else {
        None
    }
}

fn skip_ws_exec(s: &str, i: usize, n: usize) -> (j: usize)
    requires
        n == s@.len(),
        i <= n,
    ensures
        j as int == skip_ws(s@, i as int),
        i <= j <= n,
    decreases n - i,
{
    if i < n {
        let c = s.get_char(i);
        if c == ' ' || c == '\n' || c == '\r' || c == '\t' {
            return skip_ws_exec(s, i + 1, n);
        }
    }
    i
}

fn unescape_char_exec(c: char) -> (r: Option<char>)
    ensures
        r == unescape_char(c),
{
    if c == '"' {
        Some('"')
    } else if c == '\\' {
        Some('\\')
    } else if c == '/' {
        Some('/')
    } else if c == 'n' {
        Some('\n')
    } else if c == 't' {
        Some('\t')
    } else if c == 'r' {
        Some('\r')
    } else if c == 'b' {
        Some('\u{8}')
    } else if c == 'f' {
        Some('\u{c}')
    } else {
        None
    }
}

fn hex_val_exec(c: char) -> (r: Option<u32>)
    ensures
        r is Some <==> hex_val(c) is Some,
        r is Some ==> r.unwrap() as int == hex_val(c).unwrap() && r.unwrap() < 16,
{
    let v = c as u32;
    if 48 <= v && v <= 57 {
        Some(v - 48)
    } else if 97 <= v && v <= 102 {
        Some(v - 87)
    } else if 65 <= v && v <= 70 {
        Some(v - 55)
    } else {
        None
    }
}

fn hex4_exec(s: &str, i: usize, n: usize) -> (r: Option<u32>)
    requires
        n == s@.len(),
        i + 4 <= n,
    ensures
        r is Some <==> hex4(s@, i as int) is Some,
        r is Some ==> r.unwrap() as int == hex4(s@, i as int).unwrap() && r.unwrap() < 0x10000,
{
    let a = hex_val_exec(s.get_char(i));
    let b = hex_val_exec(s.get_char(i + 1));
    let c = hex_val_exec(s.get_char(i + 2));
    let d = hex_val_exec(s.get_char(i + 3));
    match (a, b, c, d) {
        (Some(a), Some(b), Some(c), Some(d)) => Some(a * 4096 + b * 256 + c * 16 + d),
        _ => None,
    }
}

/// Relies on std's `char::from_u32`: for a code that is a Unicode scalar
/// value it returns the character with exactly that code.
#[verifier::external_body]
fn char_from_code(v: u32) -> (c: char)
    requires
        v < 0xD800 || (0xE000 <= v && v <= 0x10FFFF),
    ensures
        c as u32 == v,
{
    char::from_u32(v).unwrap()
}

fn scan_string_exec(s: &str, i: usize, n: usize, out: &mut String) -> (r: Option<usize>)
    requires
        n == s@.len(),
        i <= n,
    ensures
        r is Some <==> scan_string(s@, i as int) is Some,
        r is Some ==> ({
            let p = scan_string(s@, i as int).unwrap();
            &&& r.unwrap() as int == p.1
            &&& i < p.1 <= n
            &&& final(out)@ == old(out)@ + p.0
        }),
    decreases n - i,
{
    if i >= n {
        return None;
    }
    let c = s.get_char(i);
    if c == '"' {
        proof {
            assert(old(out)@ + Seq::<char>::empty() =~= old(out)@);
        }
        return Some(i + 1);
    }
    if c == '\\' {
        if i + 1 >= n {
            return None;
        }
        let e = s.get_char(i + 1);
        if e == 'u' {
            if n - i < 6 {
                return None;
            }
            match hex4_exec(s, i + 2, n) {
                None => None,
                Some(v) => {
                    if 0xDC00 <= v && v < 0xE000 {
                        return None;
                    }
                    if 0xD800 <= v && v < 0xDC00 {
                        if n - i < 12 {
                            return None;
                        }
                        if s.get_char(i + 6) != '\\' || s.get_char(i + 7) != 'u' {
                            return None;
                        }
                        match hex4_exec(s, i + 8, n) {
                            None => None,
                            Some(w) => {
                                if !(0xDC00 <= w && w < 0xE000) {
                                    return None;
                                }
                                let code: u32 = 0x10000 + (v - 0xD800) * 0x400 + (w - 0xDC00);
                                let ghost pre: Seq<char> = out@;
                                let uc = char_from_code(code);
                                proof {
                                    assert(char_code(uc) == code as int);
                                    assert(char_code(char_of(code as int)) == code as int);
                                    assert(char_of(code as int) == uc);
                                }
                                push_char(out, uc);
                                match scan_string_exec(s, i + 12, n, out) {
                                    None => None,
                                    Some(j) => {
                                        proof {
                                            let p = scan_string(s@, i as int + 12).unwrap();
                                            assert(pre.push(uc) + p.0 =~= pre + (seq![uc] + p.0));
                                        }
                                        Some(j)
                                    },
                                }
                            },
                        }
                    } else {
                        let ghost pre: Seq<char> = out@;
                        let uc = char_from_code(v);
                        proof {
                            assert(char_code(uc) == v as int);
                            assert(char_code(char_of(v as int)) == v as int);
                            assert(char_of(v as int) == uc);
                        }
                        push_char(out, uc);
                        match scan_string_exec(s, i + 6, n, out) {
                            None => None,
                            Some(j) => {
                                proof {
                                    let p = scan_string(s@, i as int + 6).unwrap();
                                    assert(pre.push(uc) + p.0 =~= pre + (seq![uc] + p.0));
                                }
                                Some(j)
                            },
                        }
                    }
                },
            }
        } else {
            match unescape_char_exec(e) {
                None => None,
                Some(uc) => {
                    let ghost pre: Seq<char> = out@;
                    push_char(out, uc);
                    match scan_string_exec(s, i + 2, n, out) {
                        None => None,
                        Some(j) => {
                            proof {
                                let p = scan_string(s@, i as int + 2).unwrap();
                                assert(pre.push(uc) + p.0 =~= pre + (seq![uc] + p.0));
                            }
                            Some(j)
                        },
                    }
                },
            }
        }
    } else if (c as u32) < 0x20 {
        None
    } else {
        let ghost pre: Seq<char> = out@;
        push_char(out, c);
        match scan_string_exec(s, i + 1, n, out) {
            None => None,
            Some(j) => {
                proof {
                    let p = scan_string(s@, i as int + 1).unwrap();
                    assert(pre.push(c) + p.0 =~= pre + (seq![c] + p.0));
                }
                Some(j)
            },
        }
    }
}

fn is_ws_exec(c: char) -> (r: bool)
    ensures
        r == is_json_ws(c),
{
    c == ' ' || c == '\n' || c == '\r' || c == '\t'
}

fn is_digit_exec(c: char) -> (r: bool)
    ensures
        r == is_digit(c),
{
    let v = c as u32;
    48 <= v && v <= 57
}

fn skip_json_exec(s: &str, start: usize, n: usize) -> (r: Option<usize>)
    requires
        n == s@.len(),
        start <= n,
    ensures
        r is Some <==> skip_json(s@, start as int, SkipState::Value, Seq::empty()) is Some,
        r is Some ==> r.unwrap() as int == skip_json(
            s@,
            start as int,
            SkipState::Value,
            Seq::empty(),
        ).unwrap() && start <= r.unwrap() <= n,
{
    let mut i: usize = start;
    let mut st: SkipState = SkipState::Value;
    let mut ctx: Vec<Ctx> = Vec::new();
    proof {
        assert(ctx@ =~= Seq::<Ctx>::empty());
    }
    loop
        invariant
            start <= i <= n,
            n == s@.len(),
            needs_ctx(st) ==> ctx@.len() > 0,
            skip_json(s@, i as int, st, ctx@) == skip_json(
                s@,
                start as int,
                SkipState::Value,
                Seq::empty(),
            ),
        decreases n - i, skip_phase(st),
    {
        let ghost pre_ctx: Seq<Ctx> = ctx@;
        match st {
            SkipState::After => {
                if ctx.len() == 0 {
                    return Some(i);
                }
                if i == n {
                    return None;
                }
                let c = s.get_char(i);
                if is_ws_exec(c) {
                    i = i + 1;
                } else {
                    let top = ctx[ctx.len() - 1];
                    match top {
                        Ctx::InObject => {
                            if c == ',' {
                                st = SkipState::Key;
                                i = i + 1;
                            } else if c == '}' {
                                let _popped = ctx.pop();
                                proof {
                                    assert(ctx@ =~= pre_ctx.drop_last());
                                }
                                i = i + 1;
                            } else {
                                return None;
                            }
                        },
                        Ctx::InArray => {
                            if c == ',' {
                                st = SkipState::Value;
                                i = i + 1;
                            } else if c == ']' {
                                let _popped = ctx.pop();
                                proof {
                                    assert(ctx@ =~= pre_ctx.drop_last());
                                }
                                i = i + 1;
                            } else {
                                return None;
                            }
                        },
                    }
                }
            },
            SkipState::Value => {
                if i == n {
                    return None;
                }
                let c = s.get_char(i);
                if is_ws_exec(c) {
                    i = i + 1;
                } else if c == '"' {
                    st = SkipState::Str { key: false };
                    i = i + 1;
                } else if c == '{' {
                    ctx.push(Ctx::InObject);
                    st = SkipState::FirstKey;
                    i = i + 1;
                } else if c == '[' {
                    ctx.push(Ctx::InArray);
                    st = SkipState::FirstItem;
                    i = i + 1;
                } else if c == 't' {
                    if n - i >= 4 && s.get_char(i + 1) == 'r' && s.get_char(i + 2) == 'u'
                        && s.get_char(i + 3) == 'e' {
                        st = SkipState::After;
                        i = i + 4;
                    } else {
                        return None;
                    }
                } else if c == 'f' {
                    if n - i >= 5 && s.get_char(i + 1) == 'a' && s.get_char(i + 2) == 'l'
                        && s.get_char(i + 3) == 's' && s.get_char(i + 4) == 'e' {
                        st = SkipState::After;
                        i = i + 5;
                    } else {
                        return None;
                    }
                } else if c == 'n' {
                    if n - i >= 4 && s.get_char(i + 1) == 'u' && s.get_char(i + 2) == 'l'
                        && s.get_char(i + 3) == 'l' {
                        st = SkipState::After;
                        i = i + 4;
                    } else {
                        return None;
                    }
                } else if c == '-' {
                    st = SkipState::NumNeg;
                    i = i + 1;
                } else if c == '0' {
                    st = SkipState::NumZero;
                    i = i + 1;
                } else if 49 <= (c as u32) && (c as u32) <= 57 {
                    st = SkipState::NumInt;
                    i = i + 1;
                } else {
                    return None;
                }
            },
            SkipState::FirstKey => {
                if i == n {
                    return None;
                }
                let c = s.get_char(i);
                if is_ws_exec(c) {
                    i = i + 1;
                } else if c == '}' {
                    let _popped = ctx.pop();
                    proof {
                        assert(ctx@ =~= pre_ctx.drop_last());
                    }
                    st = SkipState::After;
                    i = i + 1;
                } else if c == '"' {
                    st = SkipState::Str { key: true };
                    i = i + 1;
                } else {
                    return None;
                }
            },
            SkipState::Key => {
                if i == n {
                    return None;
                }
                let c = s.get_char(i);
                if is_ws_exec(c) {
                    i = i + 1;
                } else if c == '"' {
                    st = SkipState::Str { key: true };
                    i = i + 1;
                } else {
                    return None;
                }
            },
            SkipState::Colon => {
                if i == n {
                    return None;
                }
                let c = s.get_char(i);
                if is_ws_exec(c) {
                    i = i + 1;
                } else if c == ':' {
                    st = SkipState::Value;
                    i = i + 1;
                } else {
                    return None;
                }
            },
            SkipState::FirstItem => {
                if i == n {
                    return None;
                }
                let c = s.get_char(i);
                if is_ws_exec(c) {
                    i = i + 1;
                } else if c == ']' {
                    let _popped = ctx.pop();
                    proof {
                        assert(ctx@ =~= pre_ctx.drop_last());
                    }
                    st = SkipState::After;
                    i = i + 1;
                } else {
                    st = SkipState::Value;
                }
            },
            SkipState::Str { key } => {
                if i == n {
                    return None;
                }
                let c = s.get_char(i);
                if c == '"' {
                    if key {
                        st = SkipState::Colon;
                    } else {
                        st = SkipState::After;
                    }
                    i = i + 1;
                } else if c == '\\' {
                    st = SkipState::StrEsc { key };
                    i = i + 1;
                } else if (c as u32) < 0x20 {
                    return None;
                } else {
                    i = i + 1;
                }
            },
            SkipState::StrEsc { key } => {
                if i == n {
                    return None;
                }
                let c = s.get_char(i);
                if c == 'u' {
                    st = SkipState::StrHex { key, left: 4 };
                    i = i + 1;
                } else {
                    match unescape_char_exec(c) {
                        Some(_) => {
                            st = SkipState::Str { key };
                            i = i + 1;
                        },
                        None => {
                            return None;
                        },
                    }
                }
            },
            SkipState::StrHex { key, left } => {
                if i == n {
                    return None;
                }
                let c = s.get_char(i);
                match hex_val_exec(c) {
                    Some(_) => {
                        if left <= 1 {
                            st = SkipState::Str { key };
                        } else {
                            st = SkipState::StrHex { key, left: left - 1 };
                        }
                        i = i + 1;
                    },
                    None => {
                        return None;
                    },
                }
            },
            SkipState::NumNeg => {
                if i == n {
                    return None;
                }
                let c = s.get_char(i);
                if is_digit_exec(c) {
                    if c == '0' {
                        st = SkipState::NumZero;
                    } else {
                        st = SkipState::NumInt;
                    }
                    i = i + 1;
                } else {
                    return None;
                }
            },
            SkipState::NumZero => {
                if i == n {
                    return None;
                }
                let c = s.get_char(i);
                if c == '.' {
                    st = SkipState::NumDot;
                    i = i + 1;
                } else if c == 'e' || c == 'E' {
                    st = SkipState::NumExpSign;
                    i = i + 1;
                } else {
                    st = SkipState::After;
                }
            },
            SkipState::NumInt => {
                if i == n {
                    return None;
                }
                let c = s.get_char(i);
                if is_digit_exec(c) {
                    i = i + 1;
                } else if c == '.' {
                    st = SkipState::NumDot;
                    i = i + 1;
                } else if c == 'e' || c == 'E' {
                    st = SkipState::NumExpSign;
                    i = i + 1;
                } else {
                    st = SkipState::After;
                }
            },
            SkipState::NumDot => {
                if i == n {
                    return None;
                }
                let c = s.get_char(i);
                if is_digit_exec(c) {
                    st = SkipState::NumFrac;
                    i = i + 1;
                } else {
                    return None;
                }
            },
            SkipState::NumFrac => {
                if i == n {
                    return None;
                }
                let c = s.get_char(i);
                if is_digit_exec(c) {
                    i = i + 1;
                } else if c == 'e' || c == 'E' {
                    st = SkipState::NumExpSign;
                    i = i + 1;
                } else {
                    st = SkipState::After;
                }
            },
            SkipState::NumExpSign => {
                if i == n {
                    return None;
                }
                let c = s.get_char(i);
                if c == '+' || c == '-' {
                    st = SkipState::NumExpFirst;
                    i = i + 1;
                } else if is_digit_exec(c) {
                    st = SkipState::NumExpMore;
                    i = i + 1;
                } else {
                    return None;
                }
            },
            SkipState::NumExpFirst => {
                if i == n {
                    return None;
                }
                let c = s.get_char(i);
                if is_digit_exec(c) {
                    st = SkipState::NumExpMore;
                    i = i + 1;
                } else {
                    return None;
                }
            },
            SkipState::NumExpMore => {
                if i == n {
                    return None;
                }
                let c = s.get_char(i);
                if is_digit_exec(c) {
                    i = i + 1;
                } else {
                    st = SkipState::After;
                }
            },
        }
    }
}

spec fn found_view(f: Option<String>) -> Option<Seq<char>> {
    match f {
        Some(x) => Some(x@),
        None => None,
    }
}

fn members_exec(s: &str, i: usize, n: usize, found: Option<String>) -> (r: Option<(String, usize)>)
    requires
        n == s@.len(),
        i <= n,
    ensures
        r is Some <==> members(s@, i as int, found_view(found)) is Some,
        r is Some ==> ({
            let p = members(s@, i as int, found_view(found)).unwrap();
            &&& r.unwrap().0@ == p.0
            &&& r.unwrap().1 as int == p.1
            &&& r.unwrap().1 <= n
        }),
    decreases n - i,
{
    let k: usize = skip_ws_exec(s, i, n);
    if k >= n {
        return None;
    }
    if s.get_char(k) != '"' {
        return None;
    }
    let mut key = String::new();
    match scan_string_exec(s, k + 1, n, &mut key) {
        None => None,
        Some(j) => {
            proof {
                assert(key@ =~= scan_string(s@, k as int + 1).unwrap().0);
            }
            let c: usize = skip_ws_exec(s, j, n);
            if c >= n {
                return None;
            }
            if s.get_char(c) != ':' {
                return None;
            }
            let v: usize = skip_ws_exec(s, c + 1, n);
            let uname = String::from_str("username");
            if key == uname {
                if found.is_some() {
                    return None;
                }
                if v >= n {
                    return None;
                }
                if s.get_char(v) != '"' {
                    return None;
                }
                let mut name = String::new();
                match scan_string_exec(s, v + 1, n, &mut name) {
                    None => None,
                    Some(e) => {
                        proof {
                            assert(name@ =~= scan_string(s@, v as int + 1).unwrap().0);
                        }
                        after_member_exec(s, e, n, Some(name))
                    },
                }
            } else {
                match skip_json_exec(s, v, n) {
                    None => None,
                    Some(e) => after_member_exec(s, e, n, found),
                }
            }
        },
    }
}

fn after_member_exec(s: &str, i: usize, n: usize, found: Option<String>) -> (r: Option<
    (String, usize),
>)
    requires
        n == s@.len(),
        i <= n,
    ensures
        r is Some <==> after_member(s@, i as int, found_view(found)) is Some,
        r is Some ==> ({
            let p = after_member(s@, i as int, found_view(found)).unwrap();
            &&& r.unwrap().0@ == p.0
            &&& r.unwrap().1 as int == p.1
            &&& r.unwrap().1 <= n
        }),
    decreases n - i,
{
    let t: usize = skip_ws_exec(s, i, n);
    if t >= n {
        return None;
    }
    let ch = s.get_char(t);
    if ch == ',' {
        members_exec(s, t + 1, n, found)
    } else if ch == '}' {
        match found {
            Some(name) => Some((name, t + 1)),
            None => None,
        }
    } else {
        None
    }
}

/// Reads a create request body: the username if the body matches the
/// grammar of [`parse_create`], nothing otherwise. Never panics, whatever
/// the body holds.
pub fn parse_create_user(s: &str) -> (r: Option<String>)
    ensures
        r is Some <==> parse_create(s@) is Some,
        r is Some ==> r.unwrap()@ == parse_create(s@).unwrap(),
{
    let n: usize = s.unicode_len();
    let i0: usize = skip_ws_exec(s, 0, n);
    if i0 >= n {
        return None;
    }
    if s.get_char(i0) != '{' {
        return None;
    }
    let k: usize = skip_ws_exec(s, i0 + 1, n);
    if k < n && s.get_char(k) == '}' {
        return None;
    }
    match members_exec(s, i0 + 1, n, None) {
        None => None,
        Some((name, end)) => {
            if skip_ws_exec(s, end, n) != n {
                return None;
            }
            Some(name)
        },
    }
}

} // verus!
