//! The two HTML views, stated exactly and produced by verified renderers:
//! a static landing page, and a fragment listing the users one row per
//! user with the username shown as text (escaped, never as markup).

use vstd::prelude::*;

use crate::text::push_char;
use crate::user::{views, User};

verus! {

/// How one character appears inside HTML text content: the five
/// characters with markup meaning become entities, everything else
/// stands as itself.
pub open spec fn escape_char_html(c: char) -> Seq<char> {
    if c == '&' {
        "&amp;"@
    } else if c == '<' {
        "&lt;"@
    } else if c == '>' {
        "&gt;"@
    } else if c == '"' {
        "&quot;"@
    } else if c == '\'' {
        "&#x27;"@
    } else {
        seq![c]
    }
}

/// A string, escaped character by character for use as HTML text.
pub open spec fn escape_html(s: Seq<char>) -> Seq<char>
    decreases s.len(),
{
    if s.len() == 0 {
        Seq::empty()
    } else {
        escape_html(s.drop_last()) + escape_char_html(s.last())
    }
}

/// The list item for one user row: the username as text.
pub open spec fn user_row_html(username: Seq<char>) -> Seq<char> {
    "<li>"@ + escape_html(username) + "</li>"@
}

/// The list items of a user listing, in order.
pub open spec fn users_rows_html(s: Seq<(u64, Seq<char>)>) -> Seq<char>
    decreases s.len(),
{
    if s.len() == 0 {
        Seq::empty()
    } else {
        users_rows_html(s.drop_last()) + user_row_html(s.last().1)
    }
}

/// The fragment listing the given users: one row per user.
pub open spec fn users_fragment_html(s: Seq<(u64, Seq<char>)>) -> Seq<char> {
    "<ul>"@ + users_rows_html(s) + "</ul>"@
}

/// The static landing page.
pub open spec fn index_page_html() -> Seq<char> {
    "<!DOCTYPE html><html><head><title>Users</title></head><body><h1>Hello world</h1><ul id=\"users\"></ul></body></html>"@
}

/// Appends `s` with every character HTML-escaped.
fn append_escaped_html(out: &mut String, s: &str)
    ensures
        final(out)@ == old(out)@ + escape_html(s@),
{
    let n = s.unicode_len();
    let mut i: usize = 0;
    proof {
        assert(old(out)@ + escape_html(s@.take(0)) =~= old(out)@);
    }
    while i < n
        invariant
            i <= n,
            n == s@.len(),
            out@ == old(out)@ + escape_html(s@.take(i as int)),
        decreases n - i,
    {
        let ghost pre: Seq<char> = out@;
        let c = s.get_char(i);
        if c == '&' {
            out.append("&amp;");
        } else if c == '<' {
            out.append("&lt;");
        } else if c == '>' {
            out.append("&gt;");
        } else if c == '"' {
            out.append("&quot;");
        } else if c == '\'' {
            out.append("&#x27;");
        } else {
            push_char(out, c);
            proof {
                assert(out@ =~= pre + escape_char_html(c));
            }
        }
        proof {
            assert(s@.take(i as int + 1).drop_last() =~= s@.take(i as int));
            assert(out@ =~= old(out)@ + escape_html(s@.take(i as int + 1)));
        }
        i = i + 1;
    }
    proof {
        assert(s@.take(n as int) =~= s@);
    }
}

/// The static landing page, as a string.
pub fn index_page_string() -> (r: String)
    ensures
        r@ == index_page_html(),
{
    String::from_str(
        "<!DOCTYPE html><html><head><title>Users</title></head><body><h1>Hello world</h1><ul id=\"users\"></ul></body></html>",
    )
}

/// The fragment listing the given users, as a string.
pub fn users_fragment_string(users: &Vec<User>) -> (r: String)
    ensures
        r@ == users_fragment_html(views(users@)),
{
    let mut out = String::from_str("<ul>");
    let n = users.len();
    let mut i: usize = 0;
    proof {
        assert(out@ =~= "<ul>"@ + users_rows_html(views(users@).take(0)));
    }
    while i < n
        invariant
            i <= n,
            n == users@.len(),
            out@ == "<ul>"@ + users_rows_html(views(users@).take(i as int)),
        decreases n - i,
    {
        let ghost pre: Seq<char> = out@;
        out.append("<li>");
        append_escaped_html(&mut out, users[i].username.as_str());
        out.append("</li>");
        proof {
            let vs = views(users@);
            assert(vs.take(i as int + 1).drop_last() =~= vs.take(i as int));
            assert(vs.take(i as int + 1).last() == users@[i as int]@);
            assert(out@ =~= "<ul>"@ + users_rows_html(vs.take(i as int + 1)));
        }
        i = i + 1;
    }
    out.append("</ul>");
    proof {
        assert(views(users@).take(n as int) =~= views(users@));
        assert(out@ =~= users_fragment_html(views(users@)));
    }
    out
}

} // verus!
