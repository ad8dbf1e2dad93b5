//! The view: one HTML document holding an add form and one table row per
//! entry, each row showing the identifier and the escaped text beside a
//! delete form that carries the identifier.

use vstd::prelude::*;
use vstd::string::StrSliceExecFns;
use vstd::string::StringExecFns;
use crate::digits::{dec_int, i64_to_string, push_char};
use crate::store::{EntryModel, TodoEntry};

verus! {

/// What one character renders as in HTML text: the five delimiters as
/// entities, every other character as itself.
pub open spec fn escape_char(c: char) -> Seq<char> {
    if c == '&' {
        "&amp;"@
    } else if c == '<' {
        "&lt;"@
    } else if c == '>' {
        "&gt;"@
    } else if c == '"' {
        "&quot;"@
    } else if c == '\'' {
        "&#x27;"@
    } else {
        seq![c]
    }
}

/// What a text renders as in HTML: each character escaped.
pub open spec fn escape_seq(s: Seq<char>) -> Seq<char>
    decreases s.len(),
{
    if s.len() == 0 {
        Seq::empty()
    } else {
        escape_char(s[0]) + escape_seq(s.skip(1))
    }
}

/// The markup ahead of the rows: the document head and the add form.
pub open spec fn page_header() -> Seq<char> {
    "<!DOCTYPE html><html><head><meta charset=\"utf-8\"><title>Todo</title></head><body><form action=\"/add\" method=\"post\"><input type=\"text\" name=\"text\"><button type=\"submit\">Add</button></form><table>"@
}

/// The markup behind the rows.
pub open spec fn page_footer() -> Seq<char> {
    "</table></body></html>"@
}

/// One table row: the identifier, the escaped text, and a delete form
/// whose hidden field carries the identifier.
pub open spec fn render_row(e: EntryModel) -> Seq<char> {
    "<tr><td>"@ + dec_int(e.id) + "</td><td>"@ + escape_seq(e.text)
        + "</td><td><form action=\"/delete\" method=\"post\"><input type=\"hidden\" name=\"id\" value=\""@
        + dec_int(e.id) + "\"><button type=\"submit\">Delete</button></form></td></tr>"@
}

/// The rows of all entries, in order.
pub open spec fn render_rows(entries: Seq<EntryModel>) -> Seq<char>
    decreases entries.len(),
{
    if entries.len() == 0 {
        Seq::empty()
    } else {
        render_rows(entries.drop_last()) + render_row(entries.last())
    }
}

/// The whole document for a listing.
pub open spec fn render_page(entries: Seq<EntryModel>) -> Seq<char> {
    page_header() + render_rows(entries) + page_footer()
}

fn append_escaped_char(r: &mut String, c: char)
    ensures
        final(r)@ == old(r)@ + escape_char(c),
{
    if c == '&' {
        r.append("&amp;");
    } else if c == '<' {
        r.append("&lt;");
    } else if c == '>' {
        r.append("&gt;");
    } else if c == '"' {
        r.append("&quot;");
    } else if c == '\'' {
        r.append("&#x27;");
    } else {
        let ghost r0 = r@;
        push_char(r, c);
        proof {
            assert(r@ =~= r0 + seq![c]);
        }
    }
}

/// The HTML rendering of a text, every delimiter escaped.
pub fn escape_html(s: &String) -> (r: String)
    ensures
        r@ == escape_seq(s@),
{
    let mut r = String::new();
    let n = s.as_str().unicode_len();
    let mut i: usize = 0;
    proof {
        assert(s@.skip(0) =~= s@);
        assert(Seq::<char>::empty() + escape_seq(s@) =~= escape_seq(s@));
    }
    while i < n
        invariant
            0 <= i <= n,
            n == s@.len(),
            escape_seq(s@) == r@ + escape_seq(s@.skip(i as int)),
        decreases n - i,
    {
        let c = s.as_str().get_char(i);
        proof {
            assert(s@.skip(i as int)[0] == s@[i as int]);
            assert(s@.skip(i as int).skip(1) =~= s@.skip(i + 1));
        }
        append_escaped_char(&mut r, c);
        i = i + 1;
        proof {
            assert(escape_seq(s@) =~= r@ + escape_seq(s@.skip(i as int)));
        }
    }
    proof {
        assert(s@.skip(n as int) =~= Seq::<char>::empty());
        assert(r@ + Seq::<char>::empty() =~= r@);
    }
    r
}

/// The whole document for the given entries: header, one row per entry
/// in order, footer.
pub fn render_index(entries: &Vec<TodoEntry>) -> (r: String)
    ensures
        r@ == render_page(entries@.map_values(|e: TodoEntry| e@)),
{
    let ghost m = entries@.map_values(|e: TodoEntry| e@);
    let mut r = String::new();
    r.append(
        "<!DOCTYPE html><html><head><meta charset=\"utf-8\"><title>Todo</title></head><body><form action=\"/add\" method=\"post\"><input type=\"text\" name=\"text\"><button type=\"submit\">Add</button></form><table>",
    );
    proof {
        assert(Seq::<char>::empty() + page_header() =~= page_header());
        assert(m.take(0) =~= Seq::<EntryModel>::empty());
        assert(r@ =~= page_header() + render_rows(m.take(0)));
    }
    let mut i: usize = 0;
    while i < entries.len()
        invariant
            0 <= i <= entries@.len(),
            m == entries@.map_values(|e: TodoEntry| e@),
            r@ == page_header() + render_rows(m.take(i as int)),
        decreases entries@.len() - i,
    {
        let ghost r0 = r@;
        let idstr = i64_to_string(entries[i].id);
        r.append("<tr><td>");
        r.append(idstr.as_str());
        r.append("</td><td>");
        let esc = escape_html(&entries[i].text);
        r.append(esc.as_str());
        r.append(
            "</td><td><form action=\"/delete\" method=\"post\"><input type=\"hidden\" name=\"id\" value=\"",
        );
        r.append(idstr.as_str());
        r.append("\"><button type=\"submit\">Delete</button></form></td></tr>");
        proof {
            assert(m[i as int] == entries@[i as int]@);
            assert(r@ =~= r0 + render_row(m[i as int]));
            assert(m.take(i + 1).drop_last() =~= m.take(i as int));
            assert(m.take(i + 1).last() == m[i as int]);
            assert(r@ =~= page_header() + render_rows(m.take(i + 1)));
        }
        i = i + 1;
    }
    r.append("</table></body></html>");
    proof {
        assert(m.take(entries@.len() as int) =~= m);
        assert(r@ =~= render_page(m));
    }
    r
}

} // verus!
