//! Text helpers for generated identifiers, labels and escaped page text.
use vstd::prelude::*;
use crate::strs::{chars_of, push_char};

verus! {

/// Whether `c` is an ASCII letter or digit.
pub open spec fn is_ascii_alnum(c: char) -> bool {
    ('a' <= c && c <= 'z') || ('A' <= c && c <= 'Z') || ('0' <= c && c <= '9')
}

/// What `char::is_alphanumeric` answers for a non-ASCII character (Unicode
/// `Alphabetic` or `Numeric`).
pub uninterp spec fn unicode_is_alphanumeric(c: char) -> bool;

/// What `char::to_uppercase` yields for a non-ASCII character.
pub uninterp spec fn unicode_uppercase(c: char) -> Seq<char>;

/// Whether `c` is alphanumeric: ASCII letters and digits, or the Unicode answer
/// for other characters.
pub open spec fn char_is_alphanumeric(c: char) -> bool {
    if (c as u32) < 128 {
        is_ascii_alnum(c)
    } else {
        unicode_is_alphanumeric(c)
    }
}

/// The uppercase mapping of `c`: ASCII lowercase letters map to their uppercase
/// letter, other ASCII characters to themselves, other characters by Unicode.
pub open spec fn char_uppercase(c: char) -> Seq<char> {
    if 'a' <= c && c <= 'z' {
        seq![((c as u32) - 32) as char]
    } else if (c as u32) < 128 {
        seq![c]
    } else {
        unicode_uppercase(c)
    }
}

/// `char::is_alphanumeric`. For ASCII characters the documentation's definition
/// (alphabetic or numeric) reduces to letters and digits, which is stated; for
/// other characters the result is named `unicode_is_alphanumeric` and the Unicode
/// tables are not restated.
#[verifier::external_body]
pub(crate) fn is_alphanumeric(c: char) -> (r: bool)
    ensures
        (c as u32) < 128 ==> r == is_ascii_alnum(c),
        (c as u32) >= 128 ==> r == unicode_is_alphanumeric(c),
{
    c.is_alphanumeric()
}

/// `char::to_uppercase`, collected into a string. For ASCII input the documented
/// mapping is stated (lowercase letters to uppercase, every other ASCII character
/// has no uppercase mapping and yields itself); for other characters the result is
/// named `unicode_uppercase` and the Unicode case tables are not restated.
#[verifier::external_body]
pub(crate) fn to_uppercase(c: char) -> (r: String)
    ensures
        ('a' <= c && c <= 'z') ==> r@ == seq![((c as u32) - 32) as char],
        ((c as u32) < 128 && !('a' <= c && c <= 'z')) ==> r@ == seq![c],
        (c as u32) >= 128 ==> r@ == unicode_uppercase(c),
{
    c.to_uppercase().collect()
}

// ---------------------------------------------------------------------------
// HTML and JS escaping
// ---------------------------------------------------------------------------

/// The HTML text replacement for one character.
pub open spec fn html_entity(c: char) -> Seq<char> {
    if c == '&' {
        seq!['&', 'a', 'm', 'p', ';']
    } else if c == '<' {
        seq!['&', 'l', 't', ';']
    } else if c == '>' {
        seq!['&', 'g', 't', ';']
    } else if c == '"' {
        seq!['&', 'q', 'u', 'o', 't', ';']
    } else {
        seq![c]
    }
}

/// `s` with `&`, `<`, `>` and `"` replaced by their HTML entities.
pub open spec fn escape_html_spec(s: Seq<char>) -> Seq<char>
    decreases s.len(),
{
    if s.len() == 0 {
        Seq::empty()
    } else {
        escape_html_spec(s.drop_last()) + html_entity(s.last())
    }
}

/// The JavaScript string-literal replacement for one character.
pub open spec fn js_escape(c: char) -> Seq<char> {
    if c == '\\' {
        seq!['\\', '\\']
    } else if c == '"' {
        seq!['\\', '"']
    } else if c == '\n' {
        seq!['\\', 'n']
    } else if c == '\r' {
        seq!['\\', 'r']
    } else {
        seq![c]
    }
}

/// `s` escaped for use inside a double-quoted JavaScript string.
pub open spec fn escape_js_spec(s: Seq<char>) -> Seq<char>
    decreases s.len(),
{
    if s.len() == 0 {
        Seq::empty()
    } else {
        escape_js_spec(s.drop_last()) + js_escape(s.last())
    }
}

/// The text that HTML text `t` stands for, reading it from the front: each of
/// the entities `&amp;`, `&lt;`, `&gt;` and `&quot;` stands for its character,
/// every other character for itself.
pub open spec fn decode_html_spec(t: Seq<char>) -> Seq<char>
    decreases t.len(),
{
    if t.len() == 0 {
        Seq::empty()
    } else if t.len() >= 5 && t.take(5) == html_entity('&') {
        seq!['&'] + decode_html_spec(t.skip(5))
    } else if t.len() >= 4 && t.take(4) == html_entity('<') {
        seq!['<'] + decode_html_spec(t.skip(4))
    } else if t.len() >= 4 && t.take(4) == html_entity('>') {
        seq!['>'] + decode_html_spec(t.skip(4))
    } else if t.len() >= 6 && t.take(6) == html_entity('"') {
        seq!['"'] + decode_html_spec(t.skip(6))
    } else {
        seq![t[0]] + decode_html_spec(t.skip(1))
    }
}

/// The character that a JavaScript single-character escape `\c` stands for:
/// `n`, `r`, `t`, `b`, `f` and `v` stand for their control characters, and a
/// character that is no escape letter (such as `"`, `'` or `\`) for itself.
/// `None` for the escapes this model leaves out: `\0` and the other digits,
/// `\x` and `\u` sequences, and line continuations.
pub open spec fn js_escaped_char(c: char) -> Option<char> {
    if c == 'n' {
        Some('\n')
    } else if c == 'r' {
        Some('\r')
    } else if c == 't' {
        Some('\t')
    } else if c == 'b' {
        Some('\u{8}')
    } else if c == 'f' {
        Some('\u{c}')
    } else if c == 'v' {
        Some('\u{b}')
    } else if ('0' <= c && c <= '9') || c == 'x' || c == 'u' || c == '\n' || c == '\r' || c == '\u{2028}'
        || c == '\u{2029}' {
        None
    } else {
        Some(c)
    }
}

/// The string that a double-quoted JavaScript string literal with body `t`
/// evaluates to, or `None` where `t` is no valid body under this model: it holds
/// a raw `"`, a raw line feed or carriage return, ends in a lone `\`, or uses an
/// escape that `js_escaped_char` leaves out.
pub open spec fn js_string_value(t: Seq<char>) -> Option<Seq<char>>
    decreases t.len(),
{
    if t.len() == 0 {
        Some(Seq::empty())
    } else if t[0] == '\\' {
        if t.len() < 2 {
            None
        } else {
            match (js_escaped_char(t[1]), js_string_value(t.skip(2))) {
                (Some(c), Some(v)) => Some(seq![c] + v),
                _ => None,
            }
        }
    } else if t[0] == '"' || t[0] == '\n' || t[0] == '\r' {
        None
    } else {
        match js_string_value(t.skip(1)) {
            Some(v) => Some(seq![t[0]] + v),
            None => None,
        }
    }
}

/// Escape for HTML text content (label, help).
pub fn escape_html(s: &str) -> (r: String)
    ensures
        r@ == escape_html_spec(s@),
{
    let cs = chars_of(s);
    let mut out = String::new();
    let mut i: usize = 0;
    while i < cs.len()
        invariant
            i <= cs.len(),
            out@ == escape_html_spec(cs@.take(i as int)),
        decreases cs.len() - i,
    {
        let c = cs[i];
        proof {
            assert(cs@.take(i + 1).drop_last() =~= cs@.take(i as int));
        }
        if c == '&' {
            push_char(&mut out, '&');
            push_char(&mut out, 'a');
            push_char(&mut out, 'm');
            push_char(&mut out, 'p');
            push_char(&mut out, ';');
        } else if c == '<' {
            push_char(&mut out, '&');
            push_char(&mut out, 'l');
            push_char(&mut out, 't');
            push_char(&mut out, ';');
        } else if c == '>' {
            push_char(&mut out, '&');
            push_char(&mut out, 'g');
            push_char(&mut out, 't');
            push_char(&mut out, ';');
        } else if c == '"' {
            push_char(&mut out, '&');
            push_char(&mut out, 'q');
            push_char(&mut out, 'u');
            push_char(&mut out, 'o');
            push_char(&mut out, 't');
            push_char(&mut out, ';');
        } else {
            push_char(&mut out, c);
        }
        proof {
            assert(out@ =~= escape_html_spec(cs@.take(i + 1)));
        }
        i = i + 1;
    }
    proof {
        assert(cs@.take(cs@.len() as int) =~= cs@);
    }
    out
}

/// Escape for use inside a JavaScript double-quoted string.
pub fn escape_js_str(s: &str) -> (r: String)
    ensures
        r@ == escape_js_spec(s@),
{
    let cs = chars_of(s);
    let mut out = String::new();
    let mut i: usize = 0;
    while i < cs.len()
        invariant
            i <= cs.len(),
            out@ == escape_js_spec(cs@.take(i as int)),
        decreases cs.len() - i,
    {
        let c = cs[i];
        proof {
            assert(cs@.take(i + 1).drop_last() =~= cs@.take(i as int));
        }
        if c == '\\' {
            push_char(&mut out, '\\');
            push_char(&mut out, '\\');
        } else if c == '"' {
            push_char(&mut out, '\\');
            push_char(&mut out, '"');
        } else if c == '\n' {
            push_char(&mut out, '\\');
            push_char(&mut out, 'n');
        } else if c == '\r' {
            push_char(&mut out, '\\');
            push_char(&mut out, 'r');
        } else {
            push_char(&mut out, c);
        }
        proof {
            assert(out@ =~= escape_js_spec(cs@.take(i + 1)));
        }
        i = i + 1;
    }
    proof {
        assert(cs@.take(cs@.len() as int) =~= cs@);
    }
    out
}

// ---------------------------------------------------------------------------
// Page identifiers
// ---------------------------------------------------------------------------

/// One character of a JS identifier suffix: alphanumerics and `_` are kept,
/// everything else becomes `_`.
pub open spec fn js_id_char(c: char) -> char {
    if char_is_alphanumeric(c) || c == '_' {
        c
    } else {
        '_'
    }
}

/// The JS identifier suffix for a page name.
pub open spec fn js_id_spec(page: Seq<char>) -> Seq<char> {
    Seq::new(page.len(), |i: int| js_id_char(page[i]))
}

/// Convert page name to a valid JS identifier suffix (e.g. "Network" -> "Network",
/// "my-page" -> "my_page").
///
/// Replaces any character that is not alphanumeric or `_` with `_`.
pub fn page_name_to_js_id(page: &str) -> (r: String)
    ensures
        r@ == js_id_spec(page@),
{
    let cs = chars_of(page);
    let mut out = String::new();
    let mut i: usize = 0;
    while i < cs.len()
        invariant
            i <= cs.len(),
            out@ == js_id_spec(cs@.take(i as int)),
        decreases cs.len() - i,
    {
        let c = cs[i];
        if is_alphanumeric(c) || c == '_' {
            push_char(&mut out, c);
        } else {
            push_char(&mut out, '_');
        }
        proof {
            assert(out@ =~= js_id_spec(cs@.take(i + 1)));
        }
        i = i + 1;
    }
    proof {
        assert(cs@.take(cs@.len() as int) =~= cs@);
    }
    out
}


// ---------------------------------------------------------------------------
// Word casing
// ---------------------------------------------------------------------------

/// Scanning state after reading `s`: the words completed so far (maximal runs of
/// alphanumeric characters) and the run still being read.
pub open spec fn word_state(s: Seq<char>) -> (Seq<Seq<char>>, Seq<char>)
    decreases s.len(),
{
    if s.len() == 0 {
        (Seq::empty(), Seq::empty())
    } else {
        let prev = word_state(s.drop_last());
        let c = s.last();
        if char_is_alphanumeric(c) {
            (prev.0, prev.1.push(c))
        } else if prev.1.len() > 0 {
            (prev.0.push(prev.1), Seq::empty())
        } else {
            (prev.0, Seq::empty())
        }
    }
}

/// The words of `s`: its maximal runs of alphanumeric characters, in order
/// (splitting on every other character and dropping empty pieces).
pub open spec fn words(s: Seq<char>) -> Seq<Seq<char>> {
    let st = word_state(s);
    if st.1.len() > 0 {
        st.0.push(st.1)
    } else {
        st.0
    }
}

/// A word with its first character upper-cased.
pub open spec fn capitalize(w: Seq<char>) -> Seq<char> {
    if w.len() == 0 {
        Seq::empty()
    } else {
        char_uppercase(w[0]) + w.skip(1)
    }
}

/// The pieces joined with `sep` between consecutive pieces.
pub open spec fn join_with(ws: Seq<Seq<char>>, sep: Seq<char>) -> Seq<char>
    decreases ws.len(),
{
    if ws.len() == 0 {
        Seq::empty()
    } else if ws.len() == 1 {
        ws[0]
    } else {
        join_with(ws.drop_last(), sep) + sep + ws.last()
    }
}

/// Every word of `s` capitalized, joined with `sep`.
pub open spec fn cased_spec(s: Seq<char>, sep: Seq<char>) -> Seq<char> {
    join_with(words(s).map_values(|w: Seq<char>| capitalize(w)), sep)
}

/// Appends `w` with its first character upper-cased.
fn append_capitalized(out: &mut String, w: &Vec<char>)
    requires
        w.len() > 0,
    ensures
        final(out)@ == old(out)@ + capitalize(w@),
{
    let first = to_uppercase(w[0]);
    out.append(first.as_str());
    let mut i: usize = 1;
    while i < w.len()
        invariant
            1 <= i <= w.len(),
            out@ == old(out)@ + char_uppercase(w@[0]) + w@.subrange(1, i as int),
        decreases w.len() - i,
    {
        push_char(out, w[i]);
        proof {
            assert(w@.subrange(1, i + 1) =~= w@.subrange(1, i as int).push(w@[i as int]));
        }
        i = i + 1;
    }
    proof {
        assert(w@.subrange(1, w@.len() as int) =~= w@.skip(1));
    }
}

/// Completing one more word keeps the joined output in step.
proof fn lemma_join_push(ws: Seq<Seq<char>>, w: Seq<char>, sep: Seq<char>)
    ensures
        join_with(ws.push(w).map_values(|x: Seq<char>| capitalize(x)), sep) == (if ws.len() == 0 {
            capitalize(w)
        } else {
            join_with(ws.map_values(|x: Seq<char>| capitalize(x)), sep) + sep + capitalize(w)
        }),
{
    let f = |x: Seq<char>| capitalize(x);
    let m = ws.push(w).map_values(f);
    assert(m.drop_last() =~= ws.map_values(f));
    assert(m.last() == capitalize(w));
    if ws.len() == 0 {
        assert(m.len() == 1);
    }
}

/// Capitalize each word and join with the given separator.
///
/// Splits on any non-alphanumeric character (underscore, space, hyphen, etc.)
/// so it works for snake_case, kebab-case, and multi-word strings alike.
pub fn snake_to_cased(s: &str, word_sep: &str) -> (r: String)
    ensures
        r@ == cased_spec(s@, word_sep@),
{
    let cs = chars_of(s);
    let mut out = String::new();
    let mut count: usize = 0;
    let mut cur: Vec<char> = Vec::new();
    let mut i: usize = 0;
    while i < cs.len()
        invariant
            i <= cs.len(),
            count <= i,
            word_state(cs@.take(i as int)).0.len() == count,
            word_state(cs@.take(i as int)).1 == cur@,
            out@ == join_with(
                word_state(cs@.take(i as int)).0.map_values(|x: Seq<char>| capitalize(x)),
                word_sep@,
            ),
        decreases cs.len() - i,
    {
        let c = cs[i];
        let ghost prev = word_state(cs@.take(i as int));
        proof {
            assert(cs@.take(i + 1).drop_last() =~= cs@.take(i as int));
        }
        if is_alphanumeric(c) {
            cur.push(c);
        } else if cur.len() > 0 {
            proof {
                lemma_join_push(prev.0, prev.1, word_sep@);
            }
            if count > 0 {
                out.append(word_sep);
            }
            append_capitalized(&mut out, &cur);
            count = count + 1;
            cur = Vec::new();
        } else {
            cur = Vec::new();
        }
        proof {
            assert(cur@ =~= word_state(cs@.take(i + 1)).1);
        }
        i = i + 1;
    }
    proof {
        assert(cs@.take(cs@.len() as int) =~= cs@);
    }
    if cur.len() > 0 {
        proof {
            let st = word_state(cs@);
            lemma_join_push(st.0, st.1, word_sep@);
        }
        if count > 0 {
            out.append(word_sep);
        }
        append_capitalized(&mut out, &cur);
    }
    out
}

/// Convert snake_case to PascalCase for enum variant names.
pub fn to_pascal_case(s: &str) -> (r: String)
    ensures
        r@ == cased_spec(s@, Seq::empty()),
{
    let sep = String::new();
    snake_to_cased(s, sep.as_str())
}

/// Humanize field name for default label: snake_case -> Title Case.
pub fn humanize_label(field_name: &str) -> (r: String)
    ensures
        r@ == cased_spec(field_name@, seq![' ']),
{
    let mut sep = String::new();
    push_char(&mut sep, ' ');
    snake_to_cased(field_name, sep.as_str())
}

} // verus!
