//! Properties of the library as a whole: of the escaping, identifier and
//! label rules, of query decoding, of page grouping and the fieldset rule, of the
//! storage keys and of the access point addresses.
use vstd::prelude::*;
use crate::gen::form::{
    html_string_spec, js_loads_spec, js_saves_spec, js_string_spec, FormField, FORM_ID_PREFIX, JS_ASSIGN_STR,
    JS_END, JS_EXPORT_LOAD_A, JS_EXPORT_LOAD_B, JS_EXPORT_SAVE_A, JS_EXPORT_SAVE_B, JS_EXPORT_SAVE_C, JS_LOAD_FETCH,
    JS_LOAD_FN, JS_LOAD_JSON, JS_PAGE_CONST, JS_SAVE_DATA, JS_SAVE_FETCH, JS_SAVE_FN, JS_SAVE_FORM, JS_SAVE_SEND,
    JS_URL_CONST, JS_URL_VALUE,
};
use crate::gen::page::{
    default_page_id, full_page_spec, head_spec, panel_spec, panels_spec, scripts_spec, tab_bar_spec, UiAttrs,
    BODY_CLOSE, DEFAULT_PAGE_CLOSE, DEFAULT_PAGE_OPEN, DISPLAY_NONE, FORM_OPEN_END, LOADING_CLOSE, LOADING_OPEN,
    PANEL_BUTTONS, PANEL_OPEN, QUOTE, SCRIPT_BETWEEN,
};
use crate::style::CONFIG_PAGE_TAB_SCRIPT;
use crate::gen::group::{
    fieldset_conflict, first_index, group_pages, lemma_first_index, page_names, pair_names,
};
use crate::gen::api::{page_field_indices, page_order, ApiField};
use crate::gen::store::collision_pairs;
use crate::portal::handler::{route_matches, Route, AP_HOST_NAME, AP_IP_ADDRESS, AP_URL, GROUP_PREFIX};
use crate::portal::page::page_to_id_spec;
use crate::portal::tuning::{ACCEPTOR_TASKS, HANDLER_TASKS};
use crate::esp::wifi::AP_SOCKET_COUNT;
use crate::portal::query::{
    first_index_of, hex_value, path_only_spec, percent_decode_spec, raw_set_param, set_param_spec, split_spec,
    split_state,
};
use vstd::utf8::{encode_utf8, is_ascii_chars, is_ascii_chars_encode_utf8};
use crate::strs::{dec_digit, is_prefix};
use crate::text::{
    cased_spec, char_is_alphanumeric, char_uppercase, capitalize, decode_html_spec, escape_html_spec,
    escape_js_spec, html_entity, join_with, js_escape, js_escaped_char, js_id_spec, js_string_value,
    unicode_uppercase, word_state, words,
};

verus! {

/// Every character of a page's JS id is alphanumeric or `_`, and the id is as
/// long as the page name.
pub proof fn law_js_id_charset(page: Seq<char>)
    ensures
        js_id_spec(page).len() == page.len(),
        forall|i: int|
            0 <= i < page.len() ==> char_is_alphanumeric(#[trigger] js_id_spec(page)[i]) || js_id_spec(page)[i]
                == '_',
{
}

/// A JS id is its own JS id.
pub proof fn law_js_id_idempotent(page: Seq<char>)
    ensures
        js_id_spec(js_id_spec(page)) == js_id_spec(page),
{
    assert(js_id_spec(js_id_spec(page)) =~= js_id_spec(page));
}

/// The portal's page id and the generated page's JS id agree on every page
/// name, so the tabs, panels and forms of the page carry the ids that the
/// generated scripts use.
pub proof fn law_page_ids_agree(page: Seq<char>)
    ensures
        page_to_id_spec(page) == js_id_spec(page),
{
    assert(page_to_id_spec(page) =~= js_id_spec(page));
}

/// HTML-escaped text holds no `<`, `>` or `"`.
pub proof fn law_escape_html_safe(s: Seq<char>)
    ensures
        forall|i: int|
            0 <= i < escape_html_spec(s).len() ==> #[trigger] escape_html_spec(s)[i] != '<' && escape_html_spec(s)[i]
                != '>' && escape_html_spec(s)[i] != '"',
    decreases s.len(),
{
    if s.len() > 0 {
        law_escape_html_safe(s.drop_last());
        let pre = escape_html_spec(s.drop_last());
        let e = html_entity(s.last());
        assert forall|i: int| 0 <= i < (pre + e).len() implies #[trigger] (pre + e)[i] != '<' && (pre + e)[i] != '>'
            && (pre + e)[i] != '"' by {
            if i >= pre.len() {
                assert((pre + e)[i] == e[i - pre.len()]);
            } else {
                assert((pre + e)[i] == pre[i]);
            }
        }
    }
}

/// JS-escaped text holds no raw line break.
pub proof fn law_escape_js_single_line(s: Seq<char>)
    ensures
        forall|i: int|
            0 <= i < escape_js_spec(s).len() ==> #[trigger] escape_js_spec(s)[i] != '\n' && escape_js_spec(s)[i]
                != '\r',
    decreases s.len(),
{
    if s.len() > 0 {
        law_escape_js_single_line(s.drop_last());
        let pre = escape_js_spec(s.drop_last());
        let e = js_escape(s.last());
        assert forall|i: int| 0 <= i < (pre + e).len() implies #[trigger] (pre + e)[i] != '\n' && (pre + e)[i]
            != '\r' by {
            if i >= pre.len() {
                assert((pre + e)[i] == e[i - pre.len()]);
            } else {
                assert((pre + e)[i] == pre[i]);
            }
        }
    }
}

/// The path part of a request target is a prefix of it and holds no `?`.
pub proof fn law_path_only(full: Seq<char>)
    ensures
        is_prefix(path_only_spec(full), full),
        forall|i: int| 0 <= i < path_only_spec(full).len() ==> #[trigger] path_only_spec(full)[i] != '?',
{
    crate::portal::query::lemma_first_index_of(full, '?');
    match first_index_of(full, '?') {
        Some(k) => {
            assert(full.subrange(0, k) =~= full.take(k));
        },
        None => {
            assert(full.subrange(0, full.len() as int) =~= full);
        },
    }
}

/// One byte as `encodeURIComponent` sends it: unreserved characters as
/// themselves, every other byte as `%` and two upper-case hex digits.
pub open spec fn uri_encode_byte(b: u8) -> Seq<u8> {
    if uri_unreserved(b) {
        seq![b]
    } else {
        seq![37u8, upper_hex_digit(b / 16), upper_hex_digit(b % 16)]
    }
}

/// The bytes `encodeURIComponent` leaves as they are.
pub open spec fn uri_unreserved(b: u8) -> bool {
    (65 <= b && b <= 90) || (97 <= b && b <= 122) || (48 <= b && b <= 57) || b == 45 || b == 95 || b == 46 || b
        == 33 || b == 126 || b == 42 || b == 39 || b == 40 || b == 41
}

/// Upper-case hex digit byte of a value below 16.
pub open spec fn upper_hex_digit(n: u8) -> u8 {
    if n < 10 {
        (48 + n) as u8
    } else {
        (55 + n) as u8
    }
}

/// The bytes of a query value as `encodeURIComponent` sends them.
pub open spec fn uri_encode(b: Seq<u8>) -> Seq<u8>
    decreases b.len(),
{
    if b.len() == 0 {
        Seq::empty()
    } else {
        uri_encode_byte(b[0]) + uri_encode(b.skip(1))
    }
}

/// Decoding a value encoded by `encodeURIComponent` gives back each of its
/// bytes (as one character each).
pub proof fn law_percent_decode_inverts_encode(b: Seq<u8>)
    ensures
        percent_decode_spec(uri_encode(b)) == b.map_values(|x: u8| x as char),
    decreases b.len(),
{
    if b.len() > 0 {
        law_percent_decode_inverts_encode(b.skip(1));
        let x = b[0];
        let e = uri_encode_byte(x);
        let rest = uri_encode(b.skip(1));
        let all = e + rest;
        if uri_unreserved(x) {
            assert(all[0] == x);
            assert(all.skip(1) =~= rest);
        } else {
            let hi = x / 16;
            let lo = x % 16;
            assert(hex_value(upper_hex_digit(hi)) == hi);
            assert(hex_value(upper_hex_digit(lo)) == lo);
            assert(hi * 16 + lo == x);
            assert(all[0] == 37u8);
            assert(all[1] == upper_hex_digit(hi));
            assert(all[2] == upper_hex_digit(lo));
            assert(all.skip(3) =~= rest);
        }
        assert(b.map_values(|x: u8| x as char) =~= seq![x as char] + b.skip(1).map_values(|x: u8| x as char));
    } else {
        assert(b.map_values(|x: u8| x as char) =~= Seq::<char>::empty());
    }
}

/// The fields of `fields` on page `n`, in order.
pub open spec fn fields_on(fields: Seq<FormField>, n: Seq<char>) -> Seq<FormField>
    decreases fields.len(),
{
    if fields.len() == 0 {
        Seq::empty()
    } else if fields.last().page@ == n {
        fields_on(fields.drop_last(), n).push(fields.last())
    } else {
        fields_on(fields.drop_last(), n)
    }
}

/// Grouping partitions the fields by page: page names are distinct, each
/// page holds exactly the fields naming it (in declaration order), every
/// field's page is among them, and no other name has fields.
pub proof fn law_group_pages_partition(fields: Seq<FormField>)
    ensures
        forall|j: int, k: int|
            0 <= j < k < group_pages(fields).len() ==> (#[trigger] group_pages(fields)[j]).0 != (
            #[trigger] group_pages(fields)[k]).0,
        forall|k: int|
            0 <= k < group_pages(fields).len() ==> (#[trigger] group_pages(fields)[k]).1 == fields_on(
                fields,
                group_pages(fields)[k].0,
            ),
        forall|i: int|
            0 <= i < fields.len() ==> exists|k: int|
                0 <= k < group_pages(fields).len() && (#[trigger] group_pages(fields)[k]).0 == (
                #[trigger] fields[i]).page@,
        forall|n: Seq<char>|
            (forall|k: int| 0 <= k < group_pages(fields).len() ==> (#[trigger] group_pages(fields)[k]).0 != n)
                ==> #[trigger] fields_on(fields, n) == Seq::<FormField>::empty(),
    decreases fields.len(),
{
    if fields.len() > 0 {
        let pre = fields.drop_last();
        let f = fields.last();
        law_group_pages_partition(pre);
        let gp = group_pages(pre);
        let g = group_pages(fields);
        let names = page_names(gp);
        lemma_first_index(names, f.page@);
        match first_index(names, f.page@) {
            Some(j) => {
                assert(gp[j].0 == f.page@);
                assert(g == gp.update(j, (gp[j].0, gp[j].1.push(f))));
                assert forall|k: int| 0 <= k < g.len() implies (#[trigger] g[k]).1 == fields_on(fields, g[k].0) by {
                    if k == j {
                        assert(fields_on(fields, g[k].0) == fields_on(pre, g[k].0).push(f));
                    } else {
                        assert(g[k] == gp[k]);
                        if k < j {
                            assert(gp[k].0 != gp[j].0);
                        } else {
                            assert(gp[j].0 != gp[k].0);
                        }
                        assert(fields_on(fields, g[k].0) == fields_on(pre, g[k].0));
                    }
                }
                assert forall|i: int| 0 <= i < fields.len() implies exists|k: int|
                    0 <= k < g.len() && (#[trigger] g[k]).0 == (#[trigger] fields[i]).page@ by {
                    if i < pre.len() {
                        assert(fields[i] == pre[i]);
                        let k = choose|k: int| 0 <= k < gp.len() && (#[trigger] gp[k]).0 == (#[trigger] pre[i]).page@;
                        assert(g[k].0 == gp[k].0);
                    } else {
                        assert(g[j].0 == fields[i].page@);
                    }
                }
                assert forall|n: Seq<char>|
                    (forall|k: int| 0 <= k < g.len() ==> (#[trigger] g[k]).0 != n) implies #[trigger] fields_on(
                        fields,
                        n,
                    ) == Seq::<FormField>::empty() by {
                    assert forall|k: int| 0 <= k < gp.len() implies (#[trigger] gp[k]).0 != n by {
                        assert(g[k].0 == gp[k].0);
                    }
                    assert(g[j].0 != n);
                    assert(fields_on(fields, n) == fields_on(pre, n));
                    assert(fields_on(pre, n) == Seq::<FormField>::empty());
                }
            },
            None => {
                assert(g == gp.push((f.page@, seq![f])));
                assert forall|k: int| 0 <= k < gp.len() implies (#[trigger] gp[k]).0 != f.page@ by {
                    assert(names[k] == gp[k].0);
                }
                assert(fields_on(pre, f.page@) == Seq::<FormField>::empty());
                assert forall|k: int| 0 <= k < g.len() implies (#[trigger] g[k]).1 == fields_on(fields, g[k].0) by {
                    if k == gp.len() {
                        assert(fields_on(fields, f.page@) =~= seq![f]);
                    } else {
                        assert(g[k] == gp[k]);
                    }
                }
                assert forall|i: int| 0 <= i < fields.len() implies exists|k: int|
                    0 <= k < g.len() && (#[trigger] g[k]).0 == (#[trigger] fields[i]).page@ by {
                    if i < pre.len() {
                        assert(fields[i] == pre[i]);
                        let k = choose|k: int| 0 <= k < gp.len() && (#[trigger] gp[k]).0 == (#[trigger] pre[i]).page@;
                        assert(g[k].0 == gp[k].0);
                    } else {
                        assert(g[gp.len() as int].0 == fields[i].page@);
                    }
                }
                assert forall|n: Seq<char>|
                    (forall|k: int| 0 <= k < g.len() ==> (#[trigger] g[k]).0 != n) implies #[trigger] fields_on(
                        fields,
                        n,
                    ) == Seq::<FormField>::empty() by {
                    assert forall|k: int| 0 <= k < gp.len() implies (#[trigger] gp[k]).0 != n by {
                        assert(g[k].0 == gp[k].0);
                    }
                    assert(g[gp.len() as int].0 != n);
                    assert(fields_on(fields, n) == fields_on(pre, n));
                    assert(fields_on(pre, n) == Seq::<FormField>::empty());
                }
            },
        }
    }
}

/// When no fieldset conflict is found, every fieldset is on a single page.
pub proof fn law_fieldset_single_page(pairs: Seq<(Seq<char>, Seq<char>)>)
    requires
        fieldset_conflict(pairs) is None,
    ensures
        forall|i: int, j: int|
            0 <= i < pairs.len() && 0 <= j < pairs.len() && (#[trigger] pairs[i]).0 == (#[trigger] pairs[j]).0
                ==> pairs[i].1 == pairs[j].1,
    decreases pairs.len(),
{
    if pairs.len() > 0 {
        let pre = pairs.drop_last();
        let x = pairs.last();
        law_fieldset_single_page(pre);
        lemma_first_index(pair_names(pre), x.0);
        assert forall|i: int| 0 <= i < pre.len() && (#[trigger] pre[i]).0 == x.0 implies pre[i].1 == x.1 by {
            assert(pair_names(pre)[i] == x.0);
            match first_index(pair_names(pre), x.0) {
                Some(j) => {
                    assert(pre[j].0 == x.0);
                    assert(pre[j].1 == x.1);
                },
                None => {},
            }
        }
        assert forall|i: int, j: int|
            0 <= i < pairs.len() && 0 <= j < pairs.len() && (#[trigger] pairs[i]).0 == (#[trigger] pairs[j]).0
                implies pairs[i].1 == pairs[j].1 by {
            if i < pre.len() && j < pre.len() {
                assert(pairs[i] == pre[i]);
                assert(pairs[j] == pre[j]);
            } else if i < pre.len() {
                assert(pairs[i] == pre[i]);
            } else if j < pre.len() {
                assert(pairs[j] == pre[j]);
            }
        }
    }
}

/// The collision checks compare exactly the pairs of distinct positions: they
/// all pass if and only if no two keys have the same hash.
pub proof fn law_collision_checks_exact(h: Seq<u64>)
    ensures
        (forall|k: int| 0 <= k < collision_pairs(h).len() ==> (#[trigger] collision_pairs(h)[k]).0 != collision_pairs(
            h,
        )[k].1) <==> (forall|i: int, j: int| 0 <= i < j < h.len() ==> #[trigger] h[i] != #[trigger] h[j]),
{
    let pairs = collision_pairs(h);
    lemma_pairs_cover(h);
    lemma_pairs_sound(h);
    if forall|k: int| 0 <= k < pairs.len() ==> (#[trigger] pairs[k]).0 != pairs[k].1 {
        assert forall|i: int, j: int| 0 <= i < j < h.len() implies #[trigger] h[i] != #[trigger] h[j] by {
            assert(pairs.contains((h[i], h[j])));
            let k = choose|k: int| 0 <= k < pairs.len() && pairs[k] == (h[i], h[j]);
            assert(pairs[k].0 != pairs[k].1);
        }
    }
    if forall|i: int, j: int| 0 <= i < j < h.len() ==> #[trigger] h[i] != #[trigger] h[j] {
        assert forall|k: int| 0 <= k < pairs.len() implies (#[trigger] pairs[k]).0 != pairs[k].1 by {
            let (i, j) = choose|i: int, j: int| 0 <= i < j < h.len() && pairs[k] == (h[i], h[j]);
            assert(h[i] != h[j]);
        }
    }
}

proof fn lemma_pairs_cover(h: Seq<u64>)
    ensures
        forall|i: int, j: int|
            0 <= i < j < h.len() ==> collision_pairs(h).contains((#[trigger] h[i], #[trigger] h[j])),
    decreases h.len(),
{
    if h.len() > 0 {
        lemma_pairs_cover(h.skip(1));
        let row = h.skip(1).map_values(|x: u64| (h[0], x));
        let rest = collision_pairs(h.skip(1));
        assert(collision_pairs(h) == row + rest);
        assert forall|i: int, j: int| 0 <= i < j < h.len() implies collision_pairs(h).contains(
            (#[trigger] h[i], #[trigger] h[j]),
        ) by {
            if i == 0 {
                assert(collision_pairs(h)[j - 1] == (h[i], h[j]));
            } else {
                assert(h[i] == h.skip(1)[i - 1]);
                assert(h[j] == h.skip(1)[j - 1]);
                assert(rest.contains((h.skip(1)[i - 1], h.skip(1)[j - 1])));
                let k = choose|k: int| 0 <= k < rest.len() && rest[k] == (h.skip(1)[i - 1], h.skip(1)[j - 1]);
                assert(collision_pairs(h)[row.len() + k] == rest[k]);
            }
        }
    }
}

proof fn lemma_pairs_sound(h: Seq<u64>)
    ensures
        forall|k: int|
            0 <= k < collision_pairs(h).len() ==> exists|i: int, j: int|
                0 <= i < j < h.len() && #[trigger] collision_pairs(h)[k] == (h[i], h[j]),
    decreases h.len(),
{
    if h.len() > 0 {
        lemma_pairs_sound(h.skip(1));
        let row = h.skip(1).map_values(|x: u64| (h[0], x));
        let rest = collision_pairs(h.skip(1));
        assert(collision_pairs(h) == row + rest);
        assert forall|k: int| 0 <= k < collision_pairs(h).len() implies exists|i: int, j: int|
            0 <= i < j < h.len() && #[trigger] collision_pairs(h)[k] == (h[i], h[j]) by {
            if k < row.len() {
                assert(collision_pairs(h)[k] == (h[0], h[k + 1]));
            } else {
                let k2 = k - row.len();
                assert(collision_pairs(h)[k] == rest[k2]);
                let (i, j) = choose|i: int, j: int| 0 <= i < j < h.skip(1).len() && #[trigger] rest[k2] == (
                    h.skip(1)[i],
                    h.skip(1)[j],
                );
                assert(rest[k2] == (h[i + 1], h[j + 1]));
            }
        }
    }
}

/// A byte in decimal, without leading zeros.
pub open spec fn dec_text(b: u8) -> Seq<char> {
    if b >= 100 {
        seq![dec_digit((b / 100) as int), dec_digit(((b / 10) % 10) as int), dec_digit((b % 10) as int)]
    } else if b >= 10 {
        seq![dec_digit((b / 10) as int), dec_digit((b % 10) as int)]
    } else {
        seq![dec_digit(b as int)]
    }
}

/// An IPv4 address in dotted-decimal notation.
pub open spec fn ipv4_text(ip: Seq<u8>) -> Seq<char> {
    dec_text(ip[0]) + seq!['.'] + dec_text(ip[1]) + seq!['.'] + dec_text(ip[2]) + seq!['.'] + dec_text(ip[3])
}

/// The captive-portal host name is the AP's IP address in dotted-decimal
/// notation, and the redirect URL is that host's root.
pub proof fn law_ap_addresses()
    ensures
        AP_HOST_NAME@ == ipv4_text(AP_IP_ADDRESS@),
        AP_URL@ == "http://"@ + AP_HOST_NAME@ + "/"@,
{
    reveal_strlit("192.168.2.1");
    reveal_strlit("http://192.168.2.1/");
    reveal_strlit("http://");
    reveal_strlit("/");
    assert(AP_IP_ADDRESS@ =~= seq![192u8, 168u8, 2u8, 1u8]);
    assert(dec_text(192) =~= seq!['1', '9', '2']);
    assert(dec_text(168) =~= seq!['1', '6', '8']);
    assert(dec_text(2) =~= seq!['2']);
    assert(dec_text(1) =~= seq!['1']);
    assert(AP_HOST_NAME@ =~= ipv4_text(AP_IP_ADDRESS@));
    assert(AP_URL@ =~= "http://"@ + AP_HOST_NAME@ + "/"@);
}

/// Bytes sent by `encodeURIComponent` are ASCII and never `&`.
proof fn lemma_uri_encode_ascii(b: Seq<u8>)
    ensures
        forall|i: int| 0 <= i < uri_encode(b).len() ==> #[trigger] uri_encode(b)[i] < 128 && uri_encode(b)[i] != 38,
    decreases b.len(),
{
    if b.len() > 0 {
        lemma_uri_encode_ascii(b.skip(1));
        let e = uri_encode_byte(b[0]);
        let rest = uri_encode(b.skip(1));
        assert forall|i: int| 0 <= i < (e + rest).len() implies #[trigger] (e + rest)[i] < 128 && (e + rest)[i] != 38 by {
            if i < e.len() {
                assert((e + rest)[i] == e[i]);
            } else {
                assert((e + rest)[i] == rest[i - e.len()]);
            }
        }
    }
}

/// Splitting text that holds no separator gives the text as its only piece.
proof fn lemma_split_without_separator(s: Seq<char>, d: char)
    requires
        forall|i: int| 0 <= i < s.len() ==> s[i] != d,
    ensures
        split_state(s, d) == (Seq::<Seq<char>>::empty(), s),
    decreases s.len(),
{
    if s.len() > 0 {
        lemma_split_without_separator(s.drop_last(), d);
        assert(s.drop_last().push(s.last()) =~= s);
    }
}

/// What a page's `saveConfig` sends, the portal reads back: for a request
/// path without `?`, the `set` parameter of `path?set=` followed by the
/// `encodeURIComponent` encoding of the JSON bytes decodes to those bytes.
pub proof fn law_set_param_roundtrip(path: Seq<char>, json: Seq<u8>)
    requires
        forall|i: int| 0 <= i < path.len() ==> path[i] != '?',
    ensures
        set_param_spec(
            path + seq!['?', 's', 'e', 't', '='] + uri_encode(json).map_values(|b: u8| b as char),
        ) == Some(json.map_values(|x: u8| x as char)),
{
    let enc = uri_encode(json);
    let v = enc.map_values(|b: u8| b as char);
    let head = seq!['s', 'e', 't', '='];
    let full = path + seq!['?'] + head + v;
    assert(path + seq!['?', 's', 'e', 't', '='] + v =~= full);
    lemma_uri_encode_ascii(json);
    crate::portal::query::lemma_first_index_of(full, '?');
    assert(full[path.len() as int] == '?');
    match first_index_of(full, '?') {
        Some(k) => {
            assert(!(k < path.len()));
        },
        None => {},
    }
    assert(first_index_of(full, '?') == Some(path.len() as int));
    let q = full.skip(path.len() as int + 1);
    assert(q =~= head + v);
    assert forall|i: int| 0 <= i < q.len() implies q[i] != '&' by {
        if i >= 4 {
            assert(q[i] == v[i - 4]);
            assert(enc[i - 4] != 38);
            assert(enc[i - 4] < 128);
        }
    }
    lemma_split_without_separator(q, '&');
    assert(split_spec(q, '&') =~= seq![q]);
    assert(q.subrange(0, 4) =~= head);
    assert(is_prefix(head, q));
    assert(q.skip(4) =~= v);
    assert(raw_set_param(full) == Some(v));
    assert forall|i: int| 0 <= i < v.len() implies '\0' <= #[trigger] v[i] <= '\u{7f}' by {
        assert(enc[i] < 128);
    }
    assert(is_ascii_chars(v));
    is_ascii_chars_encode_utf8(v);
    assert(encode_utf8(v) =~= enc);
    law_percent_decode_inverts_encode(json);
}

/// Each page of the config document is one group of the JSON API: the API
/// serves the same pages, in the same order, as the page's tabs, when every
/// API field names the page of the form field at its position.
pub proof fn law_api_pages_are_form_pages(fields: Seq<FormField>, apis: Seq<ApiField>)
    requires
        apis.len() == fields.len(),
        forall|i: int| 0 <= i < fields.len() ==> (#[trigger] apis[i]).page@ == fields[i].page@,
    ensures
        page_order(apis.map_values(|a: ApiField| a.page@)) == page_names(group_pages(fields)),
    decreases fields.len(),
{
    if fields.len() > 0 {
        let pre = fields.drop_last();
        let apre = apis.drop_last();
        assert forall|i: int| 0 <= i < pre.len() implies (#[trigger] apre[i]).page@ == pre[i].page@ by {
            assert(apis[i].page@ == fields[i].page@);
        }
        law_api_pages_are_form_pages(pre, apre);
        let names = apis.map_values(|a: ApiField| a.page@);
        assert(names.drop_last() =~= apre.map_values(|a: ApiField| a.page@));
        assert(names.last() == fields.last().page@);
        let gp = group_pages(pre);
        let prev = page_names(gp);
        lemma_first_index(prev, fields.last().page@);
        match first_index(prev, fields.last().page@) {
            Some(j) => {
                assert(prev.contains(fields.last().page@));
                assert(page_names(group_pages(fields)) =~= prev);
            },
            None => {
                assert(!prev.contains(fields.last().page@));
                assert(page_names(group_pages(fields)) =~= prev.push(fields.last().page@));
            },
        }
    } else {
        assert(apis.map_values(|a: ApiField| a.page@) =~= Seq::<Seq<char>>::empty());
    }
}

/// A request for `/config-group/<g>`, with or without a query, is routed to
/// the group `g` (for group names without `?`).
pub proof fn law_group_route(g: Seq<char>, query: Option<Seq<char>>, r: Route)
    requires
        forall|i: int| 0 <= i < g.len() ==> g[i] != '?',
        route_matches(
            match query {
                Some(q) => GROUP_PREFIX@ + g + seq!['?'] + q,
                None => GROUP_PREFIX@ + g,
            },
            r,
        ),
    ensures
        r matches Route::ConfigGroup(x) && x@ == g,
{
    reveal_strlit("/config-group/");
    reveal_strlit("/");
    let path = GROUP_PREFIX@ + g;
    let full = match query {
        Some(q) => path + seq!['?'] + q,
        None => path,
    };
    crate::portal::query::lemma_first_index_of(full, '?');
    assert forall|i: int| 0 <= i < path.len() implies path[i] != '?' by {
        if i >= 14 {
            assert(path[i] == g[i - 14]);
        }
    }
    match query {
        Some(q) => {
            assert(full[path.len() as int] == '?');
            match first_index_of(full, '?') {
                Some(k) => {
                    assert(!(k < path.len()));
                    assert(k == path.len());
                    assert(full.take(k) =~= path);
                },
                None => {},
            }
        },
        None => {},
    }
    assert(path_only_spec(full) == path);
    assert(path.len() >= 14);
    assert(path[1] == 'c');
    assert(path != "/"@);
    assert(path.subrange(0, 14) =~= GROUP_PREFIX@);
    assert(path.skip(14) =~= g);
}

/// The HTTP server has at least as many acceptors as workers, so connections
/// that arrive while every worker is busy wait in the queue.
pub proof fn law_acceptors_cover_workers()
    ensures
        ACCEPTOR_TASKS >= HANDLER_TASKS,
{
}

/// The access-point stack has a socket for every connection the portal
/// accepts at once, one for the DHCP server and one for the captive DNS server.
pub proof fn law_ap_sockets_cover_portal()
    ensures
        AP_SOCKET_COUNT >= ACCEPTOR_TASKS + 2,
{
}

/// `x` occurs in `s`.
pub open spec fn occurs_in(x: Seq<char>, s: Seq<char>) -> bool {
    exists|a: Seq<char>, b: Seq<char>| s == #[trigger] around(a, x, b)
}

/// `x` with `a` before it and `b` after it.
pub open spec fn around(a: Seq<char>, x: Seq<char>, b: Seq<char>) -> Seq<char> {
    a + x + b
}

/// The start of the form of the page with id `id`.
pub open spec fn form_marker(id: Seq<char>) -> Seq<char> {
    LOADING_CLOSE@ + id + FORM_OPEN_END@
}

/// The script binding of the page with id `id` to its config group URL.
pub open spec fn group_binding(id: Seq<char>) -> Seq<char> {
    JS_URL_CONST@ + id + JS_URL_VALUE@ + id
}

/// The lookup of the page's own form by its save function.
pub open spec fn save_form_lookup(id: Seq<char>) -> Seq<char> {
    JS_SAVE_FORM@ + escape_js_spec(FORM_ID_PREFIX@ + id) + JS_SAVE_DATA@
}

/// An occurrence in `s` is one in `s` with text around it.
pub proof fn lemma_occurs_extend(x: Seq<char>, s: Seq<char>, pre: Seq<char>, post: Seq<char>)
    requires
        occurs_in(x, s),
    ensures
        occurs_in(x, pre + s + post),
{
    let (a, b) = choose|a: Seq<char>, b: Seq<char>| s == #[trigger] around(a, x, b);
    assert(pre + s + post =~= around(pre + a, x, b + post));
}

proof fn lemma_panel_in_panels(pages: Seq<(Seq<char>, Seq<FormField>)>, def: Seq<char>, k: int)
    requires
        panels_spec(pages, def) is Ok,
        0 <= k < pages.len(),
    ensures
        panel_spec(pages[k], def) is Ok,
        occurs_in(form_marker(js_id_spec(pages[k].0)), panels_spec(pages, def)->Ok_0),
    decreases pages.len(),
{
    let h = panel_spec(pages[0], def)->Ok_0;
    let rest = panels_spec(pages.skip(1), def);
    if k == 0 {
        let id = js_id_spec(pages[0].0);
        let html = html_string_spec(pages[0].1)->Ok_0;
        let disp = if id == def {
            Seq::<char>::empty()
        } else {
            DISPLAY_NONE@
        };
        let a = PANEL_OPEN@ + id + QUOTE@ + disp + LOADING_OPEN@ + id;
        let b = html + PANEL_BUTTONS@ + rest->Ok_0;
        assert(panels_spec(pages, def)->Ok_0 =~= around(a, form_marker(id), b));
    } else {
        assert(pages.skip(1)[k - 1] == pages[k]);
        lemma_panel_in_panels(pages.skip(1), def, k - 1);
        lemma_occurs_extend(form_marker(js_id_spec(pages[k].0)), rest->Ok_0, h, Seq::empty());
        assert(h + rest->Ok_0 + Seq::<char>::empty() =~= panels_spec(pages, def)->Ok_0);
    }
}

/// The script of one page, cut around its group binding and its form lookup.
#[verifier::rlimit(50)]
#[verifier::spinoff_prover]
proof fn lemma_js_shape(page: Seq<char>, fields: Seq<FormField>) -> (parts: (Seq<char>, Seq<char>, Seq<char>))
    requires
        js_string_spec(page, fields) is Ok,
    ensures
        js_string_spec(page, fields)->Ok_0 == parts.0 + group_binding(js_id_spec(page)) + parts.1
            + save_form_lookup(js_id_spec(page)) + parts.2,
{
    let id = js_id_spec(page);
    let js = js_string_spec(page, fields)->Ok_0;
    let saves = js_saves_spec(fields)->Ok_0;
    let tail = JS_LOAD_FN@ + id + JS_LOAD_FETCH@ + id + JS_LOAD_JSON@ + js_loads_spec(fields) + JS_SAVE_FN@ + id;
    let after = saves + JS_SAVE_FETCH@ + id + JS_SAVE_SEND@ + id + JS_EXPORT_LOAD_A@ + id + JS_EXPORT_LOAD_B@ + id
        + JS_EXPORT_SAVE_A@ + id + JS_EXPORT_SAVE_B@ + id + JS_EXPORT_SAVE_C@ + id + JS_END@;
    let a1 = JS_PAGE_CONST@ + id + JS_ASSIGN_STR@ + escape_js_spec(page);
    assert(js =~= a1 + group_binding(id) + tail + save_form_lookup(id) + after);
    (a1, tail, after)
}

/// The script of one page holds its group binding and its form lookup.
proof fn lemma_js_markers(page: Seq<char>, fields: Seq<FormField>)
    requires
        js_string_spec(page, fields) is Ok,
    ensures
        occurs_in(group_binding(js_id_spec(page)), js_string_spec(page, fields)->Ok_0),
        occurs_in(save_form_lookup(js_id_spec(page)), js_string_spec(page, fields)->Ok_0),
{
    let id = js_id_spec(page);
    let js = js_string_spec(page, fields)->Ok_0;
    let (a, t, b) = lemma_js_shape(page, fields);
    let g = group_binding(id);
    let f = save_form_lookup(id);
    assert(js =~= around(a, g, t + f + b));
    assert(js =~= around(a + g + t, f, b));
}

proof fn lemma_script_in_scripts(pages: Seq<(Seq<char>, Seq<FormField>)>, k: int)
    requires
        scripts_spec(pages) is Ok,
        0 <= k < pages.len(),
    ensures
        js_string_spec(pages[k].0, pages[k].1) is Ok,
        occurs_in(group_binding(js_id_spec(pages[k].0)), scripts_spec(pages)->Ok_0),
        occurs_in(save_form_lookup(js_id_spec(pages[k].0)), scripts_spec(pages)->Ok_0),
    decreases pages.len(),
{
    let h = js_string_spec(pages[0].0, pages[0].1)->Ok_0;
    let rest = scripts_spec(pages.skip(1))->Ok_0;
    assert(scripts_spec(pages)->Ok_0 == h + rest);
    if k == 0 {
        let id = js_id_spec(pages[0].0);
        lemma_js_markers(pages[0].0, pages[0].1);
        lemma_occurs_extend(group_binding(id), h, Seq::empty(), rest);
        lemma_occurs_extend(save_form_lookup(id), h, Seq::empty(), rest);
        assert(Seq::<char>::empty() + h + rest =~= h + rest);
    } else {
        assert(pages.skip(1)[k - 1] == pages[k]);
        lemma_script_in_scripts(pages.skip(1), k - 1);
        let id = js_id_spec(pages[k].0);
        lemma_occurs_extend(group_binding(id), rest, h, Seq::empty());
        lemma_occurs_extend(save_form_lookup(id), rest, h, Seq::empty());
        assert(h + rest + Seq::<char>::empty() =~= h + rest);
    }
}

/// Every page of a built config document has its own form, its script is
/// bound to its own config group (`/config-group/` + the page), and its save
/// function reads only that form.
#[verifier::rlimit(100)]
#[verifier::spinoff_prover]
pub proof fn law_each_page_saves_its_own_group(ui: UiAttrs, pages: Seq<(Seq<char>, Seq<FormField>)>, k: int)
    requires
        full_page_spec(ui, pages) is Ok,
        0 <= k < pages.len(),
    ensures
        occurs_in(form_marker(js_id_spec(pages[k].0)), full_page_spec(ui, pages)->Ok_0),
        occurs_in(group_binding(js_id_spec(pages[k].0)), full_page_spec(ui, pages)->Ok_0),
        occurs_in(save_form_lookup(js_id_spec(pages[k].0)), full_page_spec(ui, pages)->Ok_0),
{
    let def = default_page_id(ui, pages);
    let panels = panels_spec(pages, def)->Ok_0;
    let js = scripts_spec(pages)->Ok_0;
    let id = js_id_spec(pages[k].0);
    lemma_panel_in_panels(pages, def, k);
    lemma_script_in_scripts(pages, k);
    let head = head_spec(ui) + tab_bar_spec(pages, def);
    let end = SCRIPT_BETWEEN@ + CONFIG_PAGE_TAB_SCRIPT@ + DEFAULT_PAGE_OPEN@ + escape_js_spec(def)
        + DEFAULT_PAGE_CLOSE@;
    let full = full_page_spec(ui, pages)->Ok_0;
    assert(full =~= head + panels + (BODY_CLOSE@ + js + end));
    lemma_occurs_extend(form_marker(id), panels, head, BODY_CLOSE@ + js + end);
    assert(full =~= (head + panels + BODY_CLOSE@) + js + end);
    lemma_occurs_extend(group_binding(id), js, head + panels + BODY_CLOSE@, end);
    lemma_occurs_extend(save_form_lookup(id), js, head + panels + BODY_CLOSE@, end);
}


// ---------------------------------------------------------------------------
// Escaping gives back its input
// ---------------------------------------------------------------------------

proof fn lemma_escape_html_concat(a: Seq<char>, b: Seq<char>)
    ensures
        escape_html_spec(a + b) == escape_html_spec(a) + escape_html_spec(b),
    decreases b.len(),
{
    if b.len() == 0 {
        assert(a + b =~= a);
        assert(escape_html_spec(a) + escape_html_spec(b) =~= escape_html_spec(a));
    } else {
        lemma_escape_html_concat(a, b.drop_last());
        assert((a + b).drop_last() =~= a + b.drop_last());
        assert((a + b).last() == b.last());
        assert(escape_html_spec(a) + escape_html_spec(b.drop_last()) + html_entity(b.last()) =~= escape_html_spec(a)
            + (escape_html_spec(b.drop_last()) + html_entity(b.last())));
    }
}

proof fn lemma_escape_html_front(s: Seq<char>)
    requires
        s.len() > 0,
    ensures
        escape_html_spec(s) == html_entity(s[0]) + escape_html_spec(s.skip(1)),
{
    let one = seq![s[0]];
    lemma_escape_html_concat(one, s.skip(1));
    assert(one + s.skip(1) =~= s);
    assert(one.drop_last() =~= Seq::<char>::empty());
    assert(escape_html_spec(one.drop_last()) =~= Seq::<char>::empty());
    assert(one.last() == s[0]);
    assert(escape_html_spec(one) =~= html_entity(s[0]));
}

proof fn lemma_decode_entity(c: char, rest: Seq<char>)
    ensures
        decode_html_spec(html_entity(c) + rest) == seq![c] + decode_html_spec(rest),
{
    let t = html_entity(c) + rest;
    let amp = html_entity('&');
    let lt = html_entity('<');
    let gt = html_entity('>');
    if c == '&' {
        assert(t.take(5) =~= amp);
        assert(t.skip(5) =~= rest);
    } else if c == '<' {
        assert(t[1] == 'l');
        assert(t.len() >= 5 ==> t.take(5)[1] != amp[1]);
        assert(t.take(4) =~= lt);
        assert(t.skip(4) =~= rest);
    } else if c == '>' {
        assert(t[1] == 'g');
        assert(t.len() >= 5 ==> t.take(5)[1] != amp[1]);
        assert(t.take(4)[1] != lt[1]);
        assert(t.take(4) =~= gt);
        assert(t.skip(4) =~= rest);
    } else if c == '"' {
        assert(t[1] == 'q');
        assert(t.take(5)[1] != amp[1]);
        assert(t.take(4)[1] != lt[1]);
        assert(t.take(4)[1] != gt[1]);
        assert(t.take(6) =~= html_entity('"'));
        assert(t.skip(6) =~= rest);
    } else {
        assert(t[0] == c);
        assert(t.len() >= 5 ==> t.take(5)[0] != amp[0]);
        assert(t.len() >= 4 ==> t.take(4)[0] != lt[0]);
        assert(t.len() >= 4 ==> t.take(4)[0] != gt[0]);
        assert(t.len() >= 6 ==> t.take(6)[0] != html_entity('"')[0]);
        assert(t.skip(1) =~= rest);
    }
}

/// Reading the entities of HTML-escaped text gives back the text.
pub proof fn law_decode_html_inverts_escape(s: Seq<char>)
    ensures
        decode_html_spec(escape_html_spec(s)) == s,
    decreases s.len(),
{
    if s.len() > 0 {
        lemma_escape_html_front(s);
        law_decode_html_inverts_escape(s.skip(1));
        lemma_decode_entity(s[0], escape_html_spec(s.skip(1)));
        assert(seq![s[0]] + s.skip(1) =~= s);
    }
}

/// Text without `&`, `<`, `>` and `"` is left as it is by HTML escaping.
pub proof fn law_escape_html_plain(s: Seq<char>)
    requires
        forall|i: int| 0 <= i < s.len() ==> #[trigger] s[i] != '&' && s[i] != '<' && s[i] != '>' && s[i] != '"',
    ensures
        escape_html_spec(s) == s,
    decreases s.len(),
{
    if s.len() > 0 {
        assert forall|i: int| 0 <= i < s.drop_last().len() implies #[trigger] s.drop_last()[i] != '&'
            && s.drop_last()[i] != '<' && s.drop_last()[i] != '>' && s.drop_last()[i] != '"' by {
            assert(s.drop_last()[i] == s[i]);
        }
        law_escape_html_plain(s.drop_last());
        assert(s[s.len() - 1] == s.last());
        assert(s.drop_last() + html_entity(s.last()) =~= s);
    }
}

proof fn lemma_escape_js_concat(a: Seq<char>, b: Seq<char>)
    ensures
        escape_js_spec(a + b) == escape_js_spec(a) + escape_js_spec(b),
    decreases b.len(),
{
    if b.len() == 0 {
        assert(a + b =~= a);
        assert(escape_js_spec(a) + escape_js_spec(b) =~= escape_js_spec(a));
    } else {
        lemma_escape_js_concat(a, b.drop_last());
        assert((a + b).drop_last() =~= a + b.drop_last());
        assert((a + b).last() == b.last());
        assert(escape_js_spec(a) + escape_js_spec(b.drop_last()) + js_escape(b.last()) =~= escape_js_spec(a) + (
        escape_js_spec(b.drop_last()) + js_escape(b.last())));
    }
}

proof fn lemma_escape_js_front(s: Seq<char>)
    requires
        s.len() > 0,
    ensures
        escape_js_spec(s) == js_escape(s[0]) + escape_js_spec(s.skip(1)),
{
    let one = seq![s[0]];
    lemma_escape_js_concat(one, s.skip(1));
    assert(one + s.skip(1) =~= s);
    assert(one.drop_last() =~= Seq::<char>::empty());
    assert(escape_js_spec(one.drop_last()) =~= Seq::<char>::empty());
    assert(one.last() == s[0]);
    assert(escape_js_spec(one) =~= js_escape(s[0]));
}

proof fn lemma_js_value_escape(c: char, rest: Seq<char>, v: Seq<char>)
    requires
        js_string_value(rest) == Some(v),
    ensures
        js_string_value(js_escape(c) + rest) == Some(seq![c] + v),
{
    let t = js_escape(c) + rest;
    if c == '\\' || c == '"' || c == '\n' || c == '\r' {
        assert(t[0] == '\\');
        assert(t.skip(2) =~= rest);
        if c == '\\' {
            assert(t[1] == '\\');
        } else if c == '"' {
            assert(t[1] == '"');
        } else if c == '\n' {
            assert(t[1] == 'n');
        } else {
            assert(t[1] == 'r');
        }
        assert(js_escaped_char(t[1]) == Some(c));
    } else {
        assert(t[0] == c);
        assert(t.skip(1) =~= rest);
    }
}

/// The JavaScript string literal whose body is the escaped text evaluates to
/// the text.
pub proof fn law_js_literal_gives_back_text(s: Seq<char>)
    ensures
        js_string_value(escape_js_spec(s)) == Some(s),
    decreases s.len(),
{
    if s.len() > 0 {
        lemma_escape_js_front(s);
        law_js_literal_gives_back_text(s.skip(1));
        lemma_js_value_escape(s[0], escape_js_spec(s.skip(1)), s.skip(1));
        assert(seq![s[0]] + s.skip(1) =~= s);
    }
}

/// Text without `\`, `"`, line feed and carriage return is left as it is by
/// JavaScript escaping.
pub proof fn law_escape_js_plain(s: Seq<char>)
    requires
        forall|i: int| 0 <= i < s.len() ==> #[trigger] s[i] != '\\' && s[i] != '"' && s[i] != '\n' && s[i] != '\r',
    ensures
        escape_js_spec(s) == s,
    decreases s.len(),
{
    if s.len() > 0 {
        assert forall|i: int| 0 <= i < s.drop_last().len() implies #[trigger] s.drop_last()[i] != '\\'
            && s.drop_last()[i] != '"' && s.drop_last()[i] != '\n' && s.drop_last()[i] != '\r' by {
            assert(s.drop_last()[i] == s[i]);
        }
        law_escape_js_plain(s.drop_last());
        assert(s[s.len() - 1] == s.last());
        assert(s.drop_last() + js_escape(s.last()) =~= s);
    }
}


// ---------------------------------------------------------------------------
// Labels and PascalCase names
// ---------------------------------------------------------------------------

/// `t` with its spaces taken out.
pub open spec fn drop_spaces(t: Seq<char>) -> Seq<char>
    decreases t.len(),
{
    if t.len() == 0 {
        Seq::empty()
    } else if t.last() == ' ' {
        drop_spaces(t.drop_last())
    } else {
        drop_spaces(t.drop_last()).push(t.last())
    }
}

/// `t` holds no space.
pub open spec fn spaceless(t: Seq<char>) -> bool {
    forall|i: int| 0 <= i < t.len() ==> #[trigger] t[i] != ' '
}

/// A character that can stand in a word and whose upper-case form holds no
/// space.
spec fn word_char_ok(c: char) -> bool {
    &&& char_is_alphanumeric(c)
    &&& spaceless(char_uppercase(c))
}

spec fn word_ok(w: Seq<char>) -> bool {
    forall|j: int| 0 <= j < w.len() ==> word_char_ok(#[trigger] w[j])
}

proof fn lemma_drop_spaces_concat(a: Seq<char>, b: Seq<char>)
    ensures
        drop_spaces(a + b) == drop_spaces(a) + drop_spaces(b),
    decreases b.len(),
{
    if b.len() == 0 {
        assert(a + b =~= a);
        assert(drop_spaces(a) + drop_spaces(b) =~= drop_spaces(a));
    } else {
        lemma_drop_spaces_concat(a, b.drop_last());
        assert((a + b).drop_last() =~= a + b.drop_last());
        assert((a + b).last() == b.last());
        if b.last() != ' ' {
            assert(drop_spaces(a) + drop_spaces(b.drop_last()).push(b.last()) =~= (drop_spaces(a) + drop_spaces(
                b.drop_last(),
            )).push(b.last()));
        }
    }
}

proof fn lemma_drop_spaces_none(t: Seq<char>)
    requires
        spaceless(t),
    ensures
        drop_spaces(t) == t,
    decreases t.len(),
{
    if t.len() > 0 {
        assert forall|i: int| 0 <= i < t.drop_last().len() implies #[trigger] t.drop_last()[i] != ' ' by {
            assert(t.drop_last()[i] == t[i]);
        }
        lemma_drop_spaces_none(t.drop_last());
        assert(t[t.len() - 1] == t.last());
        assert(t.drop_last().push(t.last()) =~= t);
    }
}

proof fn lemma_drop_spaces_join(ws: Seq<Seq<char>>)
    requires
        forall|k: int| 0 <= k < ws.len() ==> spaceless(#[trigger] ws[k]),
    ensures
        drop_spaces(join_with(ws, seq![' '])) == join_with(ws, Seq::empty()),
    decreases ws.len(),
{
    if ws.len() == 1 {
        lemma_drop_spaces_none(ws[0]);
    } else if ws.len() > 1 {
        let init = ws.drop_last();
        assert forall|k: int| 0 <= k < init.len() implies spaceless(#[trigger] init[k]) by {
            assert(init[k] == ws[k]);
        }
        lemma_drop_spaces_join(init);
        let j = join_with(init, seq![' ']);
        lemma_drop_spaces_concat(j + seq![' '], ws.last());
        lemma_drop_spaces_concat(j, seq![' ']);
        assert(spaceless(ws[ws.len() - 1]));
        lemma_drop_spaces_none(ws.last());
        assert(seq![' '].drop_last() =~= Seq::<char>::empty());
        assert(seq![' '].last() == ' ');
        assert(drop_spaces(Seq::<char>::empty()) =~= Seq::<char>::empty());
        assert(drop_spaces(seq![' ']) =~= Seq::<char>::empty());
        assert(join_with(init, Seq::empty()) + Seq::<char>::empty() + ws.last() =~= join_with(init, Seq::empty())
            + ws.last());
    }
}

/// A character whose upper-case form holds no space (for ASCII characters
/// nothing is asked: their upper-case forms are known).
pub open spec fn upper_spaceless(c: char) -> bool {
    (c as u32) >= 128 ==> spaceless(unicode_uppercase(c))
}

proof fn lemma_ascii_upper_spaceless(c: char)
    requires
        char_is_alphanumeric(c),
        upper_spaceless(c),
    ensures
        word_char_ok(c),
{
    assert((' ' as u32) == 32);
    if 'a' <= c && c <= 'z' {
        let u = ((c as u32) - 32) as char;
        assert(char_uppercase(c) == seq![u]);
        assert((u as u32) >= 65);
    } else if (c as u32) < 128 {
        assert(char_uppercase(c) == seq![c]);
        assert(c != ' ');
    }
}

proof fn lemma_word_state_ok(s: Seq<char>)
    requires
        forall|i: int| 0 <= i < s.len() ==> upper_spaceless(#[trigger] s[i]),
    ensures
        forall|k: int| 0 <= k < word_state(s).0.len() ==> word_ok(#[trigger] word_state(s).0[k]),
        word_ok(word_state(s).1),
    decreases s.len(),
{
    if s.len() > 0 {
        let init = s.drop_last();
        assert forall|i: int| 0 <= i < init.len() implies upper_spaceless(#[trigger] init[i]) by {
            assert(init[i] == s[i]);
        }
        lemma_word_state_ok(init);
        let prev = word_state(init);
        let c = s.last();
        assert(upper_spaceless(s[s.len() - 1]));
        if char_is_alphanumeric(c) {
            lemma_ascii_upper_spaceless(c);
            let w = prev.1.push(c);
            assert forall|j: int| 0 <= j < w.len() implies word_char_ok(#[trigger] w[j]) by {
                if j < prev.1.len() {
                    assert(w[j] == prev.1[j]);
                }
            }
        } else if prev.1.len() > 0 {
            let ws = prev.0.push(prev.1);
            assert forall|k: int| 0 <= k < ws.len() implies word_ok(#[trigger] ws[k]) by {
                if k < prev.0.len() {
                    assert(ws[k] == prev.0[k]);
                }
            }
            assert(word_ok(Seq::<char>::empty()));
        } else {
            assert(word_ok(Seq::<char>::empty()));
        }
    }
}

proof fn lemma_capitalize_spaceless(w: Seq<char>)
    requires
        word_ok(w),
    ensures
        spaceless(capitalize(w)),
{
    if w.len() > 0 {
        assert(word_char_ok(w[0]));
        let c = capitalize(w);
        let u = char_uppercase(w[0]);
        assert forall|i: int| 0 <= i < c.len() implies #[trigger] c[i] != ' ' by {
            if i < u.len() {
                assert(c[i] == u[i]);
            } else {
                assert(c[i] == w[i - u.len() + 1]);
                assert(word_char_ok(w[i - u.len() + 1]));
                assert(((' ' as u32) < 128));
            }
        }
    }
}

/// The label made from a field name, with its spaces taken out, is the
/// PascalCase name made from it: both capitalize the same words, the label
/// joins them with single spaces and the PascalCase name with nothing. This
/// holds for every name whose non-ASCII characters upper-case without a space.
pub proof fn law_label_is_spaced_pascal_case(s: Seq<char>)
    requires
        forall|i: int| 0 <= i < s.len() ==> upper_spaceless(#[trigger] s[i]),
    ensures
        drop_spaces(cased_spec(s, seq![' '])) == cased_spec(s, Seq::empty()),
{
    lemma_word_state_ok(s);
    let st = word_state(s);
    let ws = words(s);
    assert forall|k: int| 0 <= k < ws.len() implies word_ok(#[trigger] ws[k]) by {
        if st.1.len() > 0 && k == st.0.len() {
            assert(ws[k] == st.1);
        } else {
            assert(ws[k] == st.0[k]);
        }
    }
    let caps = ws.map_values(|w: Seq<char>| capitalize(w));
    assert forall|k: int| 0 <= k < caps.len() implies spaceless(#[trigger] caps[k]) by {
        lemma_capitalize_spaceless(ws[k]);
    }
    lemma_drop_spaces_join(caps);
}


/// The fields of a page's DTO are exactly the fields declared on that page,
/// each once, in declaration order.
pub proof fn law_page_fields_exact(fields: Seq<ApiField>, page: Seq<char>)
    requires
        fields.len() <= usize::MAX,
    ensures
        forall|k: int|
            0 <= k < page_field_indices(fields, page).len() ==> (#[trigger] page_field_indices(fields, page)[k])
                < fields.len() && fields[page_field_indices(fields, page)[k] as int].page@ == page,
        forall|k: int, l: int|
            0 <= k < l < page_field_indices(fields, page).len() ==> #[trigger] page_field_indices(fields, page)[k]
                < #[trigger] page_field_indices(fields, page)[l],
        forall|i: int|
            0 <= i < fields.len() && (#[trigger] fields[i]).page@ == page ==> page_field_indices(
                fields,
                page,
            ).contains(i as usize),
    decreases fields.len(),
{
    if fields.len() > 0 {
        let init = fields.drop_last();
        law_page_fields_exact(init, page);
        let p = page_field_indices(init, page);
        let r = page_field_indices(fields, page);
        let n = fields.len() - 1;
        assert forall|k: int| 0 <= k < p.len() implies #[trigger] p[k] < n && fields[p[k] as int] == init[p[k] as int] by {
            assert(p[k] < init.len());
        }
        assert forall|i: int| 0 <= i < fields.len() && (#[trigger] fields[i]).page@ == page implies r.contains(
            i as usize,
        ) by {
            if i < n {
                assert(init[i] == fields[i]);
                assert(p.contains(i as usize));
                let k = choose|k: int| 0 <= k < p.len() && p[k] == i as usize;
                if fields.last().page@ == page {
                    assert(r[k] == p[k]);
                } else {
                    assert(r == p);
                }
            } else {
                assert(fields.last() == fields[i]);
                assert(r[r.len() - 1] == n as usize);
            }
        }
        if fields.last().page@ == page {
            assert(r == p.push(n as usize));
            assert(fields[n] == fields.last());
            assert forall|k: int| 0 <= k < r.len() implies (#[trigger] r[k]) < fields.len() && fields[r[k] as int].page@
                == page by {
                if k < p.len() {
                    assert(r[k] == p[k]);
                } else {
                    assert(r[k] == n as usize);
                }
            }
            assert forall|k: int, l: int| 0 <= k < l < r.len() implies #[trigger] r[k] < #[trigger] r[l] by {
                assert(r[k] == p[k]);
                assert(p[k] < n);
                if l < p.len() {
                    assert(r[l] == p[l]);
                } else {
                    assert(r[l] == n as usize);
                }
            }
        }
    }
}

} // verus!
