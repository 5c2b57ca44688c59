//! Request-path parsing for the config UI: the path part, the `set` query
//! parameter and its percent-decoding.
use vstd::prelude::*;
use vstd::string::StringSliceAdditionalSpecFns;
use vstd::utf8::encode_utf8;
use crate::strs::{chars_of, chars_skip, is_prefix, push_char, string_from_chars};

verus! {

/// The index of the first occurrence of `c` in `s`, if any.
pub open spec fn first_index_of(s: Seq<char>, c: char) -> Option<int>
    decreases s.len(),
{
    if s.len() == 0 {
        None
    } else if s[0] == c {
        Some(0)
    } else {
        match first_index_of(s.skip(1), c) {
            Some(i) => Some(i + 1),
            None => None,
        }
    }
}

/// `first_index_of` finds the first occurrence, and finds none only where there is none.
pub proof fn lemma_first_index_of(s: Seq<char>, c: char)
    ensures
        match first_index_of(s, c) {
            Some(i) => 0 <= i < s.len() && s[i] == c && forall|j: int| 0 <= j < i ==> s[j] != c,
            None => forall|j: int| 0 <= j < s.len() ==> s[j] != c,
        },
    decreases s.len(),
{
    if s.len() > 0 && s[0] != c {
        lemma_first_index_of(s.skip(1), c);
        assert forall|j: int| 0 < j < s.len() implies s[j] == s.skip(1)[j - 1] by {}
    }
}

/// The first index of `c` in `s`, if any.
pub fn find_char(s: &Vec<char>, c: char) -> (r: Option<usize>)
    ensures
        r matches Some(i) ==> first_index_of(s@, c) == Some(i as int) && i < s@.len() && s@[i as int]
            == c,
        r is None ==> first_index_of(s@, c) is None,
{
    proof {
        lemma_first_index_of(s@, c);
    }
    let mut i: usize = 0;
    while i < s.len()
        invariant
            i <= s.len(),
            forall|j: int| 0 <= j < i ==> s@[j] != c,
        decreases s.len() - i,
    {
        if s[i] == c {
            proof {
                lemma_first_index_of(s@, c);
                match first_index_of(s@, c) {
                    Some(k) => {
                        assert(k == i);
                    },
                    None => {},
                }
            }
            return Some(i);
        }
        i = i + 1;
    }
    proof {
        lemma_first_index_of(s@, c);
        match first_index_of(s@, c) {
            Some(k) => {
                assert(s@[k] == c);
            },
            None => {},
        }
    }
    None
}

/// The path portion of a request target: everything before the first `?`.
pub open spec fn path_only_spec(full: Seq<char>) -> Seq<char> {
    match first_index_of(full, '?') {
        Some(i) => full.take(i),
        None => full,
    }
}

/// Extract the path portion (before `?`) from the full request path.
pub fn path_only(full: &str) -> (r: &str)
    ensures
        r@ == path_only_spec(full@),
{
    let cs = chars_of(full);
    match find_char(&cs, '?') {
        Some(i) => full.substring_char(0, i),
        None => full,
    }
}

/// The pieces of `s` separated by `d`, empty pieces included.
pub open spec fn split_state(s: Seq<char>, d: char) -> (Seq<Seq<char>>, Seq<char>)
    decreases s.len(),
{
    if s.len() == 0 {
        (Seq::empty(), Seq::empty())
    } else {
        let prev = split_state(s.drop_last(), d);
        if s.last() == d {
            (prev.0.push(prev.1), Seq::empty())
        } else {
            (prev.0, prev.1.push(s.last()))
        }
    }
}

/// `s` split on every `d` (like `str::split`): always at least one piece.
pub open spec fn split_spec(s: Seq<char>, d: char) -> Seq<Seq<char>> {
    split_state(s, d).0.push(split_state(s, d).1)
}

/// The value after `set=` of the first piece that starts with `set=`.
pub open spec fn first_set_value(pairs: Seq<Seq<char>>) -> Option<Seq<char>>
    decreases pairs.len(),
{
    if pairs.len() == 0 {
        None
    } else if is_prefix(seq!['s', 'e', 't', '='], pairs[0]) {
        Some(pairs[0].skip(4))
    } else {
        first_set_value(pairs.skip(1))
    }
}

/// The raw (still percent-encoded) `set` parameter of a request target.
pub open spec fn raw_set_param(path: Seq<char>) -> Option<Seq<char>> {
    match first_index_of(path, '?') {
        Some(i) => first_set_value(split_spec(path.skip(i + 1), '&')),
        None => None,
    }
}

/// The value of a hexadecimal digit byte; any other byte counts as 0.
pub open spec fn hex_value(b: u8) -> u8 {
    if 48 <= b && b <= 57 {
        (b - 48) as u8
    } else if 97 <= b && b <= 102 {
        (b - 97 + 10) as u8
    } else if 65 <= b && b <= 70 {
        (b - 65 + 10) as u8
    } else {
        0
    }
}

/// Decoding of a query value's bytes: `%XY` becomes the byte `0xXY` (as a
/// character), `+` becomes a space, every other byte stands for itself. A `%` with
/// fewer than two bytes after it becomes `%` and ends the input.
pub open spec fn percent_decode_spec(b: Seq<u8>) -> Seq<char>
    decreases b.len(),
{
    if b.len() == 0 {
        Seq::empty()
    } else if b[0] == 37 {
        if b.len() >= 3 {
            seq![((hex_value(b[1]) * 16 + hex_value(b[2])) as u8) as char] + percent_decode_spec(
                b.skip(3),
            )
        } else {
            seq!['%']
        }
    } else if b[0] == 43 {
        seq![' '] + percent_decode_spec(b.skip(1))
    } else {
        seq![b[0] as char] + percent_decode_spec(b.skip(1))
    }
}

/// The decoded `set` parameter of a request target.
pub open spec fn set_param_spec(path: Seq<char>) -> Option<Seq<char>> {
    match raw_set_param(path) {
        Some(v) => Some(percent_decode_spec(encode_utf8(v))),
        None => None,
    }
}


/// The value of a hexadecimal digit byte; any other byte counts as 0.
pub fn hex_nibble(b: u8) -> (r: u8)
    ensures
        r == hex_value(b),
        r <= 15,
{
    if 48 <= b && b <= 57 {
        b - 48
    } else if 97 <= b && b <= 102 {
        b - 97 + 10
    } else if 65 <= b && b <= 70 {
        b - 65 + 10
    } else {
        0
    }
}

/// Minimal percent-decoding for query values.
pub fn percent_decode(s: &str) -> (r: String)
    ensures
        r@ == percent_decode_spec(s.spec_bytes()),
{
    let b = s.as_bytes();
    let ghost bs = b@;
    let mut out = String::new();
    let mut i: usize = 0;
    proof {
        assert(bs.skip(0) =~= bs);
        assert(out@ + percent_decode_spec(bs) =~= percent_decode_spec(bs));
    }
    while i < b.len()
        invariant
            bs == b@,
            i <= b.len(),
            percent_decode_spec(bs) == out@ + percent_decode_spec(bs.skip(i as int)),
        decreases b.len() - i,
    {
        let ghost rest = bs.skip(i as int);
        let c = b[i];
        if c == 37 {
            if b.len() - i >= 3 {
                let hi = hex_nibble(b[i + 1]);
                let lo = hex_nibble(b[i + 2]);
                let val: u8 = hi << 4 | lo;
                proof {
                    assert(val == hi * 16 + lo) by (bit_vector)
                        requires
                            hi <= 15,
                            lo <= 15,
                            val == hi << 4 | lo,
                    ;
                    assert(rest.skip(3) =~= bs.skip(i + 3));
                    assert(out@.push(val as char) + percent_decode_spec(bs.skip(i + 3))
                        =~= out@ + percent_decode_spec(rest));
                }
                push_char(&mut out, val as char);
                i = i + 3;
            } else {
                proof {
                    assert(percent_decode_spec(rest) == seq!['%']);
                    assert(bs.skip(b.len() as int) =~= Seq::<u8>::empty());
                    assert(out@.push('%') + percent_decode_spec(bs.skip(b.len() as int))
                        =~= out@ + percent_decode_spec(rest));
                }
                push_char(&mut out, '%');
                i = b.len();
            }
        } else if c == 43 {
            proof {
                assert(rest.skip(1) =~= bs.skip(i + 1));
                assert(out@.push(' ') + percent_decode_spec(bs.skip(i + 1))
                    =~= out@ + percent_decode_spec(rest));
            }
            push_char(&mut out, ' ');
            i = i + 1;
        } else {
            proof {
                assert(rest.skip(1) =~= bs.skip(i + 1));
                assert(out@.push(c as char) + percent_decode_spec(bs.skip(i + 1))
                    =~= out@ + percent_decode_spec(rest));
            }
            push_char(&mut out, c as char);
            i = i + 1;
        }
    }
    proof {
        assert(bs.skip(b.len() as int) =~= Seq::<u8>::empty());
        assert(out@ + Seq::<char>::empty() =~= out@);
    }
    out
}

/// Splits `s` on every `d`, keeping empty pieces.
pub fn split_chars(s: &Vec<char>, d: char) -> (r: Vec<Vec<char>>)
    ensures
        r@.map_values(|v: Vec<char>| v@) == split_spec(s@, d),
{
    let mut pieces: Vec<Vec<char>> = Vec::new();
    let mut cur: Vec<char> = Vec::new();
    let mut i: usize = 0;
    while i < s.len()
        invariant
            i <= s.len(),
            pieces@.map_values(|v: Vec<char>| v@) == split_state(s@.take(i as int), d).0,
            cur@ == split_state(s@.take(i as int), d).1,
        decreases s.len() - i,
    {
        proof {
            assert(s@.take(i + 1).drop_last() =~= s@.take(i as int));
        }
        let ghost old_pieces = pieces@;
        if s[i] == d {
            let done = cur;
            pieces.push(done);
            cur = Vec::new();
            proof {
                assert(pieces@.map_values(|v: Vec<char>| v@) =~= old_pieces.map_values(
                    |v: Vec<char>| v@,
                ).push(done@));
            }
        } else {
            cur.push(s[i]);
            proof {
                assert(pieces@ == old_pieces);
            }
        }
        i = i + 1;
    }
    proof {
        assert(s@.take(s@.len() as int) =~= s@);
    }
    let ghost old_pieces = pieces@;
    let last = cur;
    pieces.push(last);
    proof {
        assert(pieces@.map_values(|v: Vec<char>| v@) =~= old_pieces.map_values(|v: Vec<char>| v@).push(
            last@,
        ));
    }
    pieces
}

/// Extract the `set` query parameter value from a path like `/config-group/foo?set=...`,
/// percent-decoded.
pub fn parse_set_param(path: &str) -> (r: Option<String>)
    ensures
        match set_param_spec(path@) {
            Some(v) => r matches Some(s) && s@ == v,
            None => r is None,
        },
{
    let cs = chars_of(path);
    let q = match find_char(&cs, '?') {
        Some(i) => i,
        None => {
            return None;
        },
    };
    let query = chars_skip(&cs, q + 1);
    let pairs = split_chars(&query, '&');
    let ghost ps = pairs@.map_values(|v: Vec<char>| v@);
    let mut prefix: Vec<char> = Vec::new();
    prefix.push('s');
    prefix.push('e');
    prefix.push('t');
    prefix.push('=');
    proof {
        assert(prefix@ =~= seq!['s', 'e', 't', '=']);
    }
    let mut j: usize = 0;
    proof {
        assert(ps.skip(0) =~= ps);
    }
    while j < pairs.len()
        invariant
            ps == pairs@.map_values(|v: Vec<char>| v@),
            ps == split_spec(query@, '&'),
            query@ == path@.skip(q + 1),
            first_index_of(path@, '?') == Some(q as int),
            j <= pairs.len(),
            prefix@ == seq!['s', 'e', 't', '='],
            first_set_value(ps) == first_set_value(ps.skip(j as int)),
        decreases pairs.len() - j,
    {
        proof {
            assert(ps.skip(j as int)[0] == pairs@[j as int]@);
            assert(ps.skip(j as int).skip(1) =~= ps.skip(j + 1));
        }
        if crate::strs::starts_with(&pairs[j], &prefix) {
            let value = chars_skip(&pairs[j], 4);
            let vs = string_from_chars(&value);
            proof {
                assert(first_set_value(ps.skip(j as int)) == Some(pairs@[j as int]@.skip(4)));
                assert(raw_set_param(path@) == Some(value@));
            }
            return Some(percent_decode(vs.as_str()));
        }
        j = j + 1;
    }
    proof {
        assert(ps.skip(pairs@.len() as int) =~= Seq::<Seq<char>>::empty());
    }
    None
}

} // verus!
