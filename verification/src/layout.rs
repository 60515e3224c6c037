//! What a JSON text shows that the document read from it does not: the
//! member names of its objects as written, a name given twice included.
//!
//! `serde_json` keeps one entry per name when it reads an object into a
//! `Value`, while a message field given twice makes a message unreadable. So
//! the names of the objects a message is made of (the message itself, its
//! error body and an error code written as an object) are read from the text.
//! Each member value is skipped as `serde_json`'s stream reader reads it,
//! except the error body of a message, whose own members are read.
use vstd::prelude::*;
use vstd::string::*;

use crate::json::{
    ascii, is_ws, json_value_len, json_value_span, member_text, plain_name, spans_alone,
};

verus! {

// ---------------------------------------------------------------------------
// Tokens
// ---------------------------------------------------------------------------
/// The position of the first byte at or after `i` that is no whitespace.
pub open spec fn skip_ws(b: Seq<u8>, i: int) -> int
    decreases b.len() - i,
{
    if 0 <= i < b.len() && is_ws(b[i]) {
        skip_ws(b, i + 1)
    } else {
        i
    }
}

/// The position of the quote that closes a JSON string whose content starts
/// at `j`.
pub open spec fn string_close(b: Seq<u8>, j: int) -> Option<int>
    decreases b.len() - j,
{
    if j < 0 || j >= b.len() {
        None
    } else if b[j] == 34u8 {
        Some(j)
    } else if b[j] == 92u8 {
        if j + 2 <= b.len() {
            string_close(b, j + 2)
        } else {
            None
        }
    } else {
        string_close(b, j + 1)
    }
}

pub open spec fn hex_digit(c: u8) -> Option<int> {
    if 48 <= c <= 57 {
        Some(c - 48)
    } else if 97 <= c <= 102 {
        Some(c - 87)
    } else if 65 <= c <= 70 {
        Some(c - 55)
    } else {
        None
    }
}

/// The byte a two-character escape `\c` stands for; 255 for none.
pub open spec fn escape_byte(c: u8) -> u8 {
    if c == 34u8 || c == 92u8 || c == 47u8 {
        c
    } else if c == 98u8 {
        8u8
    } else if c == 102u8 {
        12u8
    } else if c == 110u8 {
        10u8
    } else if c == 114u8 {
        13u8
    } else if c == 116u8 {
        9u8
    } else {
        255u8
    }
}

/// The code of the four hex digits after `j`.
pub open spec fn unicode_escape(b: Seq<u8>, j: int) -> Option<int> {
    match (hex_digit(b[j + 1]), hex_digit(b[j + 2]), hex_digit(b[j + 3]), hex_digit(b[j + 4])) {
        (Some(d1), Some(d2), Some(d3), Some(d4)) => Some(d1 * 4096 + d2 * 256 + d3 * 16 + d4),
        _ => None,
    }
}

/// The bytes of the string content from `j` to `q` with its escapes undone.
/// A character outside ASCII given by an escape stands as 255: no name the
/// protocol reads has one, and a byte of 255 never occurs in UTF-8.
pub open spec fn unescape(b: Seq<u8>, j: int, q: int) -> Seq<u8>
    decreases q - j,
{
    if j < 0 || j >= q || q > b.len() {
        Seq::empty()
    } else if b[j] == 92u8 && j + 1 < q {
        if b[j + 1] == 117u8 && j + 6 <= q {
            match unicode_escape(b, j + 1) {
                Some(code) => seq![
                    if code < 128 {
                        code as u8
                    } else {
                        255u8
                    },
                ] + unescape(b, j + 6, q),
                None => seq![255u8] + unescape(b, j + 2, q),
            }
        } else {
            seq![escape_byte(b[j + 1])] + unescape(b, j + 2, q)
        }
    } else {
        seq![b[j]] + unescape(b, j + 1, q)
    }
}

/// Where the value starting at `v` ends, as `serde_json`'s stream reader
/// reads it.
pub open spec fn value_end(b: Seq<u8>, v: int) -> Option<int> {
    if 0 <= v <= b.len() {
        match json_value_span(b.subrange(v, b.len() as int)) {
            Some(n) => Some(v + n),
            None => None,
        }
    } else {
        None
    }
}

// ---------------------------------------------------------------------------
// Objects
// ---------------------------------------------------------------------------
/// The members of an object from the one whose name starts at `i`: each
/// name with the position of its value, and the position after the closing
/// brace. At the top (`top`), the value of a member named `error` that is an
/// object is read as an object in turn; any other value is skipped whole.
pub open spec fn members_from(b: Seq<u8>, i: int, top: bool) -> Option<
    (Seq<(Seq<u8>, int)>, int),
>
    decreases (if top {
        1int
    } else {
        0int
    }), b.len() - i,
{
    if 0 <= i < b.len() && b[i] == 34u8 {
        match string_close(b, i + 1) {
            None => None,
            Some(q) => {
                let k = unescape(b, i + 1, q);
                let c = skip_ws(b, q + 1);
                if 0 <= c < b.len() && b[c] == 58u8 {
                    let v = skip_ws(b, c + 1);
                    let e = if top && k == ascii("error"@) && 0 <= v < b.len() && b[v] == 123u8 {
                        match object_at(b, v, false) {
                            Some(o) => Some(o.1),
                            None => None,
                        }
                    } else {
                        value_end(b, v)
                    };
                    match e {
                        None => None,
                        Some(e) => {
                            let d = skip_ws(b, e);
                            if 0 <= d < b.len() && b[d] == 125u8 {
                                Some((seq![(k, v)], d + 1))
                            } else if 0 <= d < b.len() && b[d] == 44u8 && i < skip_ws(b, d + 1)
                                <= b.len() {
                                match members_from(b, skip_ws(b, d + 1), top) {
                                    Some(rest) => Some((seq![(k, v)] + rest.0, rest.1)),
                                    None => None,
                                }
                            } else {
                                None
                            }
                        },
                    }
                } else {
                    None
                }
            },
        }
    } else {
        None
    }
}

/// The members of the object whose opening brace is at `p`, and the
/// position after its closing brace.
pub open spec fn object_at(b: Seq<u8>, p: int, top: bool) -> Option<(Seq<(Seq<u8>, int)>, int)>
    decreases (if top {
        1int
    } else {
        0int
    }), b.len() - p,
{
    if 0 <= p < b.len() && b[p] == 123u8 {
        let i = skip_ws(b, p + 1);
        if 0 <= i < b.len() && b[i] == 125u8 {
            Some((Seq::empty(), i + 1))
        } else if p < i <= b.len() {
            members_from(b, i, top)
        } else {
            None
        }
    } else {
        None
    }
}

/// The members found so far, before those still to read.
pub open spec fn prepend(
    done: Seq<(Seq<u8>, int)>,
    o: Option<(Seq<(Seq<u8>, int)>, int)>,
) -> Option<(Seq<(Seq<u8>, int)>, int)> {
    match o {
        Some(r) => Some((done + r.0, r.1)),
        None => None,
    }
}

/// The value position of the first member named `k`, from the `i`-th on.
pub open spec fn first_value_from(ms: Seq<(Seq<u8>, int)>, k: Seq<u8>, i: int) -> Option<int>
    decreases ms.len() - i,
{
    if i < 0 || i >= ms.len() {
        None
    } else if ms[i].0 == k {
        Some(ms[i].1)
    } else {
        first_value_from(ms, k, i + 1)
    }
}

pub open spec fn names(ms: Seq<(Seq<u8>, int)>) -> Seq<Seq<u8>> {
    ms.map_values(|m: (Seq<u8>, int)| m.0)
}

/// How often `k` occurs among the names from the `i`-th on.
pub open spec fn count_from(ns: Seq<Seq<u8>>, k: Seq<u8>, i: int) -> nat
    decreases ns.len() - i,
{
    if i < 0 || i >= ns.len() {
        0
    } else {
        (if ns[i] == k {
            1nat
        } else {
            0nat
        }) + count_from(ns, k, i + 1)
    }
}

/// `k` is not given twice among the names.
pub open spec fn once(ns: Seq<Seq<u8>>, k: Seq<char>) -> bool {
    count_from(ns, ascii(k), 0) <= 1
}

// ---------------------------------------------------------------------------
// The layout of a message text
// ---------------------------------------------------------------------------
/// The member names of a message text: of the message object (`top`), of
/// its error body (`body`), and how many members an error code written as
/// an object has (`code_members`). Names that cannot be read are left out.
pub struct TextLayout {
    pub top: Seq<Seq<u8>>,
    pub body: Seq<Seq<u8>>,
    pub code_members: Option<int>,
}

pub open spec fn members_count(b: Seq<u8>, c: int) -> Option<int> {
    match object_at(b, c, false) {
        Some(o) => Some(o.0.len() as int),
        None => None,
    }
}

#[verifier::opaque]
pub open spec fn text_layout(b: Seq<u8>) -> TextLayout {
    match object_at(b, skip_ws(b, 0), true) {
        None => TextLayout { top: Seq::empty(), body: Seq::empty(), code_members: None },
        Some(o) => {
            let top = names(o.0);
            match first_value_from(o.0, ascii("error"@), 0) {
                None => TextLayout { top, body: Seq::empty(), code_members: None },
                Some(p) => match object_at(b, p, false) {
                    Some(e) => TextLayout {
                        top,
                        body: names(e.0),
                        code_members: match first_value_from(e.0, ascii("code"@), 0) {
                            Some(c) => members_count(b, c),
                            None => None,
                        },
                    },
                    None => TextLayout {
                        top,
                        body: Seq::empty(),
                        code_members: if 0 <= p < b.len() && b[p] == 91u8 {
                            members_count(b, skip_ws(b, p + 1))
                        } else {
                            None
                        },
                    },
                },
            }
        },
    }
}

/// A request gives none of its fields twice.
pub open spec fn request_once(l: TextLayout) -> bool {
    once(l.top, "id"@) && once(l.top, "method"@) && once(l.top, "params"@)
}

/// A successful answer gives none of its fields twice.
pub open spec fn result_once(l: TextLayout) -> bool {
    once(l.top, "id"@) && once(l.top, "result"@)
}

/// A failed answer gives none of its fields, nor of its error body's, twice;
/// an error code written as an object has one member.
pub open spec fn error_once(l: TextLayout) -> bool {
    &&& once(l.top, "id"@)
    &&& once(l.top, "error"@)
    &&& once(l.body, "code"@)
    &&& once(l.body, "message"@)
    &&& once(l.body, "data"@)
    &&& (l.code_members matches Some(n) ==> n == 1)
}

/// An event gives none of its fields twice.
pub open spec fn event_once(l: TextLayout) -> bool {
    once(l.top, "event"@) && once(l.top, "data"@)
}

/// No message field is given twice in the text.
pub open spec fn written_once(l: TextLayout) -> bool {
    request_once(l) && result_once(l) && error_once(l) && event_once(l)
}

// ---------------------------------------------------------------------------
// Reading the layout
// ---------------------------------------------------------------------------
pub struct TextShape {
    pub top: Vec<Vec<u8>>,
    pub body: Vec<Vec<u8>>,
    pub code_members: Option<usize>,
}

pub open spec fn names_view(v: Seq<Vec<u8>>) -> Seq<Seq<u8>> {
    v.map_values(|x: Vec<u8>| x@)
}

impl View for TextShape {
    type V = TextLayout;

    open spec fn view(&self) -> TextLayout {
        TextLayout {
            top: names_view(self.top@),
            body: names_view(self.body@),
            code_members: match self.code_members {
                Some(n) => Some(n as int),
                None => None,
            },
        }
    }
}

pub open spec fn members_view(v: Seq<(Vec<u8>, usize)>) -> Seq<(Seq<u8>, int)> {
    v.map_values(|m: (Vec<u8>, usize)| (m.0@, m.1 as int))
}

pub open spec fn object_view(o: Option<(Vec<(Vec<u8>, usize)>, usize)>) -> Option<
    (Seq<(Seq<u8>, int)>, int),
> {
    match o {
        Some(r) => Some((members_view(r.0@), r.1 as int)),
        None => None,
    }
}

fn skip_ws_at(b: &[u8], i: usize) -> (r: usize)
    requires
        i <= b@.len(),
    ensures
        r == skip_ws(b@, i as int),
        i <= r <= b@.len(),
{
    let mut j = i;
    while j < b.len() && (b[j] == 32u8 || b[j] == 9u8 || b[j] == 10u8 || b[j] == 13u8)
        invariant
            i <= j <= b@.len(),
            skip_ws(b@, i as int) == skip_ws(b@, j as int),
        decreases b@.len() - j,
    {
        j = j + 1;
    }
    j
}

fn string_close_at(b: &[u8], j: usize) -> (r: Option<usize>)
    ensures
        match r {
            Some(q) => string_close(b@, j as int) == Some(q as int) && j <= q < b@.len(),
            None => string_close(b@, j as int) is None,
        },
{
    let mut k = j;
    while k < b.len()
        invariant
            j <= k,
            string_close(b@, j as int) == string_close(b@, k as int),
        decreases b@.len() - k,
    {
        if b[k] == 34u8 {
            return Some(k);
        } else if b[k] == 92u8 {
            if b.len() - k >= 2 {
                k = k + 2;
            } else {
                return None;
            }
        } else {
            k = k + 1;
        }
    }
    None
}

fn hex_digit_of(c: u8) -> (r: Option<u32>)
    ensures
        match hex_digit(c) {
            Some(d) => r == Some(d as u32) && 0 <= d < 16,
            None => r is None,
        },
{
    if 48 <= c && c <= 57 {
        Some((c - 48) as u32)
    } else if 97 <= c && c <= 102 {
        Some((c - 87) as u32)
    } else if 65 <= c && c <= 70 {
        Some((c - 55) as u32)
    } else {
        None
    }
}

fn escape_byte_of(c: u8) -> (r: u8)
    ensures
        r == escape_byte(c),
{
    if c == 34u8 || c == 92u8 || c == 47u8 {
        c
    } else if c == 98u8 {
        8u8
    } else if c == 102u8 {
        12u8
    } else if c == 110u8 {
        10u8
    } else if c == 114u8 {
        13u8
    } else if c == 116u8 {
        9u8
    } else {
        255u8
    }
}

fn unicode_escape_at(b: &[u8], j: usize) -> (r: Option<u32>)
    requires
        j + 4 < b.len(),
    ensures
        match unicode_escape(b@, j as int) {
            Some(code) => r == Some(code as u32) && 0 <= code < 65536,
            None => r is None,
        },
{
    match (hex_digit_of(b[j + 1]), hex_digit_of(b[j + 2]), hex_digit_of(b[j + 3]), hex_digit_of(b[j + 4])) {
        (Some(d1), Some(d2), Some(d3), Some(d4)) => Some(d1 * 4096 + d2 * 256 + d3 * 16 + d4),
        _ => None,
    }
}

fn unescape_between(b: &[u8], j: usize, q: usize) -> (r: Vec<u8>)
    requires
        j <= q <= b@.len(),
    ensures
        r@ == unescape(b@, j as int, q as int),
{
    let mut out: Vec<u8> = Vec::new();
    let mut k = j;
    while k < q
        invariant
            j <= k <= q + 1,
            q <= b@.len(),
            unescape(b@, j as int, q as int) == out@ + unescape(b@, k as int, q as int),
        decreases q - k,
    {
        let ghost before = out@;
        if b[k] == 92u8 && q - k > 1 {
            if b[k + 1] == 117u8 && q - k >= 6 {
                match unicode_escape_at(b, k + 1) {
                    Some(code) => {
                        let c: u8 = if code < 128 {
                            code as u8
                        } else {
                            255u8
                        };
                        out.push(c);
                        k = k + 6;
                    },
                    None => {
                        out.push(255u8);
                        k = k + 2;
                    },
                }
            } else {
                out.push(escape_byte_of(b[k + 1]));
                k = k + 2;
            }
        } else {
            out.push(b[k]);
            k = k + 1;
        }
        proof {
            assert(out@ =~= before + seq![out@.last()]);
        }
    }
    out
}

/// Where the value starting at `v` ends.
fn value_end_at(b: &[u8], v: usize) -> (r: Option<usize>)
    requires
        v <= b@.len(),
    ensures
        match r {
            Some(e) => value_end(b@, v as int) == Some(e as int) && v < e <= b@.len(),
            None => value_end(b@, v as int) is None,
        },
{
    let rest = vstd::slice::slice_subrange(b, v, b.len());
    match json_value_len(rest) {
        Some(n) => Some(v + n),
        None => None,
    }
}

/// The bytes of a name made of ASCII letters.
fn name_bytes(s: &str) -> (r: &[u8])
    requires
        plain_name(s@),
    ensures
        r@ == ascii(s@),
{
    proof {
        broadcast use vstd::string::is_ascii_spec_bytes;

        assert(is_ascii(s));
    }
    let r = s.as_bytes();
    assert(r@ =~= ascii(s@));
    r
}

fn bytes_equal(a: &[u8], b: &[u8]) -> (r: bool)
    ensures
        r == (a@ == b@),
{
    if a.len() != b.len() {
        return false;
    }
    let mut i: usize = 0;
    while i < a.len()
        invariant
            a@.len() == b@.len(),
            i <= a@.len(),
            forall|j: int| 0 <= j < i ==> a@[j] == b@[j],
        decreases a@.len() - i,
    {
        if a[i] != b[i] {
            return false;
        }
        i = i + 1;
    }
    assert(a@ =~= b@);
    true
}

/// Reads the members of the object whose opening brace is at `p`.
fn read_object(b: &[u8], p: usize, top: bool) -> (r: Option<(Vec<(Vec<u8>, usize)>, usize)>)
    requires
        p <= b@.len(),
    ensures
        object_view(r) == object_at(b@, p as int, top),
        r matches Some(o) ==> o.1 <= b@.len(),
    decreases (if top {
        1int
    } else {
        0int
    }),
{
    proof {
        reveal_strlit("error");
        assert(plain_name("error"@));
    }
    if !(p < b.len() && b[p] == 123u8) {
        return None;
    }
    let i0 = skip_ws_at(b, p + 1);
    if i0 < b.len() && b[i0] == 125u8 {
        let r = Some((Vec::new(), i0 + 1));
        assert(members_view(Seq::<(Vec<u8>, usize)>::empty()) =~= Seq::empty());
        return r;
    }
    let error = name_bytes("error");
    let mut done: Vec<(Vec<u8>, usize)> = Vec::new();
    let mut i = i0;
    assert(members_view(done@) =~= Seq::empty());
    assert(prepend(Seq::empty(), members_from(b@, i as int, top)) =~= members_from(b@, i as int, top)) by {
        match members_from(b@, i as int, top) {
            Some(o) => assert(Seq::<(Seq<u8>, int)>::empty() + o.0 =~= o.0),
            None => {},
        }
    }
    loop
        invariant
            p < i0 <= i <= b@.len(),
            error@ == ascii("error"@),
            object_at(b@, p as int, top) == members_from(b@, i0 as int, top),
            members_from(b@, i0 as int, top) == prepend(
                members_view(done@),
                members_from(b@, i as int, top),
            ),
        decreases b@.len() - i,
    {
        if !(i < b.len() && b[i] == 34u8) {
            return None;
        }
        let q = match string_close_at(b, i + 1) {
            Some(q) => q,
            None => return None,
        };
        let k = unescape_between(b, i + 1, q);
        let c = skip_ws_at(b, q + 1);
        if !(c < b.len() && b[c] == 58u8) {
            return None;
        }
        let v = skip_ws_at(b, c + 1);
        let is_error = bytes_equal(k.as_slice(), error);
        let e = if top && is_error && v < b.len() && b[v] == 123u8 {
            match read_object(b, v, false) {
                Some(o) => o.1,
                None => return None,
            }
        } else {
            match value_end_at(b, v) {
                Some(e) => e,
                None => return None,
            }
        };
        let d = skip_ws_at(b, e);
        let ghost dv = members_view(done@);
        let ghost kv = (k@, v as int);
        if d < b.len() && b[d] == 125u8 {
            done.push((k, v));
            proof {
                assert(members_view(done@) =~= dv + seq![kv]);
            }
            return Some((done, d + 1));
        }
        if !(d < b.len() && b[d] == 44u8) {
            return None;
        }
        let n = skip_ws_at(b, d + 1);
        if !(i < n) {
            return None;
        }
        done.push((k, v));
        proof {
            assert(members_view(done@) =~= dv + seq![kv]);
            match members_from(b@, n as int, top) {
                Some(o) => assert(dv + (seq![kv] + o.0) =~= dv + seq![kv] + o.0),
                None => {},
            }
        }
        i = n;
    }
}

/// The value position of the first member named `k`.
fn first_value_of(ms: &Vec<(Vec<u8>, usize)>, k: &[u8]) -> (r: Option<usize>)
    ensures
        match r {
            Some(p) => first_value_from(members_view(ms@), k@, 0) == Some(p as int),
            None => first_value_from(members_view(ms@), k@, 0) is None,
        },
{
    let ghost mv = members_view(ms@);
    let mut i: usize = 0;
    while i < ms.len()
        invariant
            i <= ms@.len(),
            mv == members_view(ms@),
            first_value_from(mv, k@, 0) == first_value_from(mv, k@, i as int),
        decreases ms@.len() - i,
    {
        if bytes_equal(ms[i].0.as_slice(), k) {
            return Some(ms[i].1);
        }
        i = i + 1;
    }
    None
}

fn names_of(ms: Vec<(Vec<u8>, usize)>) -> (r: Vec<Vec<u8>>)
    ensures
        names_view(r@) == names(members_view(ms@)),
{
    let mut r: Vec<Vec<u8>> = Vec::new();
    let mut i: usize = 0;
    while i < ms.len()
        invariant
            i <= ms@.len(),
            r@.len() == i,
            names_view(r@) == names(members_view(ms@)).take(i as int),
        decreases ms@.len() - i,
    {
        let ghost before = r@;
        let mut name: Vec<u8> = Vec::new();
        name.extend_from_slice(ms[i].0.as_slice());
        proof {
            assert(name@ =~= ms@[i as int].0@);
            assert(names(members_view(ms@))[i as int] == ms@[i as int].0@);
        }
        r.push(name);
        proof {
            assert(r@ =~= before.push(name));
            assert forall|j: int| 0 <= j < i + 1 implies #[trigger] names_view(r@)[j] == names(
                members_view(ms@),
            )[j] by {
                if j < i {
                    assert(names_view(r@)[j] == names_view(before)[j]);
                    assert(names_view(before)[j] == names(members_view(ms@)).take(i as int)[j]);
                }
            }
            assert(names_view(r@) =~= names(members_view(ms@)).take(i + 1));
        }
        i = i + 1;
    }
    assert(names(members_view(ms@)).take(ms@.len() as int) =~= names(members_view(ms@)));
    r
}

fn members_count_at(b: &[u8], c: usize) -> (r: Option<usize>)
    requires
        c <= b@.len(),
    ensures
        match r {
            Some(n) => members_count(b@, c as int) == Some(n as int),
            None => members_count(b@, c as int) is None,
        },
{
    match read_object(b, c, false) {
        Some(o) => Some(o.0.len()),
        None => None,
    }
}

/// The layout of a message text.
pub fn text_shape(b: &[u8]) -> (r: TextShape)
    ensures
        r@ == text_layout(b@),
{
    proof {
        reveal(text_layout);
        reveal_strlit("error");
        reveal_strlit("code");
        assert(plain_name("error"@));
        assert(plain_name("code"@));
    }
    assert(names_view(Seq::<Vec<u8>>::empty()) =~= Seq::<Seq<u8>>::empty());
    let t = skip_ws_at(b, 0);
    match read_object(b, t, true) {
        None => TextShape { top: Vec::new(), body: Vec::new(), code_members: None },
        Some((ms, _)) => {
            let at = first_value_of(&ms, name_bytes("error"));
            let top = names_of(ms);
            match at {
                None => TextShape { top, body: Vec::new(), code_members: None },
                Some(p) => {
                    if p > b.len() {
                        return TextShape { top, body: Vec::new(), code_members: None };
                    }
                    match read_object(b, p, false) {
                        Some((bs, _)) => {
                            let code_at = first_value_of(&bs, name_bytes("code"));
                            let body = names_of(bs);
                            let code_members = match code_at {
                                Some(c) => if c <= b.len() {
                                    members_count_at(b, c)
                                } else {
                                    None
                                },
                                None => None,
                            };
                            TextShape { top, body, code_members }
                        },
                        None => {
                            let code_members = if p < b.len() && b[p] == 91u8 {
                                members_count_at(b, skip_ws_at(b, p + 1))
                            } else {
                                None
                            };
                            TextShape { top, body: Vec::new(), code_members }
                        },
                    }
                },
            }
        },
    }
}

fn count_of(ns: &Vec<Vec<u8>>, k: &[u8]) -> (r: usize)
    ensures
        r == count_from(names_view(ns@), k@, 0),
{
    let ghost nv = names_view(ns@);
    let mut n: usize = 0;
    let mut i: usize = 0;
    while i < ns.len()
        invariant
            i <= ns@.len(),
            n <= i,
            nv == names_view(ns@),
            count_from(nv, k@, 0) == n + count_from(nv, k@, i as int),
        decreases ns@.len() - i,
    {
        if bytes_equal(ns[i].as_slice(), k) {
            n = n + 1;
        }
        i = i + 1;
    }
    n
}

/// Whether `name` is given at most once among `ns`.
pub fn given_once(ns: &Vec<Vec<u8>>, name: &str) -> (r: bool)
    requires
        plain_name(name@),
    ensures
        r == once(names_view(ns@), name@),
{
    count_of(ns, name_bytes(name)) <= 1
}

proof fn lemma_field_names_plain()
    ensures
        plain_name("id"@),
        plain_name("method"@),
        plain_name("params"@),
        plain_name("result"@),
        plain_name("error"@),
        plain_name("event"@),
        plain_name("data"@),
        plain_name("code"@),
        plain_name("message"@),
{
    reveal_strlit("id");
    reveal_strlit("method");
    reveal_strlit("params");
    reveal_strlit("result");
    reveal_strlit("error");
    reveal_strlit("event");
    reveal_strlit("data");
    reveal_strlit("code");
    reveal_strlit("message");
}

impl TextShape {
    /// Whether a request gives none of its fields twice.
    pub fn request_once(&self) -> (r: bool)
        ensures
            r == request_once(self@),
    {
        proof {
            lemma_field_names_plain();
        }
        given_once(&self.top, "id") && given_once(&self.top, "method") && given_once(
            &self.top,
            "params",
        )
    }

    /// Whether a successful answer gives none of its fields twice.
    pub fn result_once(&self) -> (r: bool)
        ensures
            r == result_once(self@),
    {
        proof {
            lemma_field_names_plain();
        }
        given_once(&self.top, "id") && given_once(&self.top, "result")
    }

    /// Whether a failed answer gives none of its fields, nor of its error
    /// body's, twice, and an error code written as an object has one member.
    pub fn error_once(&self) -> (r: bool)
        ensures
            r == error_once(self@),
    {
        proof {
            lemma_field_names_plain();
        }
        let code_ok = match self.code_members {
            Some(n) => n == 1,
            None => true,
        };
        given_once(&self.top, "id") && given_once(&self.top, "error") && given_once(
            &self.body,
            "code",
        ) && given_once(&self.body, "message") && given_once(&self.body, "data") && code_ok
    }

    /// Whether an event gives none of its fields twice.
    pub fn event_once(&self) -> (r: bool)
        ensures
            r == event_once(self@),
    {
        proof {
            lemma_field_names_plain();
        }
        given_once(&self.top, "event") && given_once(&self.top, "data")
    }
}

// ---------------------------------------------------------------------------
// The layout of what the codec writes
// ---------------------------------------------------------------------------
/// Where the value of member `k` starting at `v` ends, as `members_from`
/// finds it.
pub open spec fn member_end(b: Seq<u8>, k: Seq<u8>, v: int, top: bool) -> Option<int> {
    if top && k == ascii("error"@) && 0 <= v < b.len() && b[v] == 123u8 {
        match object_at(b, v, false) {
            Some(o) => Some(o.1),
            None => None,
        }
    } else {
        value_end(b, v)
    }
}

pub open spec fn is_letter(c: u8) -> bool {
    (65 <= c <= 90) || (97 <= c <= 122)
}

proof fn lemma_letters(b: Seq<u8>, m: int, q: int)
    requires
        0 <= m <= q < b.len(),
        forall|x: int| m <= x < q ==> is_letter(#[trigger] b[x]),
        b[q] == 34u8,
    ensures
        string_close(b, m) == Some(q),
        unescape(b, m, q) == b.subrange(m, q),
    decreases q - m,
{
    if m < q {
        lemma_letters(b, m + 1, q);
        assert(b.subrange(m, q) =~= seq![b[m]] + b.subrange(m + 1, q));
    } else {
        assert(b.subrange(m, q) =~= Seq::<u8>::empty());
    }
}

/// A value text that is read alone, followed by `,` or `}`, ends where the
/// text does.
proof fn lemma_value_read_alone(b: Seq<u8>, v: int, t: Seq<u8>)
    requires
        0 <= v,
        v + t.len() < b.len(),
        b.subrange(v, v + t.len()) == t,
        b[v + t.len()] == 44u8 || b[v + t.len()] == 125u8,
        spans_alone(t),
    ensures
        value_end(b, v) == Some(v + t.len()),
{
    let rest = b.subrange(v + t.len(), b.len() as int);
    assert(b.subrange(v, b.len() as int) =~= t + rest);
    assert(rest[0] == b[v + t.len()]);
    assert(json_value_span(t + rest) == Some(t.len() as int));
}

/// The value `t` of member `k` at `v` ends where its text does: it is read
/// alone (it is no error body at the top), or its end is known.
pub open spec fn settled(b: Seq<u8>, k: Seq<char>, t: Seq<u8>, v: int, top: bool) -> bool {
    ||| member_end(b, ascii(k), v, top) == Some(v + t.len())
    ||| (spans_alone(t) && !(top && ascii(k) == ascii("error"@) && t[0] == 123u8))
}

/// The member `(k, t)` written at `i` and followed by `,` or `}`.
proof fn lemma_member_step(b: Seq<u8>, i: int, k: Seq<char>, t: Seq<u8>, top: bool)
    requires
        0 <= i,
        plain_name(k),
        i + member_text((k, t)).len() < b.len(),
        b.subrange(i, i + member_text((k, t)).len()) == member_text((k, t)),
        t.len() > 0,
        !is_ws(t[0]),
        settled(b, k, t, i + k.len() + 3, top),
        b[i + member_text((k, t)).len()] == 44u8 || b[i + member_text((k, t)).len()] == 125u8,
    ensures
        b[i + member_text((k, t)).len()] == 125u8 ==> members_from(b, i, top) == Some(
            (seq![(ascii(k), i + k.len() + 3)], i + member_text((k, t)).len() + 1),
        ),
        (b[i + member_text((k, t)).len()] == 44u8 && i + member_text((k, t)).len() + 1 < b.len()
            && b[i + member_text((k, t)).len() + 1] == 34u8) ==> members_from(b, i, top)
            == prepend(
            seq![(ascii(k), i + k.len() + 3)],
            members_from(b, i + member_text((k, t)).len() + 1, top),
        ),
{
    let mt = member_text((k, t));
    let kl = k.len() as int;
    assert(mt.len() == kl + 3 + t.len());
    assert forall|x: int| 0 <= x < mt.len() implies b[i + x] == mt[x] by {
        assert(b.subrange(i, i + mt.len())[x] == b[i + x]);
    }
    assert(b[i] == 34u8) by {
        assert(b[i + 0] == mt[0]);
    }
    assert forall|x: int| i + 1 <= x < i + 1 + kl implies is_letter(#[trigger] b[x]) by {
        assert(b[i + (x - i)] == mt[x - i]);
        assert(mt[x - i] == ascii(k)[x - i - 1]);
    }
    assert(b[i + 1 + kl] == 34u8) by {
        assert(b[i + (1 + kl)] == mt[1 + kl]);
    }
    lemma_letters(b, i + 1, i + 1 + kl);
    assert(b.subrange(i + 1, i + 1 + kl) =~= ascii(k)) by {
        assert forall|x: int| 0 <= x < kl implies b.subrange(i + 1, i + 1 + kl)[x] == ascii(k)[x] by {
            assert(b[i + (1 + x)] == mt[1 + x]);
        }
    }
    assert(b[i + 2 + kl] == 58u8) by {
        assert(b[i + (2 + kl)] == mt[2 + kl]);
    }
    assert(b[i + 3 + kl] == t[0]) by {
        assert(b[i + (3 + kl)] == mt[3 + kl]);
    }
    assert(skip_ws(b, i + 2 + kl) == i + 2 + kl);
    assert(skip_ws(b, i + 3 + kl) == i + 3 + kl);
    let e = i + mt.len();
    if member_end(b, ascii(k), i + kl + 3, top) != Some(e) {
        let v = i + kl + 3;
        assert(b.subrange(v, v + t.len()) =~= t) by {
            assert forall|x: int| 0 <= x < t.len() implies b.subrange(v, v + t.len())[x] == t[x] by {
                assert(b[i + (kl + 3 + x)] == mt[kl + 3 + x]);
            }
        }
        lemma_plain_end(b, v, k, t, top);
    }
    assert(skip_ws(b, e) == e);
    if b[e] == 44u8 && e + 1 < b.len() && b[e + 1] == 34u8 {
        assert(skip_ws(b, e + 1) == e + 1);
        match members_from(b, e + 1, top) {
            Some(o) => assert(seq![(ascii(k), i + kl + 3)] + o.0 =~= seq![(ascii(k), i + kl + 3)]
                + o.0),
            None => {},
        }
    }
}

/// A member value that is read alone ends where its text does.
proof fn lemma_plain_end(b: Seq<u8>, v: int, k: Seq<char>, t: Seq<u8>, top: bool)
    requires
        0 <= v,
        v + t.len() < b.len(),
        b.subrange(v, v + t.len()) == t,
        b[v + t.len()] == 44u8 || b[v + t.len()] == 125u8,
        spans_alone(t),
        t.len() > 0,
        !(top && ascii(k) == ascii("error"@) && t[0] == 123u8),
    ensures
        member_end(b, ascii(k), v, top) == Some(v + t.len()),
{
    assert(b[v] == t[0]) by {
        assert(b.subrange(v, v + t.len())[0] == b[v]);
    }
    lemma_value_read_alone(b, v, t);
}

/// The members written at `i`, `m1` then `m2`, the last followed by `}`.
proof fn lemma_two_members(
    b: Seq<u8>,
    i: int,
    m1: (Seq<char>, Seq<u8>),
    m2: (Seq<char>, Seq<u8>),
    top: bool,
)
    requires
        0 <= i,
        i + member_text(m1).len() + 1 + member_text(m2).len() < b.len(),
        b.subrange(i, i + member_text(m1).len() + 1 + member_text(m2).len() + 1) == member_text(m1)
            + seq![44u8] + member_text(m2) + seq![125u8],
        plain_name(m1.0),
        plain_name(m2.0),
        m1.1.len() > 0,
        !is_ws(m1.1[0]),
        m2.1.len() > 0,
        !is_ws(m2.1[0]),
        settled(b, m1.0, m1.1, i + m1.0.len() + 3, top),
        settled(b, m2.0, m2.1, i + member_text(m1).len() + 1 + m2.0.len() + 3, top),
    ensures
        members_from(b, i, top) == Some(
            (
                seq![
                    (ascii(m1.0), i + m1.0.len() + 3),
                    (ascii(m2.0), i + member_text(m1).len() + 1 + m2.0.len() + 3),
                ],
                i + member_text(m1).len() + 1 + member_text(m2).len() + 1,
            ),
        ),
{
    let l1 = member_text(m1).len() as int;
    let l2 = member_text(m2).len() as int;
    let w = member_text(m1) + seq![44u8] + member_text(m2) + seq![125u8];
    assert forall|x: int| 0 <= x < w.len() implies b[i + x] == w[x] by {
        assert(b.subrange(i, i + w.len())[x] == b[i + x]);
    }
    assert(b.subrange(i, i + l1) =~= member_text(m1)) by {
        assert forall|x: int| 0 <= x < l1 implies b.subrange(i, i + l1)[x] == member_text(m1)[x] by {
            assert(b[i + x] == w[x]);
        }
    }
    let i2 = i + l1 + 1;
    assert(b.subrange(i2, i2 + l2) =~= member_text(m2)) by {
        assert forall|x: int| 0 <= x < l2 implies b.subrange(i2, i2 + l2)[x] == member_text(m2)[x] by {
            assert(b[i + (l1 + 1 + x)] == w[l1 + 1 + x]);
        }
    }
    assert(b[i + l1] == 44u8) by {
        assert(b[i + l1] == w[l1]);
    }
    assert(b[i2] == 34u8) by {
        assert(b[i + (l1 + 1)] == w[l1 + 1]);
    }
    assert(b[i2 + l2] == 125u8) by {
        assert(b[i + (l1 + 1 + l2)] == w[l1 + 1 + l2]);
    }
    lemma_member_step(b, i, m1.0, m1.1, top);
    lemma_member_step(b, i2, m2.0, m2.1, top);
    assert(seq![(ascii(m1.0), i + m1.0.len() + 3)] + seq![(ascii(m2.0), i2 + m2.0.len() + 3)]
        =~= seq![(ascii(m1.0), i + m1.0.len() + 3), (ascii(m2.0), i2 + m2.0.len() + 3)]);
}

/// The members written at `i`, `m1`, `m2` then `m3`, the last followed by
/// `}`.
proof fn lemma_three_members(
    b: Seq<u8>,
    i: int,
    m1: (Seq<char>, Seq<u8>),
    m2: (Seq<char>, Seq<u8>),
    m3: (Seq<char>, Seq<u8>),
    top: bool,
)
    requires
        0 <= i,
        i + member_text(m1).len() + 1 + member_text(m2).len() + 1 + member_text(m3).len() < b.len(),
        b.subrange(
            i,
            i + member_text(m1).len() + 1 + member_text(m2).len() + 1 + member_text(m3).len() + 1,
        ) == member_text(m1) + seq![44u8] + member_text(m2) + seq![44u8] + member_text(m3) + seq![
            125u8,
        ],
        plain_name(m1.0),
        plain_name(m2.0),
        plain_name(m3.0),
        m1.1.len() > 0,
        !is_ws(m1.1[0]),
        m2.1.len() > 0,
        !is_ws(m2.1[0]),
        m3.1.len() > 0,
        !is_ws(m3.1[0]),
        settled(b, m1.0, m1.1, i + m1.0.len() + 3, top),
        settled(b, m2.0, m2.1, i + member_text(m1).len() + 1 + m2.0.len() + 3, top),
        settled(
            b,
            m3.0,
            m3.1,
            i + member_text(m1).len() + 1 + member_text(m2).len() + 1 + m3.0.len() + 3,
            top,
        ),
    ensures
        members_from(b, i, top) == Some(
            (
                seq![
                    (ascii(m1.0), i + m1.0.len() + 3),
                    (ascii(m2.0), i + member_text(m1).len() + 1 + m2.0.len() + 3),
                    (
                        ascii(m3.0),
                        i + member_text(m1).len() + 1 + member_text(m2).len() + 1 + m3.0.len()
                            + 3,
                    ),
                ],
                i + member_text(m1).len() + 1 + member_text(m2).len() + 1 + member_text(m3).len()
                    + 1,
            ),
        ),
{
    let l1 = member_text(m1).len() as int;
    let i2 = i + l1 + 1;
    let w = member_text(m1) + seq![44u8] + member_text(m2) + seq![44u8] + member_text(m3) + seq![
        125u8,
    ];
    let w2 = member_text(m2) + seq![44u8] + member_text(m3) + seq![125u8];
    assert forall|x: int| 0 <= x < w.len() implies b[i + x] == w[x] by {
        assert(b.subrange(i, i + w.len())[x] == b[i + x]);
    }
    assert(b.subrange(i, i + l1) =~= member_text(m1)) by {
        assert forall|x: int| 0 <= x < l1 implies b.subrange(i, i + l1)[x] == member_text(m1)[x] by {
            assert(b[i + x] == w[x]);
        }
    }
    assert(b.subrange(i2, i2 + w2.len()) =~= w2) by {
        assert forall|x: int| 0 <= x < w2.len() implies b.subrange(i2, i2 + w2.len())[x] == w2[x] by {
            assert(b[i + (l1 + 1 + x)] == w[l1 + 1 + x]);
        }
    }
    assert(b[i + l1] == 44u8) by {
        assert(b[i + l1] == w[l1]);
    }
    assert(b[i2] == 34u8) by {
        assert(b[i + (l1 + 1)] == w[l1 + 1]);
    }
    lemma_member_step(b, i, m1.0, m1.1, top);
    lemma_two_members(b, i2, m2, m3, top);
    let x1 = (ascii(m1.0), i + m1.0.len() + 3);
    let x2 = (ascii(m2.0), i2 + m2.0.len() + 3);
    let x3 = (ascii(m3.0), i2 + member_text(m2).len() + 1 + m3.0.len() + 3);
    assert(seq![x1] + seq![x2, x3] =~= seq![x1, x2, x3]);
}

/// The object written at `p`: `{`, then its first member.
proof fn lemma_object_opens(b: Seq<u8>, p: int, top: bool)
    requires
        0 <= p,
        p + 1 < b.len(),
        b[p] == 123u8,
        b[p + 1] == 34u8,
    ensures
        object_at(b, p, top) == members_from(b, p + 1, top),
{
    assert(skip_ws(b, p + 1) == p + 1);
}

/// A member value as the codec writes it: a token first, read alone.
pub open spec fn read_alone(t: Seq<u8>) -> bool {
    t.len() > 0 && !is_ws(t[0]) && spans_alone(t)
}

/// The layout of `{m1,m2,m3}`, none of them named `error`.
#[verifier::spinoff_prover]
pub proof fn lemma_layout_three(
    b: Seq<u8>,
    m1: (Seq<char>, Seq<u8>),
    m2: (Seq<char>, Seq<u8>),
    m3: (Seq<char>, Seq<u8>),
)
    requires
        b == seq![123u8] + member_text(m1) + seq![44u8] + member_text(m2) + seq![44u8]
            + member_text(m3) + seq![125u8],
        plain_name(m1.0),
        plain_name(m2.0),
        plain_name(m3.0),
        read_alone(m1.1),
        read_alone(m2.1),
        read_alone(m3.1),
        ascii(m1.0) != ascii("error"@),
        ascii(m2.0) != ascii("error"@),
        ascii(m3.0) != ascii("error"@),
    ensures
        text_layout(b) == (TextLayout {
            top: seq![ascii(m1.0), ascii(m2.0), ascii(m3.0)],
            body: Seq::empty(),
            code_members: None,
        }),
{
    let l1 = member_text(m1).len() as int;
    let l2 = member_text(m2).len() as int;
    let ms = seq![
        (ascii(m1.0), 1 + m1.0.len() as int + 3),
        (ascii(m2.0), 1 + l1 + 1 + m2.0.len() as int + 3),
        (ascii(m3.0), 1 + l1 + 1 + l2 + 1 + m3.0.len() as int + 3),
    ];
    assert(object_at(b, 0, true) == Some((ms, b.len() as int))) by {
        let w = member_text(m1) + seq![44u8] + member_text(m2) + seq![44u8] + member_text(m3)
            + seq![125u8];
        assert(b.subrange(1, 1 + w.len() as int) =~= w);
        assert(b[1] == member_text(m1)[0]);
        lemma_object_opens(b, 0, true);
        lemma_three_members(b, 1, m1, m2, m3, true);
    }
    assert(skip_ws(b, 0) == 0);
    reveal(text_layout);
    assert(first_value_from(ms, ascii("error"@), 0) is None) by {
        reveal_with_fuel(first_value_from, 4);
    }
    assert(names(ms) =~= seq![ascii(m1.0), ascii(m2.0), ascii(m3.0)]);
}

/// The layout of `{m1,m2}`, neither named `error`.
#[verifier::spinoff_prover]
pub proof fn lemma_layout_two(b: Seq<u8>, m1: (Seq<char>, Seq<u8>), m2: (Seq<char>, Seq<u8>))
    requires
        b == seq![123u8] + member_text(m1) + seq![44u8] + member_text(m2) + seq![125u8],
        plain_name(m1.0),
        plain_name(m2.0),
        read_alone(m1.1),
        read_alone(m2.1),
        ascii(m1.0) != ascii("error"@),
        ascii(m2.0) != ascii("error"@),
    ensures
        text_layout(b) == (TextLayout {
            top: seq![ascii(m1.0), ascii(m2.0)],
            body: Seq::empty(),
            code_members: None,
        }),
{
    let l1 = member_text(m1).len() as int;
    let ms = seq![
        (ascii(m1.0), 1 + m1.0.len() as int + 3),
        (ascii(m2.0), 1 + l1 + 1 + m2.0.len() as int + 3),
    ];
    assert(object_at(b, 0, true) == Some((ms, b.len() as int))) by {
        let w = member_text(m1) + seq![44u8] + member_text(m2) + seq![125u8];
        assert(b.subrange(1, 1 + w.len() as int) =~= w);
        assert(b[1] == member_text(m1)[0]);
        lemma_object_opens(b, 0, true);
        lemma_two_members(b, 1, m1, m2, true);
    }
    assert(skip_ws(b, 0) == 0);
    reveal(text_layout);
    assert(first_value_from(ms, ascii("error"@), 0) is None) by {
        reveal_with_fuel(first_value_from, 3);
    }
    assert(names(ms) =~= seq![ascii(m1.0), ascii(m2.0)]);
}

/// The error body `{c,m,d}` written at `p`, the code written as no object.
#[verifier::spinoff_prover]
proof fn lemma_body_walk(
    b: Seq<u8>,
    p: int,
    c: (Seq<char>, Seq<u8>),
    m: (Seq<char>, Seq<u8>),
    d: (Seq<char>, Seq<u8>),
)
    requires
        0 <= p,
        p + (seq![123u8] + member_text(c) + seq![44u8] + member_text(m) + seq![44u8]
            + member_text(d) + seq![125u8]).len() < b.len(),
        b.subrange(
            p,
            p + (seq![123u8] + member_text(c) + seq![44u8] + member_text(m) + seq![44u8]
                + member_text(d) + seq![125u8]).len(),
        ) == seq![123u8] + member_text(c) + seq![44u8] + member_text(m) + seq![44u8]
            + member_text(d) + seq![125u8],
        plain_name(c.0),
        plain_name(m.0),
        plain_name(d.0),
        read_alone(c.1),
        read_alone(m.1),
        read_alone(d.1),
        c.1[0] != 123u8,
    ensures
        object_at(b, p, false) == Some(
            (
                seq![
                    (ascii(c.0), p + 1 + c.0.len() as int + 3),
                    (ascii(m.0), p + 1 + member_text(c).len() + 1 + m.0.len() as int + 3),
                    (
                        ascii(d.0),
                        p + 1 + member_text(c).len() + 1 + member_text(m).len() + 1
                            + d.0.len() as int + 3,
                    ),
                ],
                p + (seq![123u8] + member_text(c) + seq![44u8] + member_text(m) + seq![44u8]
                    + member_text(d) + seq![125u8]).len(),
            ),
        ),
        members_count(b, p + 1 + c.0.len() as int + 3) is None,
{
    let body = seq![123u8] + member_text(c) + seq![44u8] + member_text(m) + seq![44u8]
        + member_text(d) + seq![125u8];
    let inner = member_text(c) + seq![44u8] + member_text(m) + seq![44u8] + member_text(d) + seq![
        125u8,
    ];
    assert forall|x: int| 0 <= x < body.len() implies b[p + x] == body[x] by {
        assert(b.subrange(p, p + body.len())[x] == b[p + x]);
    }
    assert(b.subrange(p + 1, p + 1 + inner.len()) =~= inner) by {
        assert forall|x: int| 0 <= x < inner.len() implies b.subrange(p + 1, p + 1 + inner.len())[x]
            == inner[x] by {
            assert(b[p + (1 + x)] == body[1 + x]);
        }
    }
    assert(b[p] == 123u8) by {
        assert(b[p + 0] == body[0]);
    }
    assert(b[p + 1] == 34u8) by {
        assert(b[p + 1] == inner[0]);
    }
    lemma_object_opens(b, p, false);
    lemma_three_members(b, p + 1, c, m, d, false);
    let vc = p + 1 + c.0.len() as int + 3;
    assert(b[vc] == c.1[0]) by {
        assert(b[p + (1 + c.0.len() as int + 3)] == body[1 + c.0.len() as int + 3]);
        assert(member_text(c)[c.0.len() as int + 3] == c.1[0]);
    }
}

/// The layout of `{"id":..,"error":{c,m,d}}`, the code written as no object.
#[verifier::spinoff_prover]
#[verifier::rlimit(80)]
pub proof fn lemma_layout_error(
    b: Seq<u8>,
    id: Seq<u8>,
    c: (Seq<char>, Seq<u8>),
    m: (Seq<char>, Seq<u8>),
    d: (Seq<char>, Seq<u8>),
)
    requires
        b == seq![123u8] + member_text(("id"@, id)) + seq![44u8] + member_text(
            (
                "error"@,
                seq![123u8] + member_text(c) + seq![44u8] + member_text(m) + seq![44u8]
                    + member_text(d) + seq![125u8],
            ),
        ) + seq![125u8],
        plain_name("id"@),
        plain_name("error"@),
        plain_name(c.0),
        plain_name(m.0),
        plain_name(d.0),
        read_alone(id),
        read_alone(c.1),
        read_alone(m.1),
        read_alone(d.1),
        c.1[0] != 123u8,
        ascii("id"@) != ascii("error"@),
        ascii(c.0) == ascii("code"@),
    ensures
        text_layout(b) == (TextLayout {
            top: seq![ascii("id"@), ascii("error"@)],
            body: seq![ascii(c.0), ascii(m.0), ascii(d.0)],
            code_members: None,
        }),
{
    let body = seq![123u8] + member_text(c) + seq![44u8] + member_text(m) + seq![44u8]
        + member_text(d) + seq![125u8];
    let mi = ("id"@, id);
    let me = ("error"@, body);
    let w = member_text(mi) + seq![44u8] + member_text(me) + seq![125u8];
    let li = member_text(mi).len() as int;
    assert(ascii("error"@).len() == 5 && ascii("id"@).len() == 2) by {
        reveal_strlit("error");
        reveal_strlit("id");
    }
    let vb = 1 + li + 1 + 5 + 3;
    lemma_body_position(b, id, body);
    lemma_body_walk(b, vb, c, m, d);
    let bs = object_at(b, vb, false).unwrap().0;
    let ms = seq![(ascii("id"@), 6int), (ascii("error"@), vb)];
    lemma_error_top_walk(b, id, body, vb);
    assert(first_value_from(ms, ascii("error"@), 0) == Some(vb)) by {
        reveal_with_fuel(first_value_from, 3);
    }
    assert(first_value_from(bs, ascii("code"@), 0) == Some(vb + 1 + c.0.len() as int + 3));
    lemma_layout_of_error_walk(b, ms, bs, vb, vb + 1 + c.0.len() as int + 3);
    assert(names(ms) =~= seq![ascii("id"@), ascii("error"@)]);
    assert(names(bs) =~= seq![ascii(c.0), ascii(m.0), ascii(d.0)]);
}

#[verifier::spinoff_prover]
proof fn lemma_body_position(b: Seq<u8>, id: Seq<u8>, body: Seq<u8>)
    requires
        b == seq![123u8] + member_text(("id"@, id)) + seq![44u8] + member_text(("error"@, body))
            + seq![125u8],
        ascii("error"@).len() == 5,
    ensures
        b.subrange(
            1 + member_text(("id"@, id)).len() as int + 1 + 8,
            1 + member_text(("id"@, id)).len() as int + 1 + 8 + body.len() as int,
        ) == body,
        1 + member_text(("id"@, id)).len() + 1 + 8 + body.len() < b.len(),
{
    let me = ("error"@, body);
    let w = member_text(("id"@, id)) + seq![44u8] + member_text(me) + seq![125u8];
    let li = member_text(("id"@, id)).len() as int;
    let vb = li + 10;
    assert(member_text(me) =~= seq![34u8] + ascii("error"@) + seq![34u8, 58u8] + body);
    assert(b.subrange(vb, vb + body.len()) =~= body) by {
        assert forall|x: int| 0 <= x < body.len() implies b.subrange(vb, vb + body.len())[x]
            == body[x] by {
            assert(b[vb + x] == w[li + 9 + x]);
            assert(w[li + 9 + x] == member_text(me)[8 + x]);
        }
    }
}

#[verifier::spinoff_prover]
proof fn lemma_error_top_walk(b: Seq<u8>, id: Seq<u8>, body: Seq<u8>, vb: int)
    requires
        b == seq![123u8] + member_text(("id"@, id)) + seq![44u8] + member_text(("error"@, body))
            + seq![125u8],
        ascii("error"@).len() == 5,
        ascii("id"@).len() == 2,
        vb == 1 + member_text(("id"@, id)).len() + 1 + 8,
        plain_name("id"@),
        plain_name("error"@),
        read_alone(id),
        body.len() > 0,
        body[0] == 123u8,
        object_at(b, vb, false) matches Some(o) && o.1 == vb + body.len(),
    ensures
        object_at(b, 0, true) matches Some(o) && o.0 == seq![(ascii("id"@), 6int), (ascii("error"@), vb)],
{
    let mi = ("id"@, id);
    let me = ("error"@, body);
    let w = member_text(mi) + seq![44u8] + member_text(me) + seq![125u8];
    assert(b.subrange(1, 1 + w.len() as int) =~= w);
    assert(b[vb] == body[0]);
    assert(member_end(b, ascii("error"@), vb, true) == Some(vb + body.len()));
    assert(b[1] == member_text(mi)[0]);
    lemma_object_opens(b, 0, true);
    lemma_two_members(b, 1, mi, me, true);
}

#[verifier::spinoff_prover]
proof fn lemma_layout_of_error_walk(
    b: Seq<u8>,
    ms: Seq<(Seq<u8>, int)>,
    bs: Seq<(Seq<u8>, int)>,
    vb: int,
    vc: int,
)
    requires
        b.len() > 0,
        b[0] == 123u8,
        object_at(b, 0, true) matches Some(o) && o.0 == ms,
        first_value_from(ms, ascii("error"@), 0) == Some(vb),
        object_at(b, vb, false) matches Some(o) && o.0 == bs,
        first_value_from(bs, ascii("code"@), 0) == Some(vc),
        members_count(b, vc) is None,
    ensures
        text_layout(b) == (TextLayout { top: names(ms), body: names(bs), code_members: None }),
{
    reveal(text_layout);
    assert(skip_ws(b, 0) == 0);
}

/// The field names of messages differ, written out as bytes too.
pub proof fn lemma_field_words()
    ensures
        ascii("id"@) != ascii("method"@),
        ascii("id"@) != ascii("params"@),
        ascii("id"@) != ascii("result"@),
        ascii("id"@) != ascii("error"@),
        ascii("id"@) != ascii("event"@),
        ascii("id"@) != ascii("data"@),
        ascii("method"@) != ascii("params"@),
        ascii("method"@) != ascii("result"@),
        ascii("method"@) != ascii("error"@),
        ascii("method"@) != ascii("event"@),
        ascii("method"@) != ascii("data"@),
        ascii("params"@) != ascii("result"@),
        ascii("params"@) != ascii("error"@),
        ascii("params"@) != ascii("event"@),
        ascii("params"@) != ascii("data"@),
        ascii("result"@) != ascii("error"@),
        ascii("result"@) != ascii("event"@),
        ascii("result"@) != ascii("data"@),
        ascii("error"@) != ascii("event"@),
        ascii("error"@) != ascii("data"@),
        ascii("event"@) != ascii("data"@),
        ascii("code"@) != ascii("message"@),
        ascii("code"@) != ascii("data"@),
        ascii("message"@) != ascii("data"@),
{
    reveal_strlit("id");
    reveal_strlit("method");
    reveal_strlit("params");
    reveal_strlit("result");
    reveal_strlit("error");
    reveal_strlit("event");
    reveal_strlit("data");
    reveal_strlit("code");
    reveal_strlit("message");
    assert(ascii("method"@)[0] != ascii("params"@)[0]);
    assert(ascii("method"@)[0] != ascii("result"@)[0]);
    assert(ascii("params"@)[0] != ascii("result"@)[0]);
    assert(ascii("error"@)[1] != ascii("event"@)[1]);
    assert(ascii("code"@)[0] != ascii("data"@)[0]);
}

/// What the codec writes for each kind of message gives no field twice.
pub proof fn lemma_fields_written_once()
    ensures
        written_once(
            TextLayout {
                top: seq![ascii("id"@), ascii("method"@), ascii("params"@)],
                body: Seq::empty(),
                code_members: None,
            },
        ),
        written_once(
            TextLayout {
                top: seq![ascii("id"@), ascii("result"@)],
                body: Seq::empty(),
                code_members: None,
            },
        ),
        written_once(
            TextLayout {
                top: seq![ascii("id"@), ascii("error"@)],
                body: seq![ascii("code"@), ascii("message"@), ascii("data"@)],
                code_members: None,
            },
        ),
        written_once(
            TextLayout {
                top: seq![ascii("event"@), ascii("data"@)],
                body: Seq::empty(),
                code_members: None,
            },
        ),
{
    lemma_field_words();
    reveal_with_fuel(count_from, 4);
}

} // verus!
