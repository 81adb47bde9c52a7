//! The wire format of the stream: newline-delimited batch lines.
//!
//! A batch line is a JSON object with a required `cursor` member, whose
//! value is an object of string fields, and an optional `events` member,
//! whose value is an array or `null`.  The grammar below is the library's
//! definition of that format: the `spec` functions state it, and the
//! executable scanners and parsers are proved to follow them exactly.
//! String values are captured as the raw bytes between their quotes,
//! escape sequences included, so that cursors round-trip verbatim.

use vstd::prelude::*;

use crate::model::Batch;
use crate::model::BatchLine;
use crate::model::BatchLineView;
use crate::model::ClientError;
use crate::model::Cursor;
use crate::model::CursorView;
use crate::model::StreamId;
use crate::model::bytes_copy;

verus! {

pub const QUOTE: u8 = 34;

pub const COMMA: u8 = 44;

pub const COLON: u8 = 58;

pub const LBRACE: u8 = 123;

pub const RBRACE: u8 = 125;

pub const LBRACK: u8 = 91;

pub const RBRACK: u8 = 93;

pub const BACKSLASH: u8 = 92;

pub const NEWLINE: u8 = 10;

/// JSON insignificant whitespace.
pub open spec fn is_ws(b: u8) -> bool {
    b == 32 || b == 9 || b == 13 || b == 10
}

fn ws_byte(b: u8) -> (r: bool)
    ensures
        r == is_ws(b),
{
    b == 32 || b == 9 || b == 13 || b == 10
}

/// First position at or after `i` that does not hold whitespace.
pub open spec fn spec_skip_ws(s: Seq<u8>, i: int) -> int
    decreases s.len() - i
    when 0 <= i <= s.len()
{
    if i < s.len() && is_ws(s[i]) {
        spec_skip_ws(s, i + 1)
    } else {
        i
    }
}

fn skip_ws(s: &[u8], i: usize) -> (r: usize)
    requires
        i <= s.len(),
    ensures
        r as int == spec_skip_ws(s@, i as int),
        i <= r <= s@.len(),
{
    let mut j: usize = i;
    while j < s.len() && ws_byte(s[j])
        invariant
            i <= j <= s.len(),
            spec_skip_ws(s@, i as int) == spec_skip_ws(s@, j as int),
        decreases s@.len() - j,
    {
        j = j + 1;
    }
    j
}

/// Position of the closing quote of a string whose contents start at `j`.
/// A backslash makes the following byte insignificant, which is exactly
/// what is needed to find the closing quote; the contents are otherwise
/// kept raw.
pub open spec fn spec_str_end(s: Seq<u8>, j: int) -> Option<int>
    decreases s.len() - j
    when 0 <= j <= s.len()
{
    if j >= s.len() {
        Option::None
    } else if s[j] == QUOTE {
        Option::Some(j)
    } else if s[j] == BACKSLASH {
        if j + 2 <= s.len() {
            spec_str_end(s, j + 2)
        } else {
            Option::None
        }
    } else {
        spec_str_end(s, j + 1)
    }
}

fn scan_str_end(s: &[u8], j0: usize) -> (r: Option<usize>)
    requires
        j0 <= s.len(),
    ensures
        match r {
            Option::Some(e) => spec_str_end(s@, j0 as int) == Option::Some(e as int) && j0 <= e
                < s@.len(),
            Option::None => spec_str_end(s@, j0 as int) is None,
        },
{
    let mut j: usize = j0;
    loop
        invariant
            j0 <= j <= s.len(),
            spec_str_end(s@, j0 as int) == spec_str_end(s@, j as int),
        decreases s@.len() - j,
    {
        if j >= s.len() {
            return Option::None;
        }
        let b: u8 = s[j];
        if b == QUOTE {
            return Option::Some(j);
        }
        if b == BACKSLASH {
            if s.len() - j >= 2 {
                j = j + 2;
            } else {
                return Option::None;
            }
        } else {
            j = j + 1;
        }
    }
}

/// End of a balanced bracket structure: `j` is the first position inside
/// it, `depth` the number of brackets already open.  Strings are opaque;
/// closing brackets of either kind match any opening one.
pub open spec fn spec_balanced_end(
    s: Seq<u8>,
    j: int,
    depth: int,
    in_str: bool,
    esc: bool,
) -> Option<int>
    decreases s.len() - j
    when 0 <= j <= s.len()
{
    if j >= s.len() {
        Option::None
    } else if in_str {
        if esc {
            spec_balanced_end(s, j + 1, depth, true, false)
        } else if s[j] == BACKSLASH {
            spec_balanced_end(s, j + 1, depth, true, true)
        } else if s[j] == QUOTE {
            spec_balanced_end(s, j + 1, depth, false, false)
        } else {
            spec_balanced_end(s, j + 1, depth, true, false)
        }
    } else if s[j] == QUOTE {
        spec_balanced_end(s, j + 1, depth, true, false)
    } else if s[j] == LBRACE || s[j] == LBRACK {
        spec_balanced_end(s, j + 1, depth + 1, false, false)
    } else if s[j] == RBRACE || s[j] == RBRACK {
        if depth <= 1 {
            Option::Some(j + 1)
        } else {
            spec_balanced_end(s, j + 1, depth - 1, false, false)
        }
    } else {
        spec_balanced_end(s, j + 1, depth, false, false)
    }
}

/// Scans past the object or array whose opening bracket stands at `i`.
fn scan_balanced(s: &[u8], i: usize) -> (r: Option<usize>)
    requires
        i < s.len(),
    ensures
        match r {
            Option::Some(e) => spec_balanced_end(s@, i + 1, 1, false, false) == Option::Some(
                e as int,
            ) && i < e <= s@.len(),
            Option::None => spec_balanced_end(s@, i + 1, 1, false, false) is None,
        },
{
    let mut j: usize = i + 1;
    let mut depth: usize = 1;
    let mut in_str: bool = false;
    let mut esc: bool = false;
    loop
        invariant
            i + 1 <= j <= s.len(),
            1 <= depth <= j,
            !in_str ==> !esc,
            spec_balanced_end(s@, i + 1, 1, false, false) == spec_balanced_end(
                s@,
                j as int,
                depth as int,
                in_str,
                esc,
            ),
        decreases s@.len() - j,
    {
        if j >= s.len() {
            return Option::None;
        }
        let b: u8 = s[j];
        let ghost pj = j as int;
        let ghost pd = depth as int;
        let ghost pin = in_str;
        let ghost pesc = esc;
        if in_str {
            if esc {
                esc = false;
            } else if b == BACKSLASH {
                esc = true;
            } else if b == QUOTE {
                in_str = false;
            }
            j = j + 1;
        } else if b == QUOTE {
            in_str = true;
            j = j + 1;
        } else if b == LBRACE || b == LBRACK {
            depth = depth + 1;
            j = j + 1;
        } else if b == RBRACE || b == RBRACK {
            if depth <= 1 {
                return Option::Some(j + 1);
            }
            depth = depth - 1;
            j = j + 1;
        } else {
            j = j + 1;
        }
        proof {
            assert(spec_balanced_end(s@, pj, pd, pin, pesc) == spec_balanced_end(
                s@,
                j as int,
                depth as int,
                in_str,
                esc,
            ));
        }
    }
}

/// A byte that ends an unquoted atom such as a number, `true` or `null`.
pub open spec fn is_atom_delim(b: u8) -> bool {
    b == COMMA || b == RBRACE || b == RBRACK || is_ws(b)
}

fn atom_delim_byte(b: u8) -> (r: bool)
    ensures
        r == is_atom_delim(b),
{
    b == COMMA || b == RBRACE || b == RBRACK || ws_byte(b)
}

/// First position at or after `i` holding an atom delimiter.
pub open spec fn spec_atom_end(s: Seq<u8>, i: int) -> int
    decreases s.len() - i
    when 0 <= i <= s.len()
{
    if i < s.len() && !is_atom_delim(s[i]) {
        spec_atom_end(s, i + 1)
    } else {
        i
    }
}

fn scan_atom_end(s: &[u8], i: usize) -> (r: usize)
    requires
        i <= s.len(),
    ensures
        r as int == spec_atom_end(s@, i as int),
        i <= r <= s@.len(),
{
    let mut j: usize = i;
    while j < s.len() && !atom_delim_byte(s[j])
        invariant
            i <= j <= s.len(),
            spec_atom_end(s@, i as int) == spec_atom_end(s@, j as int),
        decreases s@.len() - j,
    {
        j = j + 1;
    }
    j
}

/// End of the JSON value that starts at `i`: a string, a bracketed
/// structure, or a non-empty atom.
pub open spec fn spec_value_end(s: Seq<u8>, i: int) -> Option<int> {
    if i >= s.len() {
        Option::None
    } else if s[i] == QUOTE {
        match spec_str_end(s, i + 1) {
            Option::Some(e) => Option::Some(e + 1),
            Option::None => Option::None,
        }
    } else if s[i] == LBRACE || s[i] == LBRACK {
        spec_balanced_end(s, i + 1, 1, false, false)
    } else {
        let e = spec_atom_end(s, i);
        if e > i {
            Option::Some(e)
        } else {
            Option::None
        }
    }
}

fn scan_value(s: &[u8], i: usize) -> (r: Option<usize>)
    requires
        i <= s.len(),
    ensures
        match r {
            Option::Some(e) => spec_value_end(s@, i as int) == Option::Some(e as int) && i < e
                <= s@.len(),
            Option::None => spec_value_end(s@, i as int) is None,
        },
{
    if i >= s.len() {
        return Option::None;
    }
    let b: u8 = s[i];
    if b == QUOTE {
        match scan_str_end(s, i + 1) {
            Option::Some(e) => Option::Some(e + 1),
            Option::None => Option::None,
        }
    } else if b == LBRACE || b == LBRACK {
        scan_balanced(s, i)
    } else {
        let e: usize = scan_atom_end(s, i);
        if e > i {
            Option::Some(e)
        } else {
            Option::None
        }
    }
}

/// A UTF-8 continuation byte.
pub open spec fn is_cont(b: u8) -> bool {
    0x80 <= b <= 0xBF
}

fn cont_byte(b: u8) -> (r: bool)
    ensures
        r == is_cont(b),
{
    0x80 <= b && b <= 0xBF
}

/// Whether the bytes from `i` on are a well-formed UTF-8 tail: each code
/// point in its shortest encoding, surrogates and values past U+10FFFF
/// excluded.
pub open spec fn spec_utf8_from(s: Seq<u8>, i: int) -> bool
    decreases s.len() - i
    when 0 <= i <= s.len()
{
    if i >= s.len() {
        true
    } else {
        let b = s[i];
        if b <= 0x7F {
            spec_utf8_from(s, i + 1)
        } else if 0xC2 <= b <= 0xDF {
            i + 2 <= s.len() && is_cont(s[i + 1]) && spec_utf8_from(s, i + 2)
        } else if b == 0xE0 {
            i + 3 <= s.len() && 0xA0 <= s[i + 1] <= 0xBF && is_cont(s[i + 2]) && spec_utf8_from(
                s,
                i + 3,
            )
        } else if (0xE1 <= b <= 0xEC) || b == 0xEE || b == 0xEF {
            i + 3 <= s.len() && is_cont(s[i + 1]) && is_cont(s[i + 2]) && spec_utf8_from(s, i + 3)
        } else if b == 0xED {
            i + 3 <= s.len() && 0x80 <= s[i + 1] <= 0x9F && is_cont(s[i + 2]) && spec_utf8_from(
                s,
                i + 3,
            )
        } else if b == 0xF0 {
            i + 4 <= s.len() && 0x90 <= s[i + 1] <= 0xBF && is_cont(s[i + 2]) && is_cont(s[i + 3])
                && spec_utf8_from(s, i + 4)
        } else if 0xF1 <= b <= 0xF3 {
            i + 4 <= s.len() && is_cont(s[i + 1]) && is_cont(s[i + 2]) && is_cont(s[i + 3])
                && spec_utf8_from(s, i + 4)
        } else if b == 0xF4 {
            i + 4 <= s.len() && 0x80 <= s[i + 1] <= 0x8F && is_cont(s[i + 2]) && is_cont(s[i + 3])
                && spec_utf8_from(s, i + 4)
        } else {
            false
        }
    }
}

/// A well-formed UTF-8 byte string.
pub open spec fn spec_utf8(s: Seq<u8>) -> bool {
    spec_utf8_from(s, 0)
}

/// Checks that the bytes are well-formed UTF-8.
pub fn is_utf8(s: &[u8]) -> (r: bool)
    ensures
        r == spec_utf8(s@),
{
    let mut i: usize = 0;
    loop
        invariant
            i <= s.len(),
            spec_utf8_from(s@, 0) == spec_utf8_from(s@, i as int),
        decreases s@.len() - i,
    {
        if i >= s.len() {
            return true;
        }
        let b: u8 = s[i];
        if b <= 0x7F {
            i = i + 1;
        } else if 0xC2 <= b && b <= 0xDF {
            if s.len() - i >= 2 && cont_byte(s[i + 1]) {
                i = i + 2;
            } else {
                return false;
            }
        } else if b == 0xE0 {
            if s.len() - i >= 3 && 0xA0 <= s[i + 1] && s[i + 1] <= 0xBF && cont_byte(s[i + 2]) {
                i = i + 3;
            } else {
                return false;
            }
        } else if (0xE1 <= b && b <= 0xEC) || b == 0xEE || b == 0xEF {
            if s.len() - i >= 3 && cont_byte(s[i + 1]) && cont_byte(s[i + 2]) {
                i = i + 3;
            } else {
                return false;
            }
        } else if b == 0xED {
            if s.len() - i >= 3 && 0x80 <= s[i + 1] && s[i + 1] <= 0x9F && cont_byte(s[i + 2]) {
                i = i + 3;
            } else {
                return false;
            }
        } else if b == 0xF0 {
            if s.len() - i >= 4 && 0x90 <= s[i + 1] && s[i + 1] <= 0xBF && cont_byte(s[i + 2])
                && cont_byte(s[i + 3]) {
                i = i + 4;
            } else {
                return false;
            }
        } else if 0xF1 <= b && b <= 0xF3 {
            if s.len() - i >= 4 && cont_byte(s[i + 1]) && cont_byte(s[i + 2]) && cont_byte(
                s[i + 3],
            ) {
                i = i + 4;
            } else {
                return false;
            }
        } else if b == 0xF4 {
            if s.len() - i >= 4 && 0x80 <= s[i + 1] && s[i + 1] <= 0x8F && cont_byte(s[i + 2])
                && cont_byte(s[i + 3]) {
                i = i + 4;
            } else {
                return false;
            }
        } else {
            return false;
        }
    }
}

/// The member name `cursor`.
pub open spec fn key_cursor() -> Seq<u8> {
    seq![99u8, 117u8, 114u8, 115u8, 111u8, 114u8]
}

/// The member name `events`.
pub open spec fn key_events() -> Seq<u8> {
    seq![101u8, 118u8, 101u8, 110u8, 116u8, 115u8]
}

/// The member name `event_type`.
pub open spec fn key_event_type() -> Seq<u8> {
    seq![101u8, 118u8, 101u8, 110u8, 116u8, 95u8, 116u8, 121u8, 112u8, 101u8]
}

/// The member name `partition`.
pub open spec fn key_partition() -> Seq<u8> {
    seq![112u8, 97u8, 114u8, 116u8, 105u8, 116u8, 105u8, 111u8, 110u8]
}

/// The member name `offset`.
pub open spec fn key_offset() -> Seq<u8> {
    seq![111u8, 102u8, 102u8, 115u8, 101u8, 116u8]
}

/// The member name `cursor_token`.
pub open spec fn key_cursor_token() -> Seq<u8> {
    seq![99u8, 117u8, 114u8, 115u8, 111u8, 114u8, 95u8, 116u8, 111u8, 107u8, 101u8, 110u8]
}

/// The atom `null`.
pub open spec fn key_null() -> Seq<u8> {
    seq![110u8, 117u8, 108u8, 108u8]
}

fn key_cursor_vec() -> (r: Vec<u8>)
    ensures
        r@ == key_cursor(),
{
    let mut v: Vec<u8> = Vec::new();
    v.push(99);
    v.push(117);
    v.push(114);
    v.push(115);
    v.push(111);
    v.push(114);
    proof {
        assert(v@ =~= key_cursor());
    }
    v
}

fn key_events_vec() -> (r: Vec<u8>)
    ensures
        r@ == key_events(),
{
    let mut v: Vec<u8> = Vec::new();
    v.push(101);
    v.push(118);
    v.push(101);
    v.push(110);
    v.push(116);
    v.push(115);
    proof {
        assert(v@ =~= key_events());
    }
    v
}

fn key_event_type_vec() -> (r: Vec<u8>)
    ensures
        r@ == key_event_type(),
{
    let mut v: Vec<u8> = Vec::new();
    v.push(101);
    v.push(118);
    v.push(101);
    v.push(110);
    v.push(116);
    v.push(95);
    v.push(116);
    v.push(121);
    v.push(112);
    v.push(101);
    proof {
        assert(v@ =~= key_event_type());
    }
    v
}

fn key_partition_vec() -> (r: Vec<u8>)
    ensures
        r@ == key_partition(),
{
    let mut v: Vec<u8> = Vec::new();
    v.push(112);
    v.push(97);
    v.push(114);
    v.push(116);
    v.push(105);
    v.push(116);
    v.push(105);
    v.push(111);
    v.push(110);
    proof {
        assert(v@ =~= key_partition());
    }
    v
}

fn key_offset_vec() -> (r: Vec<u8>)
    ensures
        r@ == key_offset(),
{
    let mut v: Vec<u8> = Vec::new();
    v.push(111);
    v.push(102);
    v.push(102);
    v.push(115);
    v.push(101);
    v.push(116);
    proof {
        assert(v@ =~= key_offset());
    }
    v
}

fn key_cursor_token_vec() -> (r: Vec<u8>)
    ensures
        r@ == key_cursor_token(),
{
    let mut v: Vec<u8> = Vec::new();
    v.push(99);
    v.push(117);
    v.push(114);
    v.push(115);
    v.push(111);
    v.push(114);
    v.push(95);
    v.push(116);
    v.push(111);
    v.push(107);
    v.push(101);
    v.push(110);
    proof {
        assert(v@ =~= key_cursor_token());
    }
    v
}

fn key_null_vec() -> (r: Vec<u8>)
    ensures
        r@ == key_null(),
{
    let mut v: Vec<u8> = Vec::new();
    v.push(110);
    v.push(117);
    v.push(108);
    v.push(108);
    proof {
        assert(v@ =~= key_null());
    }
    v
}

/// Copies the bytes of `s` between `a` and `b` into a fresh vector.
pub fn copy_range(s: &[u8], a: usize, b: usize) -> (r: Vec<u8>)
    requires
        a <= b <= s.len(),
    ensures
        r@ == s@.subrange(a as int, b as int),
{
    let mut out: Vec<u8> = Vec::new();
    let mut k: usize = a;
    while k < b
        invariant
            a <= k <= b <= s.len(),
            out@ == s@.subrange(a as int, k as int),
        decreases b - k,
    {
        out.push(s[k]);
        assert(s@.subrange(a as int, k + 1 as int) =~= s@.subrange(a as int, k as int).push(
            s@[k as int],
        ));
        k = k + 1;
    }
    out
}

/// Compares the bytes of `s` between `a` and `b` with `lit`.
fn range_eq(s: &[u8], a: usize, b: usize, lit: &Vec<u8>) -> (r: bool)
    requires
        a <= b <= s.len(),
    ensures
        r == (s@.subrange(a as int, b as int) == lit@),
{
    if b - a != lit.len() {
        proof {
            if s@.subrange(a as int, b as int) == lit@ {
                assert(s@.subrange(a as int, b as int).len() == lit@.len());
                assert(false);
            }
        }
        return false;
    }
    let mut k: usize = 0;
    while k < lit.len()
        invariant
            k <= lit.len(),
            a <= b <= s.len(),
            b - a == lit.len(),
            forall|m: int| 0 <= m < k ==> s@.subrange(a as int, b as int)[m] == lit@[m],
        decreases lit.len() - k,
    {
        if s[a + k] != lit[k] {
            proof {
                if s@.subrange(a as int, b as int) == lit@ {
                    assert(s@.subrange(a as int, b as int)[k as int] == lit@[k as int]);
                    assert(false);
                }
            }
            return false;
        }
        assert(s@.subrange(a as int, b as int)[k as int] == s@[a + k]);
        k = k + 1;
    }
    proof {
        assert(s@.subrange(a as int, b as int) =~= lit@);
    }
    true
}

/// The view of a captured byte range.
pub open spec fn rng_view(s: Seq<u8>, r: Option<(usize, usize)>) -> Option<Seq<u8>> {
    match r {
        Option::Some(p) => Option::Some(s.subrange(p.0 as int, p.1 as int)),
        Option::None => Option::None,
    }
}

/// A captured range lies inside the input.
pub open spec fn rng_ok(s: Seq<u8>, r: Option<(usize, usize)>) -> bool {
    match r {
        Option::Some(p) => p.0 <= p.1 <= s.len(),
        Option::None => true,
    }
}

/// A cursor object is complete exactly when all four fields were seen.
pub open spec fn spec_cursor_done(
    et: Option<Seq<u8>>,
    pa: Option<Seq<u8>>,
    of: Option<Seq<u8>>,
    tk: Option<Seq<u8>>,
    pos: int,
) -> Option<(CursorView, int)> {
    match (et, pa, of, tk) {
        (Option::Some(a), Option::Some(b), Option::Some(c), Option::Some(d)) => Option::Some(
            (CursorView { event_type: a, partition: b, offset: c, cursor_token: d }, pos),
        ),
        _ => Option::None,
    }
}

/// Members of the cursor object, walked one at a time.  `at_sep` is true
/// between a member and the `,` or `}` that follows it.  The four
/// accumulators hold the fields seen so far; a repeated field keeps the
/// later value.  Fields other than the four are skipped over.
pub open spec fn spec_cursor_members(
    s: Seq<u8>,
    i: int,
    at_sep: bool,
    et: Option<Seq<u8>>,
    pa: Option<Seq<u8>>,
    of: Option<Seq<u8>>,
    tk: Option<Seq<u8>>,
) -> Option<(CursorView, int)>
    decreases s.len() - i
    when 0 <= i <= s.len()
{
    let j = spec_skip_ws(s, i);
    if j >= s.len() {
        Option::None
    } else if at_sep {
        if s[j] == COMMA {
            if i < j + 1 <= s.len() {
                spec_cursor_members(s, j + 1, false, et, pa, of, tk)
            } else {
                Option::None
            }
        } else if s[j] == RBRACE {
            spec_cursor_done(et, pa, of, tk, j + 1)
        } else {
            Option::None
        }
    } else if s[j] == RBRACE {
        spec_cursor_done(et, pa, of, tk, j + 1)
    } else if s[j] == QUOTE {
        match spec_str_end(s, j + 1) {
            Option::Some(ke) => {
                let key = s.subrange(j + 1, ke);
                let j2 = spec_skip_ws(s, ke + 1);
                if j2 < s.len() && s[j2] == COLON {
                    let j3 = spec_skip_ws(s, j2 + 1);
                    if key == key_event_type() || key == key_partition() || key == key_offset()
                        || key == key_cursor_token() {
                        if j3 < s.len() && s[j3] == QUOTE {
                            match spec_str_end(s, j3 + 1) {
                                Option::Some(ve) => {
                                    let v = s.subrange(j3 + 1, ve);
                                    if i < ve + 1 <= s.len() {
                                        spec_cursor_members(
                                            s,
                                            ve + 1,
                                            true,
                                            if key == key_event_type() {
                                                Option::Some(v)
                                            } else {
                                                et
                                            },
                                            if key == key_partition() {
                                                Option::Some(v)
                                            } else {
                                                pa
                                            },
                                            if key == key_offset() {
                                                Option::Some(v)
                                            } else {
                                                of
                                            },
                                            if key == key_cursor_token() {
                                                Option::Some(v)
                                            } else {
                                                tk
                                            },
                                        )
                                    } else {
                                        Option::None
                                    }
                                },
                                Option::None => Option::None,
                            }
                        } else {
                            Option::None
                        }
                    } else {
                        match spec_value_end(s, j3) {
                            Option::Some(ve) => {
                                if i < ve <= s.len() {
                                    spec_cursor_members(s, ve, true, et, pa, of, tk)
                                } else {
                                    Option::None
                                }
                            },
                            Option::None => Option::None,
                        }
                    }
                } else {
                    Option::None
                }
            },
            Option::None => Option::None,
        }
    } else {
        Option::None
    }
}

/// A cursor object: `{` followed by its members.
pub open spec fn spec_parse_cursor(s: Seq<u8>, i: int) -> Option<(CursorView, int)> {
    if 0 <= i < s.len() && s[i] == LBRACE {
        spec_cursor_members(s, i + 1, false, Option::None, Option::None, Option::None, Option::None)
    } else {
        Option::None
    }
}

/// Parses the cursor object that starts at `i`, returning the cursor and
/// the position after its closing brace.
pub fn parse_cursor_obj(s: &[u8], i: usize) -> (r: Option<(Cursor, usize)>)
    requires
        i <= s.len(),
    ensures
        match r {
            Option::Some(ce) => spec_parse_cursor(s@, i as int) == Option::Some(
                (ce.0@, ce.1 as int),
            ) && i < ce.1 <= s@.len(),
            Option::None => spec_parse_cursor(s@, i as int) is None,
        },
{
    if i >= s.len() {
        return Option::None;
    }
    if s[i] != LBRACE {
        return Option::None;
    }
    let k_et: Vec<u8> = key_event_type_vec();
    let k_pa: Vec<u8> = key_partition_vec();
    let k_of: Vec<u8> = key_offset_vec();
    let k_tk: Vec<u8> = key_cursor_token_vec();
    let mut pos: usize = i + 1;
    let mut at_sep: bool = false;
    let mut et: Option<(usize, usize)> = Option::None;
    let mut pa: Option<(usize, usize)> = Option::None;
    let mut of: Option<(usize, usize)> = Option::None;
    let mut tk: Option<(usize, usize)> = Option::None;
    loop
        invariant
            i < pos <= s.len(),
            k_et@ == key_event_type(),
            k_pa@ == key_partition(),
            k_of@ == key_offset(),
            k_tk@ == key_cursor_token(),
            rng_ok(s@, et),
            rng_ok(s@, pa),
            rng_ok(s@, of),
            rng_ok(s@, tk),
            spec_parse_cursor(s@, i as int) == spec_cursor_members(
                s@,
                pos as int,
                at_sep,
                rng_view(s@, et),
                rng_view(s@, pa),
                rng_view(s@, of),
                rng_view(s@, tk),
            ),
        decreases s@.len() - pos,
    {
        let ghost ppos = pos as int;
        let ghost psep = at_sep;
        let ghost pet = rng_view(s@, et);
        let ghost ppa = rng_view(s@, pa);
        let ghost pof = rng_view(s@, of);
        let ghost ptk = rng_view(s@, tk);
        let j: usize = skip_ws(s, pos);
        if j >= s.len() {
            return Option::None;
        }
        let b: u8 = s[j];
        if (at_sep && b == COMMA) {
            pos = j + 1;
            at_sep = false;
        } else if b == RBRACE {
            match (et, pa, of, tk) {
                (Option::Some(a), Option::Some(p), Option::Some(o), Option::Some(t)) => {
                    let cur = Cursor {
                        event_type: copy_range(s, a.0, a.1),
                        partition: copy_range(s, p.0, p.1),
                        offset: copy_range(s, o.0, o.1),
                        cursor_token: copy_range(s, t.0, t.1),
                    };
                    return Option::Some((cur, j + 1));
                },
                _ => {
                    return Option::None;
                },
            }
        } else if at_sep {
            return Option::None;
        } else if b == QUOTE {
            let ke: usize = match scan_str_end(s, j + 1) {
                Option::Some(k) => k,
                Option::None => {
                    return Option::None;
                },
            };
            let j2: usize = skip_ws(s, ke + 1);
            if j2 >= s.len() {
                return Option::None;
            }
            if s[j2] != COLON {
                return Option::None;
            }
            let j3: usize = skip_ws(s, j2 + 1);
            let is_et: bool = range_eq(s, j + 1, ke, &k_et);
            let is_pa: bool = range_eq(s, j + 1, ke, &k_pa);
            let is_of: bool = range_eq(s, j + 1, ke, &k_of);
            let is_tk: bool = range_eq(s, j + 1, ke, &k_tk);
            if is_et || is_pa || is_of || is_tk {
                if j3 >= s.len() {
                    return Option::None;
                }
                if s[j3] != QUOTE {
                    return Option::None;
                }
                let ve: usize = match scan_str_end(s, j3 + 1) {
                    Option::Some(v) => v,
                    Option::None => {
                        return Option::None;
                    },
                };
                if is_et {
                    et = Option::Some((j3 + 1, ve));
                }
                if is_pa {
                    pa = Option::Some((j3 + 1, ve));
                }
                if is_of {
                    of = Option::Some((j3 + 1, ve));
                }
                if is_tk {
                    tk = Option::Some((j3 + 1, ve));
                }
                pos = ve + 1;
                at_sep = true;
            } else {
                let ve: usize = match scan_value(s, j3) {
                    Option::Some(v) => v,
                    Option::None => {
                        return Option::None;
                    },
                };
                pos = ve;
                at_sep = true;
            }
        } else {
            return Option::None;
        }
        proof {
            assert(spec_cursor_members(s@, ppos, psep, pet, ppa, pof, ptk)
                == spec_cursor_members(
                s@,
                pos as int,
                at_sep,
                rng_view(s@, et),
                rng_view(s@, pa),
                rng_view(s@, of),
                rng_view(s@, tk),
            ));
        }
    }
}

/// Number of elements of the array whose contents start at `i`, and the
/// position after its closing bracket.  `acc` counts the elements already
/// passed.  A trailing comma before the bracket is tolerated.
pub open spec fn spec_count_elems(s: Seq<u8>, i: int, acc: int) -> Option<(int, int)>
    decreases s.len() - i
    when 0 <= i <= s.len()
{
    let j = spec_skip_ws(s, i);
    if j >= s.len() {
        Option::None
    } else if s[j] == RBRACK {
        Option::Some((acc, j + 1))
    } else {
        match spec_value_end(s, j) {
            Option::Some(e) => {
                let j2 = spec_skip_ws(s, e);
                if j2 >= s.len() {
                    Option::None
                } else if s[j2] == COMMA {
                    if i < j2 + 1 <= s.len() {
                        spec_count_elems(s, j2 + 1, acc + 1)
                    } else {
                        Option::None
                    }
                } else if s[j2] == RBRACK {
                    Option::Some((acc + 1, j2 + 1))
                } else {
                    Option::None
                }
            },
            Option::None => Option::None,
        }
    }
}

/// Counts the elements of the array whose contents start at `i`.
fn count_elems(s: &[u8], i: usize) -> (r: Option<(usize, usize)>)
    requires
        i <= s.len(),
    ensures
        match r {
            Option::Some(ne) => spec_count_elems(s@, i as int, 0) == Option::Some(
                (ne.0 as int, ne.1 as int),
            ) && i < ne.1 <= s@.len(),
            Option::None => spec_count_elems(s@, i as int, 0) is None,
        },
{
    let mut pos: usize = i;
    let mut acc: usize = 0;
    loop
        invariant
            i <= pos <= s.len(),
            acc <= pos,
            spec_count_elems(s@, i as int, 0) == spec_count_elems(s@, pos as int, acc as int),
        decreases s@.len() - pos,
    {
        let ghost ppos = pos as int;
        let ghost pacc = acc as int;
        let j: usize = skip_ws(s, pos);
        if j >= s.len() {
            return Option::None;
        }
        if s[j] == RBRACK {
            return Option::Some((acc, j + 1));
        }
        let e: usize = match scan_value(s, j) {
            Option::Some(v) => v,
            Option::None => {
                return Option::None;
            },
        };
        let j2: usize = skip_ws(s, e);
        if j2 >= s.len() {
            return Option::None;
        }
        if s[j2] == COMMA {
            pos = j2 + 1;
            acc = acc + 1;
        } else if s[j2] == RBRACK {
            return Option::Some((acc + 1, j2 + 1));
        } else {
            return Option::None;
        }
        proof {
            assert(spec_count_elems(s@, ppos, pacc) == spec_count_elems(
                s@,
                pos as int,
                acc as int,
            ));
        }
    }
}

/// The view of the cursor accumulated at the top level.
pub open spec fn opt_cursor_view(c: Option<Cursor>) -> Option<CursorView> {
    match c {
        Option::Some(x) => Option::Some(x@),
        Option::None => Option::None,
    }
}

/// The view of the events accumulated at the top level: the raw bytes of
/// the array, brackets included, and its element count.
pub open spec fn ev_view(s: Seq<u8>, e: Option<(usize, usize, usize)>) -> Option<(Seq<u8>, int)> {
    match e {
        Option::Some(t) => Option::Some((s.subrange(t.0 as int, t.1 as int), t.2 as int)),
        Option::None => Option::None,
    }
}

/// A batch line is complete exactly when its cursor was seen.  An absent
/// (or `null`) events member makes a keep-alive line.
pub open spec fn spec_top_done(
    cur: Option<CursorView>,
    ev: Option<(Seq<u8>, int)>,
    pos: int,
) -> Option<(BatchLineView, int)> {
    match cur {
        Option::Some(c) => Option::Some(
            (
                BatchLineView {
                    cursor: c,
                    events: match ev {
                        Option::Some(p) => Option::Some(p.0),
                        Option::None => Option::None,
                    },
                    num_events: match ev {
                        Option::Some(p) => p.1,
                        Option::None => 0,
                    },
                },
                pos,
            ),
        ),
        Option::None => Option::None,
    }
}

/// Members of the batch-line object, walked one at a time.  The value of
/// `cursor` must be an object of string fields; the value of `events`
/// must be an array or `null`; every other member is skipped over.
pub open spec fn spec_top_members(
    s: Seq<u8>,
    i: int,
    at_sep: bool,
    cur: Option<CursorView>,
    ev: Option<(Seq<u8>, int)>,
) -> Option<(BatchLineView, int)>
    decreases s.len() - i
    when 0 <= i <= s.len()
{
    let j = spec_skip_ws(s, i);
    if j >= s.len() {
        Option::None
    } else if at_sep {
        if s[j] == COMMA {
            if i < j + 1 <= s.len() {
                spec_top_members(s, j + 1, false, cur, ev)
            } else {
                Option::None
            }
        } else if s[j] == RBRACE {
            spec_top_done(cur, ev, j + 1)
        } else {
            Option::None
        }
    } else if s[j] == RBRACE {
        spec_top_done(cur, ev, j + 1)
    } else if s[j] == QUOTE {
        match spec_str_end(s, j + 1) {
            Option::Some(ke) => {
                let key = s.subrange(j + 1, ke);
                let j2 = spec_skip_ws(s, ke + 1);
                if j2 < s.len() && s[j2] == COLON {
                    let j3 = spec_skip_ws(s, j2 + 1);
                    if key == key_cursor() {
                        match spec_parse_cursor(s, j3) {
                            Option::Some(ce) => {
                                if i < ce.1 <= s.len() {
                                    spec_top_members(s, ce.1, true, Option::Some(ce.0), ev)
                                } else {
                                    Option::None
                                }
                            },
                            Option::None => Option::None,
                        }
                    } else if key == key_events() {
                        if j3 < s.len() && s[j3] == LBRACK {
                            match spec_count_elems(s, j3 + 1, 0) {
                                Option::Some(ne) => {
                                    if i < ne.1 <= s.len() {
                                        spec_top_members(
                                            s,
                                            ne.1,
                                            true,
                                            cur,
                                            Option::Some((s.subrange(j3, ne.1), ne.0)),
                                        )
                                    } else {
                                        Option::None
                                    }
                                },
                                Option::None => Option::None,
                            }
                        } else {
                            let e = spec_atom_end(s, j3);
                            if e > j3 && s.subrange(j3, e) == key_null() {
                                if i < e <= s.len() {
                                    spec_top_members(s, e, true, cur, Option::None)
                                } else {
                                    Option::None
                                }
                            } else {
                                Option::None
                            }
                        }
                    } else {
                        match spec_value_end(s, j3) {
                            Option::Some(ve) => {
                                if i < ve <= s.len() {
                                    spec_top_members(s, ve, true, cur, ev)
                                } else {
                                    Option::None
                                }
                            },
                            Option::None => Option::None,
                        }
                    }
                } else {
                    Option::None
                }
            },
            Option::None => Option::None,
        }
    } else {
        Option::None
    }
}

/// One line of the stream: a single JSON object with a required `cursor`
/// member, possibly surrounded by whitespace, with nothing after it.
pub open spec fn spec_parse_batch_line(s: Seq<u8>) -> Option<BatchLineView> {
    let j = spec_skip_ws(s, 0);
    if j < s.len() && s[j] == LBRACE {
        match spec_top_members(s, j + 1, false, Option::None, Option::None) {
            Option::Some(p) => {
                if spec_skip_ws(s, p.1) == s.len() {
                    Option::Some(p.0)
                } else {
                    Option::None
                }
            },
            Option::None => Option::None,
        }
    } else {
        Option::None
    }
}

/// Parses the members of the batch-line object, `start` being the
/// position after the opening brace, and returns the line together with
/// the position after the closing brace.
fn parse_top_members(s: &[u8], start: usize) -> (r: Option<(BatchLine, usize)>)
    requires
        start <= s.len(),
    ensures
        match r {
            Option::Some(be) => spec_top_members(s@, start as int, false, Option::None, Option::None)
                == Option::Some((be.0@, be.1 as int)) && start <= be.1 <= s@.len(),
            Option::None => spec_top_members(s@, start as int, false, Option::None, Option::None)
                is None,
        },
{
    let k_cur: Vec<u8> = key_cursor_vec();
    let k_ev: Vec<u8> = key_events_vec();
    let k_null: Vec<u8> = key_null_vec();
    let mut pos: usize = start;
    let mut at_sep: bool = false;
    let mut cur: Option<Cursor> = Option::None;
    let mut ev: Option<(usize, usize, usize)> = Option::None;
    loop
        invariant
            start <= pos <= s.len(),
            k_cur@ == key_cursor(),
            k_ev@ == key_events(),
            k_null@ == key_null(),
            (ev matches Option::Some(t) ==> t.0 <= t.1 <= s.len()),
            spec_top_members(s@, start as int, false, Option::None, Option::None)
                == spec_top_members(
                s@,
                pos as int,
                at_sep,
                opt_cursor_view(cur),
                ev_view(s@, ev),
            ),
        decreases s@.len() - pos,
    {
        let ghost ppos = pos as int;
        let ghost psep = at_sep;
        let ghost pcur = opt_cursor_view(cur);
        let ghost pev = ev_view(s@, ev);
        let j: usize = skip_ws(s, pos);
        if j >= s.len() {
            return Option::None;
        }
        let b: u8 = s[j];
        if (at_sep && b == COMMA) {
            pos = j + 1;
            at_sep = false;
        } else if b == RBRACE {
            match cur {
                Option::Some(c) => {
                    let line = match ev {
                        Option::Some(r3) => BatchLine {
                            cursor: c,
                            events: Option::Some(copy_range(s, r3.0, r3.1)),
                            num_events: r3.2,
                        },
                        Option::None => BatchLine {
                            cursor: c,
                            events: Option::None,
                            num_events: 0,
                        },
                    };
                    return Option::Some((line, j + 1));
                },
                Option::None => {
                    return Option::None;
                },
            }
        } else if at_sep {
            return Option::None;
        } else if b == QUOTE {
            let ke: usize = match scan_str_end(s, j + 1) {
                Option::Some(k) => k,
                Option::None => {
                    return Option::None;
                },
            };
            let j2: usize = skip_ws(s, ke + 1);
            if j2 >= s.len() {
                return Option::None;
            }
            if s[j2] != COLON {
                return Option::None;
            }
            let j3: usize = skip_ws(s, j2 + 1);
            let is_cur: bool = range_eq(s, j + 1, ke, &k_cur);
            let is_ev: bool = range_eq(s, j + 1, ke, &k_ev);
            if is_cur {
                let ce: (Cursor, usize) = match parse_cursor_obj(s, j3) {
                    Option::Some(p) => p,
                    Option::None => {
                        return Option::None;
                    },
                };
                cur = Option::Some(ce.0);
                pos = ce.1;
                at_sep = true;
            } else if is_ev {
                if j3 < s.len() && s[j3] == LBRACK {
                    let ne: (usize, usize) = match count_elems(s, j3 + 1) {
                        Option::Some(p) => p,
                        Option::None => {
                            return Option::None;
                        },
                    };
                    ev = Option::Some((j3, ne.1, ne.0));
                    pos = ne.1;
                    at_sep = true;
                } else {
                    let e: usize = scan_atom_end(s, j3);
                    if e > j3 && range_eq(s, j3, e, &k_null) {
                        ev = Option::None;
                        pos = e;
                        at_sep = true;
                    } else {
                        return Option::None;
                    }
                }
            } else {
                let ve: usize = match scan_value(s, j3) {
                    Option::Some(v) => v,
                    Option::None => {
                        return Option::None;
                    },
                };
                pos = ve;
                at_sep = true;
            }
        } else {
            return Option::None;
        }
        proof {
            assert(spec_top_members(s@, ppos, psep, pcur, pev) == spec_top_members(
                s@,
                pos as int,
                at_sep,
                opt_cursor_view(cur),
                ev_view(s@, ev),
            ));
        }
    }
}

/// Parses one line of the stream.  A line that does not follow the
/// grammar yields nothing; a malformed line is never silently skipped by
/// the callers.
pub fn parse_batch_line(s: &[u8]) -> (r: Option<BatchLine>)
    ensures
        match r {
            Option::Some(bl) => spec_parse_batch_line(s@) == Option::Some(bl@),
            Option::None => spec_parse_batch_line(s@) is None,
        },
{
    let j0: usize = skip_ws(s, 0);
    if j0 >= s.len() {
        return Option::None;
    }
    if s[j0] != LBRACE {
        return Option::None;
    }
    match parse_top_members(s, j0 + 1) {
        Option::Some(be) => {
            let t: usize = skip_ws(s, be.1);
            if t == s.len() {
                Option::Some(be.0)
            } else {
                Option::None
            }
        },
        Option::None => Option::None,
    }
}

/// First position at or after `i` holding `b`.
pub open spec fn spec_find_byte(s: Seq<u8>, b: u8, i: int) -> Option<int>
    decreases s.len() - i
    when 0 <= i <= s.len()
{
    if i >= s.len() {
        Option::None
    } else if s[i] == b {
        Option::Some(i)
    } else {
        spec_find_byte(s, b, i + 1)
    }
}

/// Takes the first newline-delimited line out of the read buffer, leaving
/// the remainder in place.  Nothing is taken while no newline has
/// arrived: the rest of the buffer may still be an incomplete line.
pub fn take_line(buf: &mut Vec<u8>) -> (r: Option<Vec<u8>>)
    ensures
        match (r, spec_find_byte(old(buf)@, NEWLINE, 0)) {
            (Option::Some(line), Option::Some(k)) => line@ == old(buf)@.subrange(0, k)
                && final(buf)@ == old(buf)@.subrange(k + 1, old(buf)@.len() as int),
            (Option::None, Option::None) => final(buf)@ == old(buf)@,
            _ => false,
        },
{
    let mut k: usize = 0;
    while k < buf.len() && buf[k] != NEWLINE
        invariant
            k <= buf.len(),
            spec_find_byte(buf@, NEWLINE, 0) == spec_find_byte(buf@, NEWLINE, k as int),
        decreases buf@.len() - k,
    {
        k = k + 1;
    }
    if k >= buf.len() {
        return Option::None;
    }
    let line: Vec<u8> = copy_range(buf.as_slice(), 0, k);
    let rest: Vec<u8> = copy_range(buf.as_slice(), k + 1, buf.len());
    *buf = rest;
    Option::Some(line)
}

/// Wraps one parsed line with its provenance, as the streaming client
/// emits batches downstream.  A line that does not follow the grammar is
/// reported, never skipped: the consumer tears the stream down and
/// reconnects.
pub fn batch_from_line(line: &Vec<u8>, stream_id: &StreamId, received_at: u64) -> (r: Result<
    Batch,
    ClientError,
>)
    ensures
        match r {
            Result::Ok(b) => {
                &&& spec_parse_batch_line(line@) == Option::Some(b.line@)
                &&& b.stream_id@ == stream_id@
                &&& b.received_at == received_at
            },
            Result::Err(e) => {
                &&& spec_parse_batch_line(line@) is None
                &&& (e matches ClientError::UnparsableBatch(m) && m@ == line@)
            },
        },
{
    match parse_batch_line(line.as_slice()) {
        Option::Some(bl) => Result::Ok(
            Batch { line: bl, stream_id: stream_id.duplicate(), received_at },
        ),
        Option::None => Result::Err(ClientError::UnparsableBatch(bytes_copy(line))),
    }
}

} // verus!
