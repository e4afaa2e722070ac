//! Turning document text back into a JSON value.
//!
//! The spec functions define, position by position, what a parse of the
//! text yields: `None` for malformed text, otherwise the value and the
//! number of characters consumed.  The executable parser returns exactly
//! what the spec functions say.  Numbers are decimal with an optional
//! fraction; exponent notation and stray text after the document are
//! rejected.

use vstd::prelude::*;

use crate::json::Json;
use crate::json::JsonV;
use crate::json::elems_view;
use crate::json::fields_view;
use crate::json::elems_view_from;
use crate::json::lemma_elems_view_from;
use crate::json::fields_view_from;
use crate::json::lemma_fields_view_from;
use crate::num::NumV;
use crate::num::Number;
use crate::num::digit_val;
use crate::num::is_digit;

verus! {

/// The whitespace characters between tokens.
pub open spec fn is_ws(c: char) -> bool {
    c == ' ' || c == '\n' || c == '\t' || c == '\r'
}

/// How many whitespace characters stand at position `i`.
pub open spec fn skip_ws_n(s: Seq<char>, i: nat) -> nat
    decreases s.len() - i,
{
    if i >= s.len() {
        0
    } else if is_ws(s[i as int]) {
        1 + skip_ws_n(s, i + 1)
    } else {
        0
    }
}

/// Accumulate decimal digits from position `i` onto `acc`; the digit run
/// ends at the first non-digit.  `None` on overflow of `u64`.
pub open spec fn parse_digits(s: Seq<char>, i: nat, acc: u64) -> Option<(u64, nat)>
    decreases s.len() - i,
{
    if i >= s.len() || !is_digit(s[i as int]) {
        Some((acc, 0))
    } else {
        let d = digit_val(s[i as int]);
        if acc > (u64::MAX - d) / 10 {
            None
        } else {
            match parse_digits(s, i + 1, (acc * 10 + d) as u64) {
                None => None,
                Some((v, n)) => Some((v, (n + 1) as nat)),
            }
        }
    }
}

/// The run of fraction digits at position `i`, as values.
pub open spec fn parse_frac(s: Seq<char>, i: nat) -> (Seq<u8>, nat)
    decreases s.len() - i,
{
    if i >= s.len() || !is_digit(s[i as int]) {
        (Seq::empty(), 0)
    } else {
        let (rest, n) = parse_frac(s, i + 1);
        (seq![digit_val(s[i as int])] + rest, (n + 1) as nat)
    }
}

/// A number at position `i`: optional minus sign, integer part without a
/// leading zero, optional fraction.  Exponent notation is not supported.
pub open spec fn parse_number(s: Seq<char>, i: nat) -> Option<(NumV, nat)> {
    let neg = i < s.len() && s[i as int] == '-';
    let j: nat = if neg {
        i + 1
    } else {
        i
    };
    if j >= s.len() || !is_digit(s[j as int]) {
        None
    } else if s[j as int] == '0' && j + 1 < s.len() && is_digit(s[j as int + 1]) {
        None
    } else {
        match parse_digits(s, j, 0) {
            None => None,
            Some((w, nd)) => {
                let k = j + nd;
                if k < s.len() && s[k as int] == '.' {
                    let (f, nf) = parse_frac(s, k + 1);
                    if nf == 0 {
                        None
                    } else {
                        let e = k + 1 + nf;
                        if e < s.len() && (s[e as int] == 'e' || s[e as int] == 'E') {
                            None
                        } else {
                            Some((NumV { neg, whole: w, frac: f }, (e - i) as nat))
                        }
                    }
                } else if k < s.len() && (s[k as int] == 'e' || s[k as int] == 'E') {
                    None
                } else {
                    Some((NumV { neg, whole: w, frac: Seq::empty() }, (k - i) as nat))
                }
            },
        }
    }
}

/// Whether a character is a hexadecimal digit.
pub open spec fn is_hex(c: char) -> bool {
    is_digit(c) || (97 <= c as u32 && c as u32 <= 102) || (65 <= c as u32 && c as u32 <= 70)
}

/// The value of a hexadecimal digit character.
pub open spec fn hex_val(c: char) -> u8
    recommends
        is_hex(c),
{
    if is_digit(c) {
        digit_val(c)
    } else if 97 <= c as u32 && c as u32 <= 102 {
        ((c as u32) - 87) as u8
    } else {
        ((c as u32) - 55) as u8
    }
}

/// The character a short escape stands for.
pub open spec fn esc_short(e: char) -> Option<char> {
    if e == '"' {
        Some('"')
    } else if e == '\\' {
        Some('\\')
    } else if e == '/' {
        Some('/')
    } else if e == 'n' {
        Some('\n')
    } else if e == 't' {
        Some('\t')
    } else if e == 'r' {
        Some('\r')
    } else if e == 'b' {
        Some('\u{8}')
    } else if e == 'f' {
        Some('\u{c}')
    } else {
        None
    }
}

/// The body of a quoted string from position `i` (just after the opening
/// quote) up to and including the closing quote.  Escapes are decoded;
/// `\u` escapes are accepted for `\u00xx` only, which is all the renderer
/// ever writes; raw control characters are rejected.
pub open spec fn parse_str_body(s: Seq<char>, i: nat) -> Option<(Seq<char>, nat)>
    decreases s.len() - i,
{
    if i >= s.len() {
        None
    } else {
        let c = s[i as int];
        if c == '"' {
            Some((Seq::empty(), 1))
        } else if c == '\\' {
            if i + 1 >= s.len() {
                None
            } else {
                let e = s[i as int + 1];
                if e == 'u' {
                    if i + 6 > s.len() {
                        None
                    } else if s[i as int + 2] == '0' && s[i as int + 3] == '0' && is_hex(
                        s[i as int + 4],
                    ) && is_hex(s[i as int + 5]) {
                        let code = hex_val(s[i as int + 4]) * 16 + hex_val(s[i as int + 5]);
                        match parse_str_body(s, i + 6) {
                            None => None,
                            Some((t, n)) => Some((seq![(code as u8) as char] + t, (n + 6) as nat)),
                        }
                    } else {
                        None
                    }
                } else {
                    match esc_short(e) {
                        None => None,
                        Some(ch) => match parse_str_body(s, i + 2) {
                            None => None,
                            Some((t, n)) => Some((seq![ch] + t, (n + 2) as nat)),
                        },
                    }
                }
            }
        } else if (c as u32) < 0x20 {
            None
        } else {
            match parse_str_body(s, i + 1) {
                None => None,
                Some((t, n)) => Some((seq![c] + t, (n + 1) as nat)),
            }
        }
    }
}

/// A quoted string at position `i`, both quotes included in the count.
pub open spec fn parse_string(s: Seq<char>, i: nat) -> Option<(Seq<char>, nat)> {
    if i < s.len() && s[i as int] == '"' {
        match parse_str_body(s, i + 1) {
            None => None,
            Some((t, n)) => Some((t, (n + 1) as nat)),
        }
    } else {
        None
    }
}

/// A value at position `i`: a keyword, a number, a string, an array or an
/// object.  Leading whitespace is the caller's to skip.
pub open spec fn parse_value(s: Seq<char>, i: nat) -> Option<(JsonV, nat)>
    decreases s.len() - i, 0int,
{
    if i >= s.len() {
        None
    } else {
        let c = s[i as int];
        if c == 'n' {
            if i + 4 <= s.len() && s[i as int + 1] == 'u' && s[i as int + 2] == 'l' && s[i as int
                + 3] == 'l' {
                Some((JsonV::Null, 4))
            } else {
                None
            }
        } else if c == 't' {
            if i + 4 <= s.len() && s[i as int + 1] == 'r' && s[i as int + 2] == 'u' && s[i as int
                + 3] == 'e' {
                Some((JsonV::Bool(true), 4))
            } else {
                None
            }
        } else if c == 'f' {
            if i + 5 <= s.len() && s[i as int + 1] == 'a' && s[i as int + 2] == 'l' && s[i as int
                + 3] == 's' && s[i as int + 4] == 'e' {
                Some((JsonV::Bool(false), 5))
            } else {
                None
            }
        } else if c == '"' {
            match parse_string(s, i) {
                None => None,
                Some((t, n)) => Some((JsonV::Str(t), n)),
            }
        } else if c == '-' || is_digit(c) {
            match parse_number(s, i) {
                None => None,
                Some((v, n)) => Some((JsonV::Num(v), n)),
            }
        } else if c == '[' {
            let w = skip_ws_n(s, i + 1);
            let k: nat = i + 1 + w;
            if k < s.len() && s[k as int] == ']' {
                Some((JsonV::Arr(Seq::empty()), (k + 1 - i) as nat))
            } else if k < s.len() {
                match parse_elems(s, k) {
                    None => None,
                    Some((es, n)) => Some((JsonV::Arr(es), (k + n - i) as nat)),
                }
            } else {
                None
            }
        } else if c == '{' {
            let w = skip_ws_n(s, i + 1);
            let k: nat = i + 1 + w;
            if k < s.len() && s[k as int] == '}' {
                Some((JsonV::Obj(Seq::empty()), (k + 1 - i) as nat))
            } else if k < s.len() {
                match parse_members(s, k) {
                    None => None,
                    Some((fs, n)) => Some((JsonV::Obj(fs), (k + n - i) as nat)),
                }
            } else {
                None
            }
        } else {
            None
        }
    }
}

/// The elements of a nonempty array, from the first element at `i` up to
/// and including the closing bracket.
pub open spec fn parse_elems(s: Seq<char>, i: nat) -> Option<(Seq<JsonV>, nat)>
    decreases s.len() - i, 1int,
{
    match parse_value(s, i) {
        None => None,
        Some((v, nv)) => {
            let k: nat = i + nv + skip_ws_n(s, i + nv);
            if k >= s.len() {
                None
            } else if s[k as int] == ',' {
                let m: nat = k + 1 + skip_ws_n(s, k + 1);
                if m >= s.len() {
                    None
                } else {
                    match parse_elems(s, m) {
                        None => None,
                        Some((rest, nr)) => Some((seq![v] + rest, (m + nr - i) as nat)),
                    }
                }
            } else if s[k as int] == ']' {
                Some((seq![v], (k + 1 - i) as nat))
            } else {
                None
            }
        },
    }
}

/// The fields of a nonempty object, from the first name at `i` up to and
/// including the closing brace.
pub open spec fn parse_members(s: Seq<char>, i: nat) -> Option<(Seq<(Seq<char>, JsonV)>, nat)>
    decreases s.len() - i, 1int,
{
    match parse_string(s, i) {
        None => None,
        Some((name, ns)) => {
            let k: nat = i + ns + skip_ws_n(s, i + ns);
            if k >= s.len() || s[k as int] != ':' {
                None
            } else {
                let m: nat = k + 1 + skip_ws_n(s, k + 1);
                if m >= s.len() {
                    None
                } else {
                    match parse_value(s, m) {
                        None => None,
                        Some((v, nv)) => {
                            let k2: nat = m + nv + skip_ws_n(s, m + nv);
                            if k2 >= s.len() {
                                None
                            } else if s[k2 as int] == ',' {
                                let m2: nat = k2 + 1 + skip_ws_n(s, k2 + 1);
                                if m2 >= s.len() {
                                    None
                                } else {
                                    match parse_members(s, m2) {
                                        None => None,
                                        Some((rest, nr)) => Some(
                                            (seq![(name, v)] + rest, (m2 + nr - i) as nat),
                                        ),
                                    }
                                }
                            } else if s[k2 as int] == '}' {
                                Some((seq![(name, v)], (k2 + 1 - i) as nat))
                            } else {
                                None
                            }
                        },
                    }
                }
            }
        },
    }
}

/// A whole document: one value, surrounded by nothing but whitespace.
pub open spec fn parse_doc(s: Seq<char>) -> Option<JsonV> {
    let w = skip_ws_n(s, 0);
    match parse_value(s, w) {
        None => None,
        Some((v, n)) => {
            if w + n + skip_ws_n(s, w + n) == s.len() {
                Some(v)
            } else {
                None
            }
        },
    }
}

/// The characters of a string slice, one by one.
pub fn str_to_chars(s: &str) -> (v: Vec<char>)
    ensures
        v@ == s@,
{
    let n = s.unicode_len();
    let mut v: Vec<char> = Vec::new();
    let mut i: usize = 0;
    while i < n
        invariant
            n == s@.len(),
            i <= n,
            v@ == s@.subrange(0, i as int),
        decreases n - i,
    {
        v.push(s.get_char(i));
        proof {
            assert(v@ =~= s@.subrange(0, i + 1));
        }
        i = i + 1;
    }
    proof {
        assert(v@ =~= s@);
    }
    v
}

fn ex_skip_ws(s: &Vec<char>, i: usize) -> (r: usize)
    requires
        i <= s@.len(),
    ensures
        r == skip_ws_n(s@, i as nat),
        i + r <= s@.len(),
{
    let mut j = i;
    while j < s.len() && (s[j] == ' ' || s[j] == '\n' || s[j] == '\t' || s[j] == '\r')
        invariant
            i <= j <= s@.len(),
            skip_ws_n(s@, i as nat) == (j - i) + skip_ws_n(s@, j as nat),
        decreases s@.len() - j,
    {
        proof {
            assert(skip_ws_n(s@, j as nat) == 1 + skip_ws_n(s@, j as nat + 1));
        }
        j = j + 1;
    }
    proof {
        assert(skip_ws_n(s@, j as nat) == 0);
    }
    j - i
}

fn ex_parse_digits(s: &Vec<char>, i: usize, acc: u64) -> (r: Option<(u64, usize)>)
    requires
        i <= s@.len(),
    ensures
        r is Some <==> parse_digits(s@, i as nat, acc) is Some,
        r is Some ==> {
            let (v, n) = r->0;
            let (sv, sn) = parse_digits(s@, i as nat, acc)->0;
            v == sv && n as nat == sn && i + n <= s@.len()
        },
    decreases s@.len() - i,
{
    if i >= s.len() || !is_digit_ch(s[i]) {
        Some((acc, 0))
    } else {
        let d = (s[i] as u32 - 48) as u64;
        proof {
            assert(d == digit_val(s@[i as int]));
        }
        if acc > (u64::MAX - d) / 10 {
            None
        } else {
            proof {
                assert(acc * 10 + d <= u64::MAX) by (nonlinear_arith)
                    requires
                        acc <= (u64::MAX - d) / 10,
                        d <= 9,
                ;
            }
            match ex_parse_digits(s, i + 1, acc * 10 + d) {
                None => None,
                Some((v, n)) => Some((v, n + 1)),
            }
        }
    }
}

fn ex_parse_frac(s: &Vec<char>, i: usize) -> (r: (Vec<u8>, usize))
    requires
        i <= s@.len(),
    ensures
        r.0@ == parse_frac(s@, i as nat).0,
        r.1 as nat == parse_frac(s@, i as nat).1,
        i + r.1 <= s@.len(),
{
    let mut out: Vec<u8> = Vec::new();
    let mut j = i;
    while j < s.len() && is_digit_ch(s[j])
        invariant
            i <= j <= s@.len(),
            parse_frac(s@, i as nat).0 == out@ + parse_frac(s@, j as nat).0,
            parse_frac(s@, i as nat).1 == (j - i) + parse_frac(s@, j as nat).1,
        decreases s@.len() - j,
    {
        proof {
            assert(is_digit(s@[j as int]));
            assert(parse_frac(s@, j as nat).0 == seq![digit_val(s@[j as int])] + parse_frac(
                s@,
                j as nat + 1,
            ).0);
            assert(out@ + parse_frac(s@, j as nat).0 =~= out@.push(digit_val(s@[j as int]))
                + parse_frac(s@, j as nat + 1).0);
        }
        out.push((s[j] as u32 - 48) as u8);
        j = j + 1;
    }
    proof {
        assert(parse_frac(s@, j as nat).0 == Seq::<u8>::empty());
        assert(out@ + Seq::<u8>::empty() =~= out@);
    }
    (out, j - i)
}

fn ex_parse_number(s: &Vec<char>, i: usize) -> (r: Option<(Number, usize)>)
    requires
        i <= s@.len(),
    ensures
        r is Some <==> parse_number(s@, i as nat) is Some,
        r is Some ==> {
            let (v, n) = r->0;
            let (sv, sn) = parse_number(s@, i as nat)->0;
            v@ == sv && n as nat == sn && i + n <= s@.len()
        },
{
    proof {
        assert(s@.len() == s.len());
    }
    let neg = i < s.len() && s[i] == '-';
    let j = if neg {
        i + 1
    } else {
        i
    };
    if j >= s.len() || !is_digit_ch(s[j]) {
        None
    } else if s[j] == '0' && j + 1 < s.len() && is_digit_ch(s[j + 1]) {
        None
    } else {
        match ex_parse_digits(s, j, 0) {
            None => None,
            Some((w, nd)) => {
                let k = j + nd;
                if k < s.len() && s[k] == '.' {
                    let (f, nf) = ex_parse_frac(s, k + 1);
                    if nf == 0 {
                        None
                    } else {
                        let e = k + 1 + nf;
                        if e < s.len() && (s[e] == 'e' || s[e] == 'E') {
                            None
                        } else {
                            Some((Number { neg, whole: w, frac: f }, e - i))
                        }
                    }
                } else if k < s.len() && (s[k] == 'e' || s[k] == 'E') {
                    None
                } else {
                    Some((Number { neg, whole: w, frac: Vec::new() }, k - i))
                }
            },
        }
    }
}

fn is_digit_ch(c: char) -> (r: bool)
    ensures
        r == is_digit(c),
{
    let u = c as u32;
    u >= 48 && u <= 57
}

fn hex_v(c: char) -> (r: u8)
    requires
        is_hex(c),
    ensures
        r == hex_val(c),
{
    let u = c as u32;
    if u >= 48 && u <= 57 {
        (u - 48) as u8
    } else if u >= 97 && u <= 102 {
        (u - 87) as u8
    } else {
        (u - 55) as u8
    }
}

fn ex_parse_str_body(s: &Vec<char>, i: usize) -> (r: Option<(String, usize)>)
    requires
        i <= s@.len(),
    ensures
        r is Some <==> parse_str_body(s@, i as nat) is Some,
        r is Some ==> {
            let (t, n) = r->0;
            let (st, sn) = parse_str_body(s@, i as nat)->0;
            t@ == st && n as nat == sn && i + n <= s@.len()
        },
{
    let mut out = String::new();
    let mut j = i;
    loop
        invariant
            i <= j <= s@.len(),
            parse_str_body(s@, i as nat) == (match parse_str_body(s@, j as nat) {
                Some((t, n)) => Some::<(Seq<char>, nat)>((out@ + t, ((j - i) + n) as nat)),
                None => None::<(Seq<char>, nat)>,
            }),
        decreases s@.len() - j,
    {
        if j >= s.len() {
            return None;
        }
        let c = s[j];
        if c == '"' {
            proof {
                assert(parse_str_body(s@, j as nat) == Some((Seq::<char>::empty(), 1nat)));
                assert(out@ + Seq::<char>::empty() =~= out@);
            }
            return Some((out, j + 1 - i));
        } else if c == '\\' {
            if j + 1 >= s.len() {
                return None;
            }
            let e = s[j + 1];
            if e == 'u' {
                if s.len() - j < 6 {
                    proof {
                        assert(parse_str_body(s@, j as nat) is None);
                    }
                    return None;
                }
                if s[j + 2] == '0' && s[j + 3] == '0' && is_hex_ch(s[j + 4]) && is_hex_ch(
                    s[j + 5],
                ) {
                    let code = hex_v(s[j + 4]) * 16 + hex_v(s[j + 5]);
                    let ghost old_out = out@;
                    crate::render::push_char(&mut out, code as char);
                    proof {
                        let (t, n) = parse_str_body(s@, j as nat + 6)->0;
                        if parse_str_body(s@, j as nat + 6) is Some {
                            assert(old_out + (seq![(code as u8) as char] + t) =~= out@ + t);
                        }
                    }
                    j = j + 6;
                } else {
                    return None;
                }
            } else {
                match esc_short_ch(e) {
                    None => {
                        return None;
                    },
                    Some(ch) => {
                        let ghost old_out = out@;
                        crate::render::push_char(&mut out, ch);
                        proof {
                            let (t, n) = parse_str_body(s@, j as nat + 2)->0;
                            if parse_str_body(s@, j as nat + 2) is Some {
                                assert(old_out + (seq![ch] + t) =~= out@ + t);
                            }
                        }
                        j = j + 2;
                    },
                }
            }
        } else if (c as u32) < 0x20 {
            return None;
        } else {
            let ghost old_out = out@;
            crate::render::push_char(&mut out, c);
            proof {
                let (t, n) = parse_str_body(s@, j as nat + 1)->0;
                if parse_str_body(s@, j as nat + 1) is Some {
                    assert(old_out + (seq![c] + t) =~= out@ + t);
                }
            }
            j = j + 1;
        }
    }
}

fn is_hex_ch(c: char) -> (r: bool)
    ensures
        r == is_hex(c),
{
    let u = c as u32;
    (u >= 48 && u <= 57) || (u >= 97 && u <= 102) || (u >= 65 && u <= 70)
}

fn esc_short_ch(e: char) -> (r: Option<char>)
    ensures
        r == esc_short(e),
{
    if e == '"' {
        Some('"')
    } else if e == '\\' {
        Some('\\')
    } else if e == '/' {
        Some('/')
    } else if e == 'n' {
        Some('\n')
    } else if e == 't' {
        Some('\t')
    } else if e == 'r' {
        Some('\r')
    } else if e == 'b' {
        Some('\u{8}')
    } else if e == 'f' {
        Some('\u{c}')
    } else {
        None
    }
}

fn ex_parse_string(s: &Vec<char>, i: usize) -> (r: Option<(String, usize)>)
    requires
        i <= s@.len(),
    ensures
        r is Some <==> parse_string(s@, i as nat) is Some,
        r is Some ==> {
            let (t, n) = r->0;
            let (st, sn) = parse_string(s@, i as nat)->0;
            t@ == st && n as nat == sn && i + n <= s@.len()
        },
{
    if i < s.len() && s[i] == '"' {
        match ex_parse_str_body(s, i + 1) {
            None => None,
            Some((t, n)) => Some((t, n + 1)),
        }
    } else {
        None
    }
}

fn ex_parse_value(s: &Vec<char>, i: usize) -> (r: Option<(Json, usize)>)
    requires
        i <= s@.len(),
    ensures
        r is Some <==> parse_value(s@, i as nat) is Some,
        r is Some ==> {
            let (v, n) = r->0;
            let (sv, sn) = parse_value(s@, i as nat)->0;
            v@ == sv && n as nat == sn && i + n <= s@.len()
        },
    decreases s@.len() - i, 0int,
{
    proof {
        assert(s@.len() == s.len());
    }
    if i >= s.len() {
        return None;
    }
    let c = s[i];
    if c == 'n' {
        if s.len() - i >= 4 && s[i + 1] == 'u' && s[i + 2] == 'l' && s[i + 3] == 'l' {
            Some((Json::Null, 4))
        } else {
            None
        }
    } else if c == 't' {
        if s.len() - i >= 4 && s[i + 1] == 'r' && s[i + 2] == 'u' && s[i + 3] == 'e' {
            Some((Json::Bool(true), 4))
        } else {
            None
        }
    } else if c == 'f' {
        if s.len() - i >= 5 && s[i + 1] == 'a' && s[i + 2] == 'l' && s[i + 3] == 's' && s[i + 4]
            == 'e' {
            Some((Json::Bool(false), 5))
        } else {
            None
        }
    } else if c == '"' {
        match ex_parse_string(s, i) {
            None => None,
            Some((t, n)) => Some((Json::Str(t), n)),
        }
    } else if c == '-' || is_digit_ch(c) {
        match ex_parse_number(s, i) {
            None => None,
            Some((v, n)) => Some((Json::Num(v), n)),
        }
    } else if c == '[' {
        let w = ex_skip_ws(s, i + 1);
        let k = i + 1 + w;
        if k < s.len() && s[k] == ']' {
            let es: Vec<Json> = Vec::new();
            proof {
                assert(elems_view(es@) =~= Seq::<JsonV>::empty());
            }
            Some((Json::Arr(es), k + 1 - i))
        } else if k < s.len() {
            match ex_parse_elems(s, k) {
                None => None,
                Some((es, n)) => Some((Json::Arr(es), k + n - i)),
            }
        } else {
            None
        }
    } else if c == '{' {
        let w = ex_skip_ws(s, i + 1);
        let k = i + 1 + w;
        if k < s.len() && s[k] == '}' {
            let fs: Vec<(String, Json)> = Vec::new();
            proof {
                assert(fields_view(fs@) =~= Seq::<(Seq<char>, JsonV)>::empty());
            }
            Some((Json::Obj(fs), k + 1 - i))
        } else if k < s.len() {
            match ex_parse_members(s, k) {
                None => None,
                Some((fs, n)) => Some((Json::Obj(fs), k + n - i)),
            }
        } else {
            None
        }
    } else {
        None
    }
}

fn ex_parse_elems(s: &Vec<char>, i: usize) -> (r: Option<(Vec<Json>, usize)>)
    requires
        i <= s@.len(),
    ensures
        r is Some <==> parse_elems(s@, i as nat) is Some,
        r is Some ==> {
            let (es, n) = r->0;
            let (ses, sn) = parse_elems(s@, i as nat)->0;
            elems_view(es@) == ses && n as nat == sn && i + n <= s@.len()
        },
    decreases s@.len() - i, 1int,
{
    proof {
        assert(s@.len() == s.len());
    }
    match ex_parse_value(s, i) {
        None => None,
        Some((v, nv)) => {
            let w = ex_skip_ws(s, i + nv);
            let k = i + nv + w;
            if k >= s.len() {
                None
            } else if s[k] == ',' {
                let w2 = ex_skip_ws(s, k + 1);
                let m = k + 1 + w2;
                if m >= s.len() {
                    None
                } else {
                    match ex_parse_elems(s, m) {
                        None => None,
                        Some((rest, nr)) => {
                            let mut rest = rest;
                            let ghost tail = rest@;
                            rest.insert(0, v);
                            proof {
                                lemma_elems_view_insert0(tail, rest@[0]);
                            }
                            Some((rest, m + nr - i))
                        },
                    }
                }
            } else if s[k] == ']' {
                let mut es: Vec<Json> = Vec::new();
                es.push(v);
                proof {
                    lemma_elems_view_from(es@, 0);
                    assert(elems_view(es@) =~= seq![es@[0]@]);
                }
                Some((es, k + 1 - i))
            } else {
                None
            }
        },
    }
}

fn ex_parse_members(s: &Vec<char>, i: usize) -> (r: Option<(Vec<(String, Json)>, usize)>)
    requires
        i <= s@.len(),
    ensures
        r is Some <==> parse_members(s@, i as nat) is Some,
        r is Some ==> {
            let (fs, n) = r->0;
            let (sfs, sn) = parse_members(s@, i as nat)->0;
            fields_view(fs@) == sfs && n as nat == sn && i + n <= s@.len()
        },
    decreases s@.len() - i, 1int,
{
    proof {
        assert(s@.len() == s.len());
    }
    match ex_parse_string(s, i) {
        None => None,
        Some((name, ns)) => {
            let w = ex_skip_ws(s, i + ns);
            let k = i + ns + w;
            if k >= s.len() || !(s[k] == ':') {
                None
            } else {
                let w2 = ex_skip_ws(s, k + 1);
                let m = k + 1 + w2;
                if m >= s.len() {
                    None
                } else {
                    match ex_parse_value(s, m) {
                        None => None,
                        Some((v, nv)) => {
                            let w3 = ex_skip_ws(s, m + nv);
                            let k2 = m + nv + w3;
                            if k2 >= s.len() {
                                None
                            } else if s[k2] == ',' {
                                let w4 = ex_skip_ws(s, k2 + 1);
                                let m2 = k2 + 1 + w4;
                                if m2 >= s.len() {
                                    None
                                } else {
                                    match ex_parse_members(s, m2) {
                                        None => None,
                                        Some((rest, nr)) => {
                                            let mut rest = rest;
                                            let ghost tail = rest@;
                                            rest.insert(0, (name, v));
                                            proof {
                                                lemma_fields_view_insert0(tail, rest@[0]);
                                            }
                                            Some((rest, m2 + nr - i))
                                        },
                                    }
                                }
                            } else if s[k2] == '}' {
                                let mut fs: Vec<(String, Json)> = Vec::new();
                                fs.push((name, v));
                                proof {
                                    lemma_fields_view_from(fs@, 0);
                                    assert(fields_view(fs@) =~= seq![(fs@[0].0@, fs@[0].1@)]);
                                }
                                Some((fs, k2 + 1 - i))
                            } else {
                                None
                            }
                        },
                    }
                }
            }
        },
    }
}

/// Putting an element in front prepends its view.
proof fn lemma_elems_view_insert0(tail: Seq<Json>, v: Json)
    ensures
        elems_view(tail.insert(0, v)) == seq![v@] + elems_view(tail),
{
    let es = tail.insert(0, v);
    lemma_elems_view_from(es, 0);
    lemma_elems_view_from(tail, 0);
    assert forall|i: int| 0 <= i < es.len() implies elems_view(es)[i] == (seq![v@] + elems_view(
        tail,
    ))[i] by {
        assert(elems_view_from(es, 0)[i - 0] == es[i]@);
        if i > 0 {
            assert(es[i] == tail[i - 1]);
            assert(elems_view_from(tail, 0)[i - 1] == tail[i - 1]@);
        }
    }
    assert(elems_view(es) =~= seq![v@] + elems_view(tail));
}

/// Putting a field in front prepends its view.
proof fn lemma_fields_view_insert0(tail: Seq<(String, Json)>, p: (String, Json))
    ensures
        fields_view(tail.insert(0, p)) == seq![(p.0@, p.1@)] + fields_view(tail),
{
    let fs = tail.insert(0, p);
    lemma_fields_view_from(fs, 0);
    lemma_fields_view_from(tail, 0);
    assert forall|i: int| 0 <= i < fs.len() implies fields_view(fs)[i] == (seq![(p.0@, p.1@)]
        + fields_view(tail))[i] by {
        assert(fields_view_from(fs, 0)[i - 0] == (fs[i].0@, fs[i].1@));
        if i > 0 {
            assert(fs[i] == tail[i - 1]);
            assert(fields_view_from(tail, 0)[i - 1] == (tail[i - 1].0@, tail[i - 1].1@));
        }
    }
    assert(fields_view(fs) =~= seq![(p.0@, p.1@)] + fields_view(tail));
}

/// Parse a whole document.
pub fn parse_json(s: &str) -> (r: Option<Json>)
    ensures
        r is Some <==> parse_doc(s@) is Some,
        r is Some ==> r->0@ == parse_doc(s@)->0,
{
    let chars = str_to_chars(s);
    let w = ex_skip_ws(&chars, 0);
    match ex_parse_value(&chars, w) {
        None => None,
        Some((v, n)) => {
            let w2 = ex_skip_ws(&chars, w + n);
            if w + n + w2 == chars.len() {
                Some(v)
            } else {
                None
            }
        },
    }
}

} // verus!
