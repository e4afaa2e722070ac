//! The parser reads back exactly what the renderer wrote.
//!
//! The proofs walk the rendered text piece by piece: a `region` places a
//! piece of text at a position of the document, and each lemma shows that
//! the parse of a region yields the value the renderer started from.

use vstd::prelude::*;

use crate::json::JsonV;
use crate::json::json_wf;
use crate::json::lemma_json_wf_arr;
use crate::json::lemma_json_wf_obj;
use crate::num::NumV;
use crate::num::dec_str;
use crate::num::digit_char;
use crate::num::digit_val;
use crate::num::is_digit;
use crate::num::lemma_dec_str_shape;
use crate::num::lemma_digit_char_val;
use crate::num::num_wf;
use crate::parse::esc_short;
use crate::parse::hex_val;
use crate::parse::is_hex;
use crate::parse::is_ws;
use crate::parse::parse_digits;
use crate::parse::parse_doc;
use crate::parse::parse_elems;
use crate::parse::parse_frac;
use crate::parse::parse_members;
use crate::parse::parse_number;
use crate::parse::parse_str_body;
use crate::parse::parse_string;
use crate::parse::parse_value;
use crate::parse::skip_ws_n;
use crate::render::arr_body;
use crate::render::doc_text;
use crate::render::esc_char;
use crate::render::frac_digits_text;
use crate::render::hex_char;
use crate::render::jtext;
use crate::render::next_ind;
use crate::render::num_text;
use crate::render::obj_body;
use crate::render::spaces;
use crate::render::str_text;
use crate::render::str_text_body;

verus! {

/// The text `t` stands at position `i` of `s`.
pub open spec fn region(s: Seq<char>, i: nat, t: Seq<char>) -> bool {
    i + t.len() <= s.len() && s.subrange(i as int, (i + t.len()) as int) == t
}

/// A region gives the characters under it.
proof fn lemma_region_index(s: Seq<char>, i: nat, t: Seq<char>, k: int)
    requires
        region(s, i, t),
        0 <= k < t.len(),
    ensures
        s[i + k] == t[k],
{
    assert(s.subrange(i as int, (i + t.len()) as int)[k] == s[i + k]);
}

/// A region of a concatenation splits into two regions.
proof fn lemma_region_split(s: Seq<char>, i: nat, t1: Seq<char>, t2: Seq<char>)
    requires
        region(s, i, t1 + t2),
    ensures
        region(s, i, t1),
        region(s, (i + t1.len()) as nat, t2),
{
    let l1 = t1.len() as int;
    let l2 = t2.len() as int;
    let whole = s.subrange(i as int, i + l1 + l2);
    assert(whole == t1 + t2);
    assert forall|k: int| 0 <= k < l1 implies s.subrange(i as int, i + l1)[k] == t1[k] by {
        assert(whole[k] == s[i + k]);
        assert((t1 + t2)[k] == t1[k]);
    }
    assert(s.subrange(i as int, i + l1) =~= t1);
    assert forall|k: int| 0 <= k < l2 implies s.subrange(i + l1, i + l1 + l2)[k] == t2[k] by {
        assert(whole[l1 + k] == s[i + l1 + k]);
        assert((t1 + t2)[l1 + k] == t2[k]);
    }
    assert(s.subrange(i + l1, i + l1 + l2) =~= t2);
}

/// Whitespace ends where a run of whitespace characters ends.
proof fn lemma_skip_ws_exact(s: Seq<char>, i: nat, m: nat)
    requires
        i + m <= s.len(),
        forall|k: int| i <= k < i + m ==> is_ws(#[trigger] s[k]),
        i + m == s.len() || !is_ws(s[(i + m) as int]),
    ensures
        skip_ws_n(s, i) == m,
    decreases m,
{
    if m == 0 {
    } else {
        assert(is_ws(s[i as int]));
        lemma_skip_ws_exact(s, i + 1, (m - 1) as nat);
    }
}

/// Spaces are spaces.
proof fn lemma_spaces(n: nat)
    ensures
        spaces(n).len() == n,
        forall|k: int| 0 <= k < n ==> spaces(n)[k] == ' ',
    decreases n,
{
    if n > 0 {
        lemma_spaces((n - 1) as nat);
        assert(spaces(n) == spaces((n - 1) as nat).push(' '));
    }
}

/// Digit accumulation stays within `u64`.
spec fn digits_ok(acc: int, t: Seq<char>) -> bool
    decreases t.len(),
{
    if t.len() == 0 {
        true
    } else {
        let v = acc * 10 + digit_val(t[0]);
        v <= u64::MAX && digits_ok(v, t.drop_first())
    }
}

/// The value of a digit run folded onto `acc`.
spec fn digits_fold(acc: int, t: Seq<char>) -> int
    decreases t.len(),
{
    if t.len() == 0 {
        acc
    } else {
        digits_fold(acc * 10 + digit_val(t[0]), t.drop_first())
    }
}

/// Folding one more digit onto the end.
proof fn lemma_fold_push(acc: int, t: Seq<char>, c: char)
    ensures
        digits_fold(acc, t.push(c)) == digits_fold(acc, t) * 10 + digit_val(c),
        digits_ok(acc, t.push(c)) == (digits_ok(acc, t) && digits_fold(acc, t) * 10 + digit_val(c)
            <= u64::MAX),
    decreases t.len(),
{
    if t.len() == 0 {
        assert(t.push(c)[0] == c);
        assert(t.push(c).drop_first() =~= t);
        assert(digits_fold(acc, t.push(c)) == digits_fold(acc * 10 + digit_val(c), t));
        assert(digits_ok(acc, t.push(c)) == (acc * 10 + digit_val(c) <= u64::MAX && digits_ok(
            acc * 10 + digit_val(c),
            t,
        )));
        assert(digits_ok(acc * 10 + digit_val(c), t));
        assert(digits_fold(acc, t) == acc);
        assert(digits_ok(acc, t));
    } else {
        assert(t.push(c)[0] == t[0]);
        assert(t.push(c).drop_first() =~= t.drop_first().push(c));
        let v = acc * 10 + digit_val(t[0]);
        lemma_fold_push(v, t.drop_first(), c);
        assert(digits_fold(acc, t.push(c)) == digits_fold(v, t.drop_first().push(c)));
        assert(digits_fold(acc, t) == digits_fold(v, t.drop_first()));
        assert(digits_ok(acc, t.push(c)) == (v <= u64::MAX && digits_ok(v, t.drop_first().push(
            c,
        ))));
        assert(digits_ok(acc, t) == (v <= u64::MAX && digits_ok(v, t.drop_first())));
    }
}

/// Decimal notation folds back to the number it was made from.
proof fn lemma_dec_str_fold(w: u64)
    ensures
        digits_ok(0, dec_str(w)),
        digits_fold(0, dec_str(w)) == w,
    decreases w,
{
    if w < 10 {
        lemma_digit_char_val(w as u8);
        assert(dec_str(w) =~= Seq::<char>::empty().push(digit_char(w as u8)));
        lemma_fold_push(0, Seq::empty(), digit_char(w as u8));
    } else {
        lemma_dec_str_fold(w / 10);
        lemma_digit_char_val((w % 10) as u8);
        lemma_fold_push(0, dec_str(w / 10), digit_char((w % 10) as u8));
    }
}

/// Parsing a region of digits folds them, or fails exactly on overflow.
proof fn lemma_parse_digits_run(s: Seq<char>, i: nat, t: Seq<char>, acc: u64)
    requires
        region(s, i, t),
        forall|k: int| 0 <= k < t.len() ==> is_digit(#[trigger] t[k]),
        i + t.len() == s.len() || !is_digit(s[(i + t.len()) as int]),
    ensures
        parse_digits(s, i, acc) == (if digits_ok(acc as int, t) {
            Some((digits_fold(acc as int, t) as u64, t.len() as nat))
        } else {
            None::<(u64, nat)>
        }),
    decreases t.len(),
{
    if t.len() == 0 {
    } else {
        lemma_region_index(s, i, t, 0);
        assert(is_digit(s[i as int]));
        let d = digit_val(s[i as int]);
        assert(d == digit_val(t[0]));
        assert(d <= 9) by {
            assert(is_digit(t[0]));
        }
        assert((acc > (u64::MAX - d) / 10) == (acc * 10 + d > u64::MAX)) by (nonlinear_arith)
            requires
                d <= 9,
        ;
        if acc > (u64::MAX - d) / 10 {
            assert(!digits_ok(acc as int, t));
        } else {
            let v = (acc * 10 + d) as u64;
            assert(t =~= seq![t[0]] + t.drop_first());
            lemma_region_split(s, i, seq![t[0]], t.drop_first());
            lemma_parse_digits_run(s, i + 1, t.drop_first(), v);
        }
    }
}

/// The position after a rendered number must not continue it.
pub open spec fn num_term(s: Seq<char>, p: nat) -> bool {
    p >= s.len() || (!is_digit(s[p as int]) && s[p as int] != '.' && s[p as int] != 'e' && s[
        p as int
    ] != 'E')
}

/// The fraction text has one character per digit.
proof fn lemma_frac_digits_len(f: Seq<u8>, k: int)
    requires
        0 <= k <= f.len(),
    ensures
        frac_digits_text(f, k).len() == f.len() - k,
    decreases f.len() - k,
{
    if k < f.len() {
        lemma_frac_digits_len(f, k + 1);
        assert(frac_digits_text(f, k) == seq![digit_char(f[k])] + frac_digits_text(f, k + 1));
    } else {
        assert(frac_digits_text(f, k) == Seq::<char>::empty());
    }
}

/// Parsing a region of rendered fraction digits gives the digits back.
proof fn lemma_parse_frac_run(s: Seq<char>, i: nat, f: Seq<u8>, k: int)
    requires
        forall|x: int| 0 <= x < f.len() ==> f[x] < 10,
        0 <= k <= f.len(),
        region(s, i, frac_digits_text(f, k)),
        i + frac_digits_text(f, k).len() == s.len() || !is_digit(
            s[(i + frac_digits_text(f, k).len()) as int],
        ),
    ensures
        parse_frac(s, i) == (f.subrange(k, f.len() as int), (f.len() - k) as nat),
    decreases f.len() - k,
{
    if k == f.len() {
        assert(frac_digits_text(f, k) == Seq::<char>::empty());
        assert(f.subrange(k, f.len() as int) =~= Seq::<u8>::empty());
    } else {
        let t = frac_digits_text(f, k);
        assert(t == seq![digit_char(f[k])] + frac_digits_text(f, k + 1));
        lemma_digit_char_val(f[k]);
        lemma_region_index(s, i, t, 0);
        assert(s[i as int] == digit_char(f[k]));
        lemma_region_split(s, i, seq![digit_char(f[k])], frac_digits_text(f, k + 1));
        lemma_parse_frac_run(s, i + 1, f, k + 1);
        assert(parse_frac(s, i).0 =~= f.subrange(k, f.len() as int));
    }
}

/// Parsing a region of rendered number text gives the number back.
proof fn lemma_parse_number_render(s: Seq<char>, i: nat, n: NumV)
    requires
        num_wf(n),
        region(s, i, num_text(n)),
        num_term(s, (i + num_text(n).len()) as nat),
    ensures
        parse_number(s, i) == Some((n, num_text(n).len() as nat)),
{
    let t = num_text(n);
    let sign: Seq<char> = if n.neg {
        seq!['-']
    } else {
        Seq::empty()
    };
    let fracpart: Seq<char> = if n.frac.len() == 0 {
        Seq::empty()
    } else {
        seq!['.'] + frac_digits_text(n.frac, 0)
    };
    let w = dec_str(n.whole);
    lemma_dec_str_shape(n.whole);
    assert(t =~= sign + (w + fracpart));
    lemma_region_split(s, i, sign, w + fracpart);
    let j: nat = (i + sign.len()) as nat;
    lemma_region_split(s, j, w, fracpart);
    let k: nat = (j + w.len()) as nat;
    if n.neg {
        lemma_region_index(s, i, sign, 0);
        assert(s[i as int] == '-');
    } else {
        if i < s.len() {
            lemma_region_index(s, j, w, 0);
            assert(s[i as int] == w[0]);
            assert(is_digit(w[0]));
            assert(s[i as int] != '-');
        }
    }
    lemma_region_index(s, j, w, 0);
    assert(is_digit(s[j as int]));
    // no leading zero: if the first digit is zero, the integer part is just "0"
    if s[j as int] == '0' && j + 1 < s.len() && is_digit(s[j as int + 1]) {
        assert(w[0] == '0');
        assert(n.whole == 0) by {
            if n.whole >= 1 {
                assert(w[0] != '0');
            }
        }
        assert(w =~= seq![digit_char(0)]);
        assert(k == j + 1);
        // the character after the integer part is '.' or a terminator
        if n.frac.len() == 0 {
            assert(num_term(s, k));
            assert(!is_digit(s[k as int]));
        } else {
            lemma_region_index(s, k, fracpart, 0);
            assert(s[k as int] == '.');
            assert(!is_digit('.'));
        }
        assert(false);
    }
    // the digit run is exactly the rendered digits
    assert(forall|x: int| 0 <= x < w.len() ==> is_digit(#[trigger] w[x]));
    assert(j + w.len() == s.len() || !is_digit(s[(j + w.len()) as int])) by {
        if k < s.len() {
            if n.frac.len() == 0 {
                assert(num_term(s, k));
            } else {
                lemma_region_index(s, k, fracpart, 0);
                assert(s[k as int] == '.');
            }
        }
    }
    lemma_parse_digits_run(s, j, w, 0);
    lemma_dec_str_fold(n.whole);
    assert(parse_digits(s, j, 0) == Some((n.whole, w.len() as nat)));
    if n.frac.len() == 0 {
        assert(k == i + t.len());
        assert(num_term(s, k));
        if k < s.len() {
            assert(s[k as int] != '.');
            assert(s[k as int] != 'e');
            assert(s[k as int] != 'E');
        }
        assert(parse_number(s, i) == Some(
            (NumV { neg: n.neg, whole: n.whole, frac: Seq::empty() }, (k - i) as nat),
        ));
        assert(NumV { neg: n.neg, whole: n.whole, frac: Seq::empty() } =~= n);
    } else {
        lemma_region_index(s, k, fracpart, 0);
        assert(s[k as int] == '.');
        assert(fracpart =~= seq!['.'] + frac_digits_text(n.frac, 0));
        lemma_region_split(s, k, seq!['.'], frac_digits_text(n.frac, 0));
        lemma_frac_digits_len(n.frac, 0);
        let fstart: nat = (k + 1) as nat;
        assert(fstart + frac_digits_text(n.frac, 0).len() == i + t.len());
        assert(fstart + frac_digits_text(n.frac, 0).len() == s.len() || !is_digit(
            s[(fstart + frac_digits_text(n.frac, 0).len()) as int],
        )) by {
            assert(num_term(s, (i + t.len()) as nat));
        }
        lemma_parse_frac_run(s, fstart, n.frac, 0);
        assert(parse_frac(s, fstart).0 =~= n.frac);
        let nf = parse_frac(s, fstart).1;
        assert(nf == n.frac.len());
        assert(nf != 0);
        let e: nat = (fstart + nf) as nat;
        assert(e == i + t.len());
        if e < s.len() {
            assert(s[e as int] != 'e' && s[e as int] != 'E');
        }
        assert(parse_number(s, i) == Some(
            (NumV { neg: n.neg, whole: n.whole, frac: n.frac }, (e - i) as nat),
        ));
        assert(NumV { neg: n.neg, whole: n.whole, frac: n.frac } =~= n);
    }
}

/// A hexadecimal digit character carries its value back.
proof fn lemma_hex_char_val(d: u8)
    requires
        d < 16,
    ensures
        is_hex(hex_char(d)),
        hex_val(hex_char(d)) == d,
{
    if d < 10 {
        lemma_digit_char_val(d);
    }
}

/// Parsing a region of escaped string text gives the characters back.
proof fn lemma_parse_str_body_render(s: Seq<char>, i: nat, t: Seq<char>, k: int)
    requires
        0 <= k <= t.len(),
        region(s, i, str_text_body(t, k) + seq!['"']),
    ensures
        parse_str_body(s, i) == Some(
            (t.subrange(k, t.len() as int), (str_text_body(t, k).len() + 1) as nat),
        ),
    decreases t.len() - k,
{
    if k == t.len() {
        assert(str_text_body(t, k) == Seq::<char>::empty());
        lemma_region_index(s, i, str_text_body(t, k) + seq!['"'], 0);
        assert(s[i as int] == '"');
        assert(t.subrange(k, t.len() as int) =~= Seq::<char>::empty());
    } else {
        let c = t[k];
        let e = esc_char(c);
        assert(str_text_body(t, k) == e + str_text_body(t, k + 1));
        assert((e + str_text_body(t, k + 1)) + seq!['"'] =~= e + (str_text_body(t, k + 1)
            + seq!['"']));
        lemma_region_split(s, i, e, str_text_body(t, k + 1) + seq!['"']);
        let i2: nat = (i + e.len()) as nat;
        lemma_parse_str_body_render(s, i2, t, k + 1);
        assert(seq![c] + t.subrange(k + 1, t.len() as int) =~= t.subrange(k, t.len() as int));
        if c == '"' {
            assert(e =~= seq!['\\', '"']);
            lemma_region_index(s, i, e, 0);
            lemma_region_index(s, i, e, 1);
            assert(s[i as int] == '\\');
            assert(s[i as int + 1] == '"');
            assert(esc_short('"') == Some('"'));
        } else if c == '\\' {
            lemma_region_index(s, i, e, 0);
            lemma_region_index(s, i, e, 1);
            assert(esc_short('\\') == Some('\\'));
        } else if (c as u32) < 0x20 {
            let code = c as u32;
            let hi = (code / 16) as u8;
            let lo = (code % 16) as u8;
            assert(e =~= seq!['\\', 'u', '0', '0', hex_char(hi), hex_char(lo)]);
            lemma_region_index(s, i, e, 0);
            lemma_region_index(s, i, e, 1);
            lemma_region_index(s, i, e, 2);
            lemma_region_index(s, i, e, 3);
            lemma_region_index(s, i, e, 4);
            lemma_region_index(s, i, e, 5);
            lemma_hex_char_val(hi);
            lemma_hex_char_val(lo);
            assert(hex_val(s[i as int + 4]) * 16 + hex_val(s[i as int + 5]) == code);
            let c2 = (code as u8) as char;
            assert(c2 as u32 == code);
            vstd::utf8::char_u32_cast(c2, code);
            vstd::utf8::char_u32_cast(c, code);
            assert(c2 == c);
            assert(s[i as int + 1] == 'u');
        } else {
            assert(e =~= seq![c]);
            lemma_region_index(s, i, e, 0);
            assert(s[i as int] == c);
            assert(s[i as int] != '"' && s[i as int] != '\\');
        }
    }
}

/// Parsing a region of rendered string text gives the string back.
proof fn lemma_parse_string_render(s: Seq<char>, i: nat, t: Seq<char>)
    requires
        region(s, i, str_text(t)),
    ensures
        parse_string(s, i) == Some((t, str_text(t).len() as nat)),
{
    assert(str_text(t) =~= seq!['"'] + (str_text_body(t, 0) + seq!['"']));
    lemma_region_split(s, i, seq!['"'], str_text_body(t, 0) + seq!['"']);
    lemma_region_index(s, i, str_text(t), 0);
    assert(s[i as int] == '"');
    lemma_parse_str_body_render(s, i + 1, t, 0);
    assert(t.subrange(0, t.len() as int) =~= t);
}

/// The first character of a rendered value starts a token: it is not
/// whitespace and closes nothing.
proof fn lemma_jtext_first(j: JsonV, ind: nat)
    ensures
        jtext(j, ind).len() >= 1,
        !is_ws(jtext(j, ind)[0]),
        jtext(j, ind)[0] != ']',
        jtext(j, ind)[0] != '}',
        jtext(j, ind)[0] != ',',
        jtext(j, ind)[0] != ':',
{
    match j {
        JsonV::Null => {},
        JsonV::Bool(b) => {},
        JsonV::Num(n) => {
            lemma_dec_str_shape(n.whole);
            if n.neg {
                assert(jtext(j, ind)[0] == '-');
            } else {
                assert(jtext(j, ind)[0] == dec_str(n.whole)[0]);
                assert(is_digit(dec_str(n.whole)[0]));
            }
        },
        JsonV::Str(t) => {
            assert(jtext(j, ind)[0] == '"');
        },
        JsonV::Arr(es) => {
            if es.len() == 0 {
                assert(jtext(j, ind)[0] == '[');
            } else {
                assert(jtext(j, ind)[0] == '[');
            }
        },
        JsonV::Obj(fs) => {
            if fs.len() == 0 {
                assert(jtext(j, ind)[0] == '{');
            } else {
                assert(jtext(j, ind)[0] == '{');
            }
        },
    }
}

/// The closing line of an array or object: newline, indentation, bracket.
spec fn close_text(ind: nat, c: char) -> Seq<char> {
    seq!['\n'] + spaces(ind) + seq![c]
}

/// What remains of a nonempty array's text from element `k` on: the
/// element, the following elements each after a comma, and the closing
/// line.
spec fn elems_tail(es: Seq<JsonV>, k: int, ind: nat, ci: nat) -> Seq<char>
    recommends
        0 <= k < es.len(),
{
    jtext(es[k], ci) + (if k + 1 < es.len() {
        seq![','] + arr_body(es, k + 1, ci)
    } else {
        Seq::empty()
    }) + close_text(ind, ']')
}

/// What remains of a nonempty object's text from field `k` on.
spec fn members_tail(fs: Seq<(Seq<char>, JsonV)>, k: int, ind: nat, ci: nat) -> Seq<char>
    recommends
        0 <= k < fs.len(),
{
    str_text(fs[k].0) + seq![':', ' '] + jtext(fs[k].1, ci) + (if k + 1 < fs.len() {
        seq![','] + obj_body(fs, k + 1, ci)
    } else {
        Seq::empty()
    }) + close_text(ind, '}')
}

/// An array body followed by the closing line regroups as one line of
/// whitespace and an element tail.
proof fn lemma_arr_body_regroup(es: Seq<JsonV>, k: int, ind: nat, ci: nat)
    requires
        0 <= k < es.len(),
    ensures
        arr_body(es, k, ci) + close_text(ind, ']') =~= (seq!['\n'] + spaces(ci)) + elems_tail(
            es,
            k,
            ind,
            ci,
        ),
{
}

/// An object body followed by the closing line regroups as one line of
/// whitespace and a member tail.
proof fn lemma_obj_body_regroup(fs: Seq<(Seq<char>, JsonV)>, k: int, ind: nat, ci: nat)
    requires
        0 <= k < fs.len(),
    ensures
        obj_body(fs, k, ci) + close_text(ind, '}') =~= (seq!['\n'] + spaces(ci)) + members_tail(
            fs,
            k,
            ind,
            ci,
        ),
{
}

/// A run of one newline and `m` spaces, followed by a token character, is
/// skipped exactly.
proof fn lemma_skip_line(s: Seq<char>, i: nat, m: nat, rest: Seq<char>)
    requires
        region(s, i, (seq!['\n'] + spaces(m)) + rest),
        rest.len() >= 1,
        !is_ws(rest[0]),
    ensures
        skip_ws_n(s, i) == 1 + m,
        region(s, (i + 1 + m) as nat, rest),
{
    lemma_spaces(m);
    lemma_region_split(s, i, seq!['\n'] + spaces(m), rest);
    lemma_region_index(s, (i + 1 + m) as nat, rest, 0);
    assert forall|k: int| i <= k < i + 1 + m implies is_ws(#[trigger] s[k]) by {
        lemma_region_index(s, i, seq!['\n'] + spaces(m), k - i);
        if k == i {
            assert((seq!['\n'] + spaces(m))[0] == '\n');
        } else {
            assert((seq!['\n'] + spaces(m))[k - i] == spaces(m)[k - i - 1]);
        }
    }
    lemma_skip_ws_exact(s, i, (1 + m) as nat);
}

/// Parsing a rendered value at its position gives the value back.
#[verifier::rlimit(100)]
pub proof fn lemma_parse_value_render(s: Seq<char>, i: nat, j: JsonV, ind: nat)
    requires
        json_wf(j),
        region(s, i, jtext(j, ind)),
        num_term(s, (i + jtext(j, ind).len()) as nat),
    ensures
        parse_value(s, i) == Some((j, jtext(j, ind).len() as nat)),
    decreases j, 0int,
{
    let t = jtext(j, ind);
    lemma_jtext_first(j, ind);
    lemma_region_index(s, i, t, 0);
    match j {
        JsonV::Null => {
            lemma_region_index(s, i, t, 1);
            lemma_region_index(s, i, t, 2);
            lemma_region_index(s, i, t, 3);
        },
        JsonV::Bool(b) => {
            lemma_region_index(s, i, t, 1);
            lemma_region_index(s, i, t, 2);
            lemma_region_index(s, i, t, 3);
            if !b {
                lemma_region_index(s, i, t, 4);
            }
        },
        JsonV::Num(n) => {
            lemma_parse_number_render(s, i, n);
            assert(s[i as int] == num_text(n)[0]);
            if n.neg {
                assert(s[i as int] == '-');
            } else {
                lemma_dec_str_shape(n.whole);
                assert(is_digit(s[i as int]));
            }
        },
        JsonV::Str(st) => {
            lemma_parse_string_render(s, i, st);
        },
        JsonV::Arr(es) => {
            let ci = next_ind(ind);
            if es.len() == 0 {
                lemma_region_index(s, i, t, 1);
                assert(s[i as int + 1] == ']');
                lemma_skip_ws_exact(s, i + 1, 0);
                assert(es =~= Seq::<JsonV>::empty());
            } else {
                assert(t =~= seq!['['] + (arr_body(es, 0, ci) + close_text(ind, ']')));
                lemma_region_split(s, i, seq!['['], arr_body(es, 0, ci) + close_text(ind, ']'));
                lemma_arr_body_regroup(es, 0, ind, ci);
                lemma_jtext_first(es[0], ci);
                assert(elems_tail(es, 0, ind, ci)[0] == jtext(es[0], ci)[0]);
                lemma_skip_line(s, i + 1, ci, elems_tail(es, 0, ind, ci));
                let k: nat = (i + 2 + ci) as nat;
                assert forall|x: int| 0 <= x < es.len() implies json_wf(#[trigger] es[x]) by {
                    lemma_json_wf_arr(es, x);
                }
                lemma_parse_elems_render(s, k, es, 0, ind, ci);
                assert(es.subrange(0, es.len() as int) =~= es);
                lemma_spaces(ci);
                assert(s[k as int] == jtext(es[0], ci)[0]) by {
                    lemma_region_index(s, k, elems_tail(es, 0, ind, ci), 0);
                }
                assert(s[k as int] != ']');
                assert(parse_value(s, i) == Some((j, t.len() as nat)));
            }
        },
        JsonV::Obj(fs) => {
            let ci = next_ind(ind);
            if fs.len() == 0 {
                lemma_region_index(s, i, t, 1);
                assert(s[i as int + 1] == '}');
                lemma_skip_ws_exact(s, i + 1, 0);
                assert(fs =~= Seq::<(Seq<char>, JsonV)>::empty());
            } else {
                assert(t =~= seq!['{'] + (obj_body(fs, 0, ci) + close_text(ind, '}')));
                lemma_region_split(s, i, seq!['{'], obj_body(fs, 0, ci) + close_text(ind, '}'));
                lemma_obj_body_regroup(fs, 0, ind, ci);
                assert(members_tail(fs, 0, ind, ci)[0] == str_text(fs[0].0)[0]);
                assert(str_text(fs[0].0)[0] == '"');
                lemma_skip_line(s, i + 1, ci, members_tail(fs, 0, ind, ci));
                let k: nat = (i + 2 + ci) as nat;
                assert forall|x: int| 0 <= x < fs.len() implies json_wf(#[trigger] fs[x].1) by {
                    lemma_json_wf_obj(fs, x);
                }
                lemma_parse_members_render(s, k, fs, 0, ind, ci);
                assert(fs.subrange(0, fs.len() as int) =~= fs);
                lemma_spaces(ci);
                assert(s[k as int] == '"') by {
                    lemma_region_index(s, k, members_tail(fs, 0, ind, ci), 0);
                }
                assert(s[k as int] != '}');
                assert(parse_value(s, i) == Some((j, t.len() as nat)));
            }
        },
    }
}

/// Parsing rendered array elements from element `k` gives the elements
/// back, up to and including the closing bracket.
#[verifier::rlimit(100)]
proof fn lemma_parse_elems_render(s: Seq<char>, i: nat, es: Seq<JsonV>, k: int, ind: nat, ci: nat)
    requires
        ci == next_ind(ind),
        forall|x: int| 0 <= x < es.len() ==> json_wf(#[trigger] es[x]),
        0 <= k < es.len(),
        region(s, i, elems_tail(es, k, ind, ci)),
    ensures
        parse_elems(s, i) == Some(
            (es.subrange(k, es.len() as int), elems_tail(es, k, ind, ci).len() as nat),
        ),
    decreases es, es.len() - k,
{
    let tail = elems_tail(es, k, ind, ci);
    let jt = jtext(es[k], ci);
    let mid: Seq<char> = if k + 1 < es.len() {
        seq![','] + arr_body(es, k + 1, ci)
    } else {
        Seq::empty()
    };
    assert(tail =~= jt + (mid + close_text(ind, ']')));
    lemma_region_split(s, i, jt, mid + close_text(ind, ']'));
    let j2: nat = (i + jt.len()) as nat;
    lemma_spaces(ind);
    // the character after the element neither extends a number nor is whitespace
    if k + 1 < es.len() {
        lemma_region_index(s, j2, mid + close_text(ind, ']'), 0);
        assert((mid + close_text(ind, ']'))[0] == ',');
        assert(s[j2 as int] == ',');
    } else {
        lemma_region_index(s, j2, mid + close_text(ind, ']'), 0);
        assert((mid + close_text(ind, ']'))[0] == '\n');
        assert(s[j2 as int] == '\n');
    }
    assert(num_term(s, j2));
    lemma_parse_value_render(s, i, es[k], ci);
    if k + 1 < es.len() {
        lemma_skip_ws_exact(s, j2, 0);
        assert(mid + close_text(ind, ']') =~= seq![','] + (arr_body(es, k + 1, ci) + close_text(
            ind,
            ']',
        )));
        lemma_region_split(s, j2, seq![','], arr_body(es, k + 1, ci) + close_text(ind, ']'));
        lemma_arr_body_regroup(es, k + 1, ind, ci);
        lemma_jtext_first(es[k + 1], ci);
        assert(elems_tail(es, k + 1, ind, ci)[0] == jtext(es[k + 1], ci)[0]);
        lemma_skip_line(s, j2 + 1, ci, elems_tail(es, k + 1, ind, ci));
        let m: nat = (j2 + 2 + ci) as nat;
        lemma_parse_elems_render(s, m, es, k + 1, ind, ci);
        lemma_spaces(ci);
        assert(seq![es[k]] + es.subrange(k + 1, es.len() as int) =~= es.subrange(
            k,
            es.len() as int,
        ));
        assert(parse_elems(s, i) == Some(
            (es.subrange(k, es.len() as int), tail.len() as nat),
        ));
    } else {
        assert(mid + close_text(ind, ']') =~= (seq!['\n'] + spaces(ind)) + seq![']']);
        lemma_skip_line(s, j2, ind, seq![']']);
        let kk: nat = (j2 + 1 + ind) as nat;
        lemma_region_index(s, kk, seq![']'], 0);
        assert(s[kk as int] == ']');
        assert(seq![es[k]] =~= es.subrange(k, es.len() as int));
        assert(parse_elems(s, i) == Some(
            (es.subrange(k, es.len() as int), tail.len() as nat),
        ));
    }
}

/// Parsing rendered object members from field `k` gives the fields back,
/// up to and including the closing brace.
#[verifier::rlimit(100)]
proof fn lemma_parse_members_render(
    s: Seq<char>,
    i: nat,
    fs: Seq<(Seq<char>, JsonV)>,
    k: int,
    ind: nat,
    ci: nat,
)
    requires
        ci == next_ind(ind),
        forall|x: int| 0 <= x < fs.len() ==> json_wf(#[trigger] fs[x].1),
        0 <= k < fs.len(),
        region(s, i, members_tail(fs, k, ind, ci)),
    ensures
        parse_members(s, i) == Some(
            (fs.subrange(k, fs.len() as int), members_tail(fs, k, ind, ci).len() as nat),
        ),
    decreases fs, fs.len() - k,
{
    let tail = members_tail(fs, k, ind, ci);
    let name = fs[k].0;
    let st = str_text(name);
    let jt = jtext(fs[k].1, ci);
    let mid: Seq<char> = if k + 1 < fs.len() {
        seq![','] + obj_body(fs, k + 1, ci)
    } else {
        Seq::empty()
    };
    assert(tail =~= st + (seq![':', ' '] + (jt + (mid + close_text(ind, '}')))));
    lemma_region_split(s, i, st, seq![':', ' '] + (jt + (mid + close_text(ind, '}'))));
    lemma_parse_string_render(s, i, name);
    let p1: nat = (i + st.len()) as nat;
    lemma_region_split(s, p1, seq![':', ' '], jt + (mid + close_text(ind, '}')));
    lemma_region_index(s, p1, seq![':', ' '], 0);
    lemma_region_index(s, p1, seq![':', ' '], 1);
    assert(s[p1 as int] == ':');
    assert(s[p1 as int + 1] == ' ');
    lemma_skip_ws_exact(s, p1, 0);
    let p2: nat = (p1 + 2) as nat;
    lemma_jtext_first(fs[k].1, ci);
    lemma_region_split(s, p2, jt, mid + close_text(ind, '}'));
    lemma_region_index(s, p2, jt, 0);
    assert(!is_ws(s[p2 as int]));
    lemma_skip_ws_exact(s, (p1 + 1) as nat, 1);
    // the value, then either a comma and the next field or the closing line
    let j3: nat = (p2 + jt.len()) as nat;
    lemma_spaces(ind);
    lemma_region_index(s, j3, mid + close_text(ind, '}'), 0);
    if k + 1 < fs.len() {
        assert((mid + close_text(ind, '}'))[0] == ',');
        assert(s[j3 as int] == ',');
    } else {
        assert((mid + close_text(ind, '}'))[0] == '\n');
        assert(s[j3 as int] == '\n');
    }
    assert(num_term(s, j3));
    lemma_parse_value_render(s, p2, fs[k].1, ci);
    if k + 1 < fs.len() {
        lemma_skip_ws_exact(s, j3, 0);
        assert(mid + close_text(ind, '}') =~= seq![','] + (obj_body(fs, k + 1, ci) + close_text(
            ind,
            '}',
        )));
        lemma_region_split(s, j3, seq![','], obj_body(fs, k + 1, ci) + close_text(ind, '}'));
        lemma_obj_body_regroup(fs, k + 1, ind, ci);
        assert(members_tail(fs, k + 1, ind, ci)[0] == str_text(fs[k + 1].0)[0]);
        assert(str_text(fs[k + 1].0)[0] == '"');
        lemma_skip_line(s, j3 + 1, ci, members_tail(fs, k + 1, ind, ci));
        let m: nat = (j3 + 2 + ci) as nat;
        lemma_parse_members_render(s, m, fs, k + 1, ind, ci);
        lemma_spaces(ci);
        assert((name, fs[k].1) == fs[k]);
        assert(seq![fs[k]] + fs.subrange(k + 1, fs.len() as int) =~= fs.subrange(
            k,
            fs.len() as int,
        ));
        assert(parse_members(s, i) == Some(
            (fs.subrange(k, fs.len() as int), tail.len() as nat),
        ));
    } else {
        assert(mid + close_text(ind, '}') =~= (seq!['\n'] + spaces(ind)) + seq!['}']);
        lemma_skip_line(s, j3, ind, seq!['}']);
        let kk: nat = (j3 + 1 + ind) as nat;
        lemma_region_index(s, kk, seq!['}'], 0);
        assert(s[kk as int] == '}');
        assert((name, fs[k].1) == fs[k]);
        assert(seq![fs[k]] =~= fs.subrange(k, fs.len() as int));
        assert(parse_members(s, i) == Some(
            (fs.subrange(k, fs.len() as int), tail.len() as nat),
        ));
    }
}

/// A rendered document parses back to the value it was rendered from.
pub proof fn lemma_doc_round_trip(j: JsonV)
    requires
        json_wf(j),
    ensures
        parse_doc(doc_text(j)) == Some(j),
{
    let s = doc_text(j);
    lemma_jtext_first(j, 0);
    lemma_skip_ws_exact(s, 0, 0);
    assert(s.subrange(0, s.len() as int) =~= s);
    assert(region(s, 0, jtext(j, 0)));
    assert(num_term(s, jtext(j, 0).len() as nat));
    lemma_parse_value_render(s, 0, j, 0);
    assert(skip_ws_n(s, s.len() as nat) == 0);
}

} // verus!
