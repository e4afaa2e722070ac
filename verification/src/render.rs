//! Turning a JSON value into indented document text.
//!
//! `jtext` says, character for character, what the text of a value is; the
//! executable functions append exactly that text to a growing string.  The
//! layout is the usual pretty form: two more spaces of indentation per
//! level, one field or element per line, `": "` after a field name.

use vstd::prelude::*;

use crate::json::Json;
use crate::json::JsonV;
use crate::json::elems_view;
use crate::json::fields_view;
use crate::json::json_wf;
use crate::json::lemma_json_wf_arr;
use crate::json::lemma_json_wf_obj;
use crate::json::lemma_elems_view_from;
use crate::json::lemma_fields_view_from;
use crate::num::NumV;
use crate::num::Number;
use crate::num::dec_str;
use crate::num::digit_char;
use crate::num::num_wf;

verus! {

/// Relies on `String::push`: appends the one character at the end.
#[verifier::external_body]
pub(crate) fn push_char(s: &mut String, c: char)
    ensures
        final(s)@ == old(s)@.push(c),
{
    s.push(c)
}

/// The character for a hexadecimal digit value, lower case.
pub open spec fn hex_char(d: u8) -> char
    recommends
        d < 16,
{
    if d < 10 {
        digit_char(d)
    } else {
        (((d - 10) + 97) as u8) as char
    }
}

/// How one character appears inside a quoted string: quote and backslash
/// get a backslash, control characters become `\u00..`, the rest stand
/// as themselves.
pub open spec fn esc_char(c: char) -> Seq<char> {
    if c == '"' {
        seq!['\\', '"']
    } else if c == '\\' {
        seq!['\\', '\\']
    } else if (c as u32) < 0x20 {
        seq!['\\', 'u', '0', '0', hex_char(((c as u32) / 16) as u8), hex_char(((c as u32) % 16) as u8)]
    } else {
        seq![c]
    }
}

/// The escaped body of a quoted string, from character `k` on.
pub open spec fn str_text_body(s: Seq<char>, k: int) -> Seq<char>
    decreases s.len() - k,
{
    if k < 0 || k >= s.len() {
        Seq::empty()
    } else {
        esc_char(s[k]) + str_text_body(s, k + 1)
    }
}

/// The text of a quoted string.
pub open spec fn str_text(s: Seq<char>) -> Seq<char> {
    seq!['"'] + str_text_body(s, 0) + seq!['"']
}

/// The text of the fraction digits, from digit `k` on.
pub open spec fn frac_digits_text(f: Seq<u8>, k: int) -> Seq<char>
    decreases f.len() - k,
{
    if k < 0 || k >= f.len() {
        Seq::empty()
    } else {
        seq![digit_char(f[k])] + frac_digits_text(f, k + 1)
    }
}

/// The text of a number: sign, integer part, and the fraction if there is one.
pub open spec fn num_text(n: NumV) -> Seq<char> {
    (if n.neg {
        seq!['-']
    } else {
        Seq::empty()
    }) + dec_str(n.whole) + (if n.frac.len() == 0 {
        Seq::empty()
    } else {
        seq!['.'] + frac_digits_text(n.frac, 0)
    })
}

/// `n` spaces.
pub open spec fn spaces(n: nat) -> Seq<char>
    decreases n,
{
    if n == 0 {
        Seq::empty()
    } else {
        spaces((n - 1) as nat).push(' ')
    }
}

/// The indentation of the next nesting level.
pub open spec fn next_ind(ind: nat) -> nat {
    if ind + 2 <= usize::MAX as nat {
        (ind + 2) as nat
    } else {
        ind
    }
}

/// The text of a value, indented by `ind`.
pub open spec fn jtext(j: JsonV, ind: nat) -> Seq<char>
    decreases j, 0int,
{
    match j {
        JsonV::Null => seq!['n', 'u', 'l', 'l'],
        JsonV::Bool(b) => if b {
            seq!['t', 'r', 'u', 'e']
        } else {
            seq!['f', 'a', 'l', 's', 'e']
        },
        JsonV::Num(n) => num_text(n),
        JsonV::Str(s) => str_text(s),
        JsonV::Arr(es) => if es.len() == 0 {
            seq!['[', ']']
        } else {
            seq!['['] + arr_body(es, 0, next_ind(ind)) + seq!['\n'] + spaces(ind) + seq![']']
        },
        JsonV::Obj(fs) => if fs.len() == 0 {
            seq!['{', '}']
        } else {
            seq!['{'] + obj_body(fs, 0, next_ind(ind)) + seq!['\n'] + spaces(ind) + seq!['}']
        },
    }
}

/// The text of the array elements from `k` on, each on its own line.
pub open spec fn arr_body(es: Seq<JsonV>, k: int, ind: nat) -> Seq<char>
    decreases es, es.len() - k,
{
    if k < 0 || k >= es.len() {
        Seq::empty()
    } else {
        seq!['\n'] + spaces(ind) + jtext(es[k], ind) + (if k + 1 < es.len() {
            seq![','] + arr_body(es, k + 1, ind)
        } else {
            Seq::empty()
        })
    }
}

/// The text of the object fields from `k` on, each on its own line.
pub open spec fn obj_body(fs: Seq<(Seq<char>, JsonV)>, k: int, ind: nat) -> Seq<char>
    decreases fs, fs.len() - k,
{
    if k < 0 || k >= fs.len() {
        Seq::empty()
    } else {
        seq!['\n'] + spaces(ind) + str_text(fs[k].0) + seq![':', ' '] + jtext(fs[k].1, ind) + (
        if k + 1 < fs.len() {
            seq![','] + obj_body(fs, k + 1, ind)
        } else {
            Seq::empty()
        })
    }
}

/// The text of a whole document: the value at indentation zero.
pub open spec fn doc_text(j: JsonV) -> Seq<char> {
    jtext(j, 0)
}

fn digit_ch(d: u8) -> (c: char)
    requires
        d < 10,
    ensures
        c == digit_char(d),
{
    (d + 48) as char
}

fn hex_ch(d: u8) -> (c: char)
    requires
        d < 16,
    ensures
        c == hex_char(d),
{
    if d < 10 {
        (d + 48) as char
    } else {
        ((d - 10) + 97) as char
    }
}

fn push_spaces(out: &mut String, n: usize)
    ensures
        final(out)@ == old(out)@ + spaces(n as nat),
{
    let mut i: usize = 0;
    while i < n
        invariant
            i <= n,
            out@ == old(out)@ + spaces(i as nat),
        decreases n - i,
    {
        push_char(out, ' ');
        proof {
            assert(spaces((i + 1) as nat) == spaces(i as nat).push(' '));
        }
        i = i + 1;
    }
}

fn push_u64(out: &mut String, w: u64)
    ensures
        final(out)@ == old(out)@ + dec_str(w),
    decreases w,
{
    if w < 10 {
        push_char(out, digit_ch(w as u8));
    } else {
        push_u64(out, w / 10);
        push_char(out, digit_ch((w % 10) as u8));
    }
}

fn push_number(out: &mut String, n: &Number)
    requires
        num_wf(n@),
    ensures
        final(out)@ == old(out)@ + num_text(n@),
{
    if n.neg {
        push_char(out, '-');
    }
    push_u64(out, n.whole);
    if n.frac.len() > 0 {
        push_char(out, '.');
        let mut i: usize = 0;
        while i < n.frac.len()
            invariant
                num_wf(n@),
                i <= n.frac.len(),
                out@ + frac_digits_text(n@.frac, i as int) == old(out)@ + num_text(n@),
            decreases n.frac.len() - i,
        {
            proof {
                assert(frac_digits_text(n@.frac, i as int) == seq![digit_char(n@.frac[i as int])]
                    + frac_digits_text(n@.frac, i + 1));
            }
            push_char(out, digit_ch(n.frac[i]));
            i = i + 1;
        }
        proof {
            assert(frac_digits_text(n@.frac, n@.frac.len() as int) == Seq::<char>::empty());
            assert(out@ + Seq::<char>::empty() =~= out@);
        }
    } else {
        proof {
            assert(out@ + Seq::<char>::empty() =~= out@);
        }
    }
}

fn push_str_text(out: &mut String, s: &str)
    ensures
        final(out)@ == old(out)@ + str_text(s@),
{
    push_char(out, '"');
    let n = s.unicode_len();
    let mut i: usize = 0;
    while i < n
        invariant
            n == s@.len(),
            i <= n,
            out@ + str_text_body(s@, i as int) == old(out)@ + seq!['"'] + str_text_body(s@, 0),
        decreases n - i,
    {
        proof {
            assert(str_text_body(s@, i as int) == esc_char(s@[i as int]) + str_text_body(s@, i + 1));
        }
        let c = s.get_char(i);
        if c == '"' {
            push_char(out, '\\');
            push_char(out, '"');
        } else if c == '\\' {
            push_char(out, '\\');
            push_char(out, '\\');
        } else if (c as u32) < 0x20 {
            let code = c as u32;
            push_char(out, '\\');
            push_char(out, 'u');
            push_char(out, '0');
            push_char(out, '0');
            push_char(out, hex_ch((code / 16) as u8));
            push_char(out, hex_ch((code % 16) as u8));
        }  else {
            push_char(out, c);
        }
        i = i + 1;
    }
    proof {
        assert(str_text_body(s@, n as int) == Seq::<char>::empty());
        assert(out@ + Seq::<char>::empty() =~= out@);
    }
    push_char(out, '"');
    proof {
        assert(final(out)@ =~= old(out)@ + str_text(s@));
    }
}

/// Append the text of `j`, indented by `ind`, to `out`.
#[verifier::rlimit(100)]
fn render_value(j: &Json, ind: usize, out: &mut String)
    requires
        json_wf(j@),
    ensures
        final(out)@ == old(out)@ + jtext(j@, ind as nat),
    decreases j,
{
    match j {
        Json::Null => {
            push_char(out, 'n');
            push_char(out, 'u');
            push_char(out, 'l');
            push_char(out, 'l');
            proof {
                assert(final(out)@ =~= old(out)@ + jtext(j@, ind as nat));
            }
        },
        Json::Bool(b) => {
            if *b {
                push_char(out, 't');
                push_char(out, 'r');
                push_char(out, 'u');
                push_char(out, 'e');
            } else {
                push_char(out, 'f');
                push_char(out, 'a');
                push_char(out, 'l');
                push_char(out, 's');
                push_char(out, 'e');
            }
            proof {
                assert(final(out)@ =~= old(out)@ + jtext(j@, ind as nat));
            }
        },
        Json::Num(n) => {
            push_number(out, n);
        },
        Json::Str(s) => {
            push_str_text(out, s.as_str());
        },
        Json::Arr(es) => {
            let ghost esv = elems_view(es@);
            proof {
                lemma_elems_view_from(es@, 0);
            }
            if es.len() == 0 {
                push_char(out, '[');
                push_char(out, ']');
                proof {
                    assert(final(out)@ =~= old(out)@ + jtext(j@, ind as nat));
                }
            } else {
                let ci = if ind <= usize::MAX - 2 {
                    ind + 2
                } else {
                    ind
                };
                proof {
                    assert(ci as nat == next_ind(ind as nat));
                }
                push_char(out, '[');
                let ghost base = out@;
                let n = es.len();
                let mut k: usize = 0;
                while k < n
                    invariant
                        n == es.len(),
                        n == esv.len(),
                        n > 0,
                        k <= n,
                        esv == elems_view(es@),
                        forall|i: int| 0 <= i < n ==> esv[i] == #[trigger] es@[i]@,
                        json_wf(j@),
                        j@ == JsonV::Arr(esv),
                        *j == Json::Arr(*es),
                        ci as nat == next_ind(ind as nat),
                        out@ + arr_body(esv, k as int, ci as nat) == base + arr_body(esv, 0, ci as nat),
                    decreases n - k,
                {
                    proof {
                        assert(arr_body(esv, k as int, ci as nat) == seq!['\n'] + spaces(ci as nat)
                            + jtext(esv[k as int], ci as nat) + (if k + 1 < n {
                            seq![','] + arr_body(esv, k as int + 1, ci as nat)
                        } else {
                            Seq::empty()
                        }));
                    }
                    push_char(out, '\n');
                    push_spaces(out, ci);
                    proof {
                        assert(esv[k as int] == es@[k as int]@);
                        lemma_json_wf_arr(esv, k as int);
                        assert(decreases_to!(Json::Arr(*es) => *es));
                        assert(decreases_to!(*es => es@));
                        assert(decreases_to!(es@ => es@[k as int]));
                    }
                    render_value(&es[k], ci, out);
                    if k + 1 < n {
                        push_char(out, ',');
                    }
                    proof {
                        if k + 1 == n {
                            assert(arr_body(esv, k as int + 1, ci as nat) == Seq::<char>::empty());
                        }
                    }
                    k = k + 1;
                }
                proof {
                    assert(arr_body(esv, n as int, ci as nat) == Seq::<char>::empty());
                }
                push_char(out, '\n');
                push_spaces(out, ind);
                push_char(out, ']');
                proof {
                    assert(final(out)@ =~= old(out)@ + jtext(j@, ind as nat));
                }
            }
        },
        Json::Obj(fs) => {
            let ghost fsv = fields_view(fs@);
            proof {
                lemma_fields_view_from(fs@, 0);
            }
            if fs.len() == 0 {
                push_char(out, '{');
                push_char(out, '}');
                proof {
                    assert(final(out)@ =~= old(out)@ + jtext(j@, ind as nat));
                }
            } else {
                let ci = if ind <= usize::MAX - 2 {
                    ind + 2
                } else {
                    ind
                };
                proof {
                    assert(ci as nat == next_ind(ind as nat));
                }
                push_char(out, '{');
                let ghost base = out@;
                let n = fs.len();
                let mut k: usize = 0;
                while k < n
                    invariant
                        n == fs.len(),
                        n == fsv.len(),
                        n > 0,
                        k <= n,
                        fsv == fields_view(fs@),
                        forall|i: int| 0 <= i < n ==> fsv[i] == (#[trigger] fs@[i].0@, fs@[i].1@),
                        json_wf(j@),
                        j@ == JsonV::Obj(fsv),
                        *j == Json::Obj(*fs),
                        ci as nat == next_ind(ind as nat),
                        out@ + obj_body(fsv, k as int, ci as nat) == base + obj_body(fsv, 0, ci as nat),
                    decreases n - k,
                {
                    proof {
                        assert(obj_body(fsv, k as int, ci as nat) == seq!['\n'] + spaces(ci as nat)
                            + str_text(fsv[k as int].0) + seq![':', ' ']
                            + jtext(fsv[k as int].1, ci as nat) + (if k + 1 < n {
                            seq![','] + obj_body(fsv, k as int + 1, ci as nat)
                        } else {
                            Seq::empty()
                        }));
                    }
                    push_char(out, '\n');
                    push_spaces(out, ci);
                    push_str_text(out, fs[k].0.as_str());
                    push_char(out, ':');
                    push_char(out, ' ');
                    proof {
                        assert(fsv[k as int].1 == fs@[k as int].1@);
                        lemma_json_wf_obj(fsv, k as int);
                        assert(decreases_to!(Json::Obj(*fs) => *fs));
                        assert(decreases_to!(*fs => fs@));
                        assert(decreases_to!(fs@ => fs@[k as int]));
                        assert(decreases_to!(fs@[k as int] => fs@[k as int].1));
                    }
                    render_value(&fs[k].1, ci, out);
                    if k + 1 < n {
                        push_char(out, ',');
                    }
                    proof {
                        if k + 1 == n {
                            assert(obj_body(fsv, k as int + 1, ci as nat) == Seq::<char>::empty());
                        }
                    }
                    k = k + 1;
                }
                proof {
                    assert(obj_body(fsv, n as int, ci as nat) == Seq::<char>::empty());
                }
                push_char(out, '\n');
                push_spaces(out, ind);
                push_char(out, '}');
                proof {
                    assert(final(out)@ =~= old(out)@ + jtext(j@, ind as nat));
                }
            }
        },
    }
}

/// The document text of a value.
pub fn render_json(j: &Json) -> (r: String)
    requires
        json_wf(j@),
    ensures
        r@ == doc_text(j@),
{
    let mut out = String::new();
    render_value(j, 0, &mut out);
    proof {
        assert(out@ =~= doc_text(j@));
    }
    out
}

} // verus!
