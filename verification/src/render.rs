//! Text rendering of values and repeated-field views.
//!
//! The format is fixed by the spec functions here: booleans as `true` and
//! `false`, integers in decimal (floating-point slots by the decimal of
//! their bit pattern), strings quoted verbatim, byte sequences and repeated
//! fields as a bracketed, comma-and-space-separated list of their elements'
//! renderings, enums by their number, messages by their full type name.

use vstd::prelude::*;
use vstd::string::StringExecFns;

use crate::model::ValueModel;
use crate::repeated::RepeatedFieldRef;
use crate::types::{lemma_values_model, ReflectValueBox};

verus! {

broadcast use vstd::seq::group_seq_axioms, vstd::std_specs::vec::group_vec_axioms;

pub open spec fn digit_char(d: nat) -> char {
    if d == 0 {
        '0'
    } else if d == 1 {
        '1'
    } else if d == 2 {
        '2'
    } else if d == 3 {
        '3'
    } else if d == 4 {
        '4'
    } else if d == 5 {
        '5'
    } else if d == 6 {
        '6'
    } else if d == 7 {
        '7'
    } else if d == 8 {
        '8'
    } else {
        '9'
    }
}

/// The decimal digits of a natural number, most significant first.
pub open spec fn dec_digits(n: nat) -> Seq<char>
    decreases n,
{
    if n < 10 {
        seq![digit_char(n)]
    } else {
        dec_digits(n / 10).push(digit_char(n % 10))
    }
}

/// Decimal rendering of an integer, with a leading minus when negative.
pub open spec fn int_digits(n: int) -> Seq<char> {
    if n < 0 {
        seq!['-'] + dec_digits((-n) as nat)
    } else {
        dec_digits(n as nat)
    }
}

/// The comma-and-space-separated decimals of a byte sequence.
pub open spec fn bytes_render(bs: Seq<u8>) -> Seq<char>
    decreases bs,
{
    if bs.len() == 0 {
        Seq::empty()
    } else if bs.len() == 1 {
        dec_digits(bs[0] as nat)
    } else {
        bytes_render(bs.drop_last()) + seq![',', ' '] + dec_digits(bs.last() as nat)
    }
}

/// The rendering of one value.
pub open spec fn value_render(v: ValueModel) -> Seq<char> {
    match v {
        ValueModel::Bool(b) => if b {
            seq!['t', 'r', 'u', 'e']
        } else {
            seq!['f', 'a', 'l', 's', 'e']
        },
        ValueModel::I32(x) => int_digits(x as int),
        ValueModel::I64(x) => int_digits(x as int),
        ValueModel::U32(x) => dec_digits(x as nat),
        ValueModel::U64(x) => dec_digits(x as nat),
        ValueModel::F32(bits) => dec_digits(bits as nat),
        ValueModel::F64(bits) => dec_digits(bits as nat),
        ValueModel::Str(s) => seq!['"'] + s + seq!['"'],
        ValueModel::Bytes(bs) => seq!['['] + bytes_render(bs) + seq![']'],
        ValueModel::Enum(_, n) => int_digits(n as int),
        ValueModel::Message(mm) => mm.desc.full_name,
    }
}

/// The comma-and-space-separated renderings of a sequence of values.
pub open spec fn values_render(vs: Seq<ValueModel>) -> Seq<char>
    decreases vs,
{
    if vs.len() == 0 {
        Seq::empty()
    } else if vs.len() == 1 {
        value_render(vs[0])
    } else {
        values_render(vs.drop_last()) + seq![',', ' '] + value_render(vs.last())
    }
}

/// A repeated field renders as the bracketed list of its elements.
pub open spec fn repeated_render(vs: Seq<ValueModel>) -> Seq<char> {
    seq!['['] + values_render(vs) + seq![']']
}

/// One decimal digit as text.
fn digit_str(d: u8) -> (r: &'static str)
    requires
        d < 10,
    ensures
        r@ == seq![digit_char(d as nat)],
{
    proof {
        reveal_strlit("0");
        reveal_strlit("1");
        reveal_strlit("2");
        reveal_strlit("3");
        reveal_strlit("4");
        reveal_strlit("5");
        reveal_strlit("6");
        reveal_strlit("7");
        reveal_strlit("8");
        reveal_strlit("9");
    }
    let r = if d == 0 {
        "0"
    } else if d == 1 {
        "1"
    } else if d == 2 {
        "2"
    } else if d == 3 {
        "3"
    } else if d == 4 {
        "4"
    } else if d == 5 {
        "5"
    } else if d == 6 {
        "6"
    } else if d == 7 {
        "7"
    } else if d == 8 {
        "8"
    } else {
        "9"
    };
    proof {
        assert(r@ =~= seq![digit_char(d as nat)]);
    }
    r
}

/// Decimal rendering of a 64-bit unsigned integer.
pub fn u64_dec(n: u64) -> (r: String)
    ensures
        r@ == dec_digits(n as nat),
    decreases n,
{
    if n < 10 {
        digit_str(n as u8).to_owned()
    } else {
        let mut s = u64_dec(n / 10);
        s.append(digit_str((n % 10) as u8));
        s
    }
}

/// Decimal rendering of a 64-bit signed integer.
pub fn i64_dec(n: i64) -> (r: String)
    ensures
        r@ == int_digits(n as int),
{
    if n >= 0 {
        u64_dec(n as u64)
    } else {
        proof {
            reveal_strlit("-");
        }
        let mag128: i128 = -(n as i128);
        let mag: u64 = mag128 as u64;
        let mut s: String = "-".to_owned();
        proof {
            assert(s@ =~= seq!['-']);
        }
        let digits = u64_dec(mag);
        s.append(digits.as_str());
        s
    }
}

/// Renders a sequence of stored values, comma-and-space separated.
#[verifier::loop_isolation(false)]
fn values_text(elems: &Vec<ReflectValueBox>) -> (r: String)
    ensures
        r@ == values_render(crate::types::values_model(elems@)),
{
    broadcast use lemma_values_model;

    proof {
        reveal_strlit(", ");
    }
    let ghost vs = crate::types::values_model(elems@);
    let mut out = String::new();
    let mut i: usize = 0;
    while i < elems.len()
        invariant
            i <= elems.len(),
            out@ == values_render(vs.take(i as int)),
        decreases elems.len() - i,
    {
        if i > 0 {
            out.append(", ");
        }
        let piece = elems[i].render();
        out.append(piece.as_str());
        proof {
            lemma_values_render_step(vs, i as int);
            assert(vs[i as int] == crate::types::value_model(elems@[i as int]));
        }
        i += 1;
    }
    proof {
        assert(vs.take(elems@.len() as int) =~= vs);
    }
    out
}

/// Unfolds one step of `values_render` over a prefix.
proof fn lemma_values_render_step(vs: Seq<ValueModel>, i: int)
    requires
        0 <= i < vs.len(),
    ensures
        i == 0 ==> values_render(vs.take(1)) == value_render(vs[0]),
        i > 0 ==> values_render(vs.take(i + 1)) == values_render(vs.take(i)) + seq![',', ' ']
            + value_render(vs[i]),
{
    let pre = vs.take(i + 1);
    assert(pre.len() == i + 1);
    assert(pre.last() == vs[i]);
    assert(pre.drop_last() =~= vs.take(i));
    if i == 0 {
        assert(values_render(pre) == value_render(pre[0]));
    }
}

/// Unfolds one step of `bytes_render` over a prefix.
proof fn lemma_bytes_render_step(bs: Seq<u8>, i: int)
    requires
        0 <= i < bs.len(),
    ensures
        i == 0 ==> bytes_render(bs.take(1)) == dec_digits(bs[0] as nat),
        i > 0 ==> bytes_render(bs.take(i + 1)) == bytes_render(bs.take(i)) + seq![',', ' ']
            + dec_digits(bs[i] as nat),
{
    let pre = bs.take(i + 1);
    assert(pre.len() == i + 1);
    assert(pre.last() == bs[i]);
    assert(pre.drop_last() =~= bs.take(i));
    if i == 0 {
        assert(bytes_render(pre) == dec_digits(pre[0] as nat));
    }
}

impl ReflectValueBox {
    /// The value's rendering as text, exactly `value_render` of its model.
    #[verifier::loop_isolation(false)]
    pub fn render(&self) -> (r: String)
        ensures
            r@ == value_render(self@),
        decreases self,
    {
        match self {
            ReflectValueBox::Bool(b) => {
                proof {
                    reveal_strlit("true");
                    reveal_strlit("false");
                }
                if *b {
                    let s: String = "true".to_owned();
                    proof {
                        assert(s@ =~= seq!['t', 'r', 'u', 'e']);
                    }
                    s
                } else {
                    let s: String = "false".to_owned();
                    proof {
                        assert(s@ =~= seq!['f', 'a', 'l', 's', 'e']);
                    }
                    s
                }
            },
            ReflectValueBox::I32(x) => i64_dec(*x as i64),
            ReflectValueBox::I64(x) => i64_dec(*x),
            ReflectValueBox::U32(x) => u64_dec(*x as u64),
            ReflectValueBox::U64(x) => u64_dec(*x),
            ReflectValueBox::F32(bits) => u64_dec(*bits as u64),
            ReflectValueBox::F64(bits) => u64_dec(*bits),
            ReflectValueBox::Str(s) => {
                proof {
                    reveal_strlit("\"");
                }
                let mut out: String = "\"".to_owned();
                proof {
                    assert(out@ =~= seq!['"']);
                }
                out.append(s.as_str());
                out.append("\"");
                out
            },
            ReflectValueBox::Bytes(bs) => {
                proof {
                    reveal_strlit("[");
                    reveal_strlit("]");
                    reveal_strlit(", ");
                }
                let mut out: String = "[".to_owned();
                proof {
                    assert(out@ =~= seq!['[']);
                }
                let mut i: usize = 0;
                while i < bs.len()
                    invariant
                        i <= bs.len(),
                        out@ == seq!['['] + bytes_render(bs@.take(i as int)),
                    decreases bs.len() - i,
                {
                    if i > 0 {
                        out.append(", ");
                    }
                    let piece = u64_dec(bs[i] as u64);
                    out.append(piece.as_str());
                    proof {
                        lemma_bytes_render_step(bs@, i as int);
                    }
                    i += 1;
                }
                proof {
                    assert(bs@.take(bs@.len() as int) =~= bs@);
                }
                out.append("]");
                out
            },
            ReflectValueBox::Enum(_, n) => i64_dec(*n as i64),
            ReflectValueBox::Message(b) => b.descriptor.full_name.clone(),
        }
    }
}

impl RepeatedFieldRef {
    /// The view's rendering as text: the bracketed, comma-and-space-separated
    /// list of its elements' renderings.
    pub fn render(&self) -> (r: String)
        ensures
            r@ == repeated_render(self@),
    {
        proof {
            reveal_strlit("[");
            reveal_strlit("]");
        }
        let mut out: String = "[".to_owned();
        proof {
            assert(out@ =~= seq!['[']);
        }
        let inner = values_text(&self.elems);
        out.append(inner.as_str());
        out.append("]");
        out
    }
}

} // verus!
