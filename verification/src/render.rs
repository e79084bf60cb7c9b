//! Compact debug rendering.
//!
//! A rank-0 array of integer kind renders as a single bracketed scalar and
//! a rank-1 integer array of fewer than ten elements as a bracketed list;
//! everything else renders as a shape-and-kind summary only, so debug
//! output stays usable for large arrays.  Float elements are engine-level
//! bit patterns here, so float arrays render as a summary and host-side
//! pretty printing of their values is left to callers.

use vstd::prelude::*;
use crate::kind::{Kind, sext, sext_exec, is_int_kind, kind_is_int, elem_ok, supported_kind};
use crate::engine::{Engine, Tensor, buf_wf, eng_wf, numel_of};

verus! {

/// The decimal digit characters.
pub open spec fn digit_char(d: int) -> char {
    if d == 0 { '0' } else if d == 1 { '1' } else if d == 2 { '2' } else if d == 3 { '3' }
    else if d == 4 { '4' } else if d == 5 { '5' } else if d == 6 { '6' } else if d == 7 { '7' }
    else if d == 8 { '8' } else { '9' }
}

/// The decimal rendering of a non-negative integer.
pub open spec fn dec_str(n: int) -> Seq<char>
    decreases n,
{
    if n < 10 {
        seq![digit_char(n)]
    } else {
        dec_str(n / 10).push(digit_char(n % 10))
    }
}

/// The decimal rendering of a signed integer: a minus sign before the
/// magnitude when it is negative.
pub open spec fn dec_str_signed(v: int) -> Seq<char> {
    if v < 0 {
        seq!['-'] + dec_str(-v)
    } else {
        dec_str(v)
    }
}

/// The rendering of a rank-1 integer array's elements, comma-separated.
pub open spec fn list_str(k: Kind, data: Seq<u64>, t: int) -> Seq<char>
    decreases t,
{
    if t <= 0 {
        Seq::<char>::empty()
    } else if t == 1 {
        dec_str_signed(sext(k, data[0]))
    } else {
        list_str(k, data, t - 1) + seq![',', ' '] + dec_str_signed(sext(k, data[t - 1]))
    }
}

fn digit_of(d: u64) -> (s: &'static str)
    requires
        d < 10,
    ensures
        s@ == seq![digit_char(d as int)],
{
    proof {
        reveal_strlit("0");
        reveal_strlit("1");
        reveal_strlit("2");
        reveal_strlit("3");
        reveal_strlit("4");
        reveal_strlit("5");
        reveal_strlit("6");
        reveal_strlit("7");
        reveal_strlit("8");
        reveal_strlit("9");
    }
    let s = match d {
        0u64 => "0",
        1u64 => "1",
        2u64 => "2",
        3u64 => "3",
        4u64 => "4",
        5u64 => "5",
        6u64 => "6",
        7u64 => "7",
        8u64 => "8",
        _ => "9",
    };
    proof {
        assert(s@ =~= seq![digit_char(d as int)]);
    }
    s
}

fn render_u64(n: u64) -> (s: String)
    ensures
        s@ == dec_str(n as int),
    decreases n,
{
    if n < 10 {
        digit_of(n).to_owned()
    } else {
        let mut s = render_u64(n / 10);
        s.append(digit_of(n % 10));
        proof {
            assert(dec_str(n as int) =~= dec_str(n as int / 10) + seq![digit_char(n as int % 10)]);
        }
        s
    }
}

fn render_i128(v: i128) -> (s: String)
    requires
        -0x8000_0000_0000_0000 <= v < 0x8000_0000_0000_0000,
    ensures
        s@ == dec_str_signed(v as int),
{
    proof {
        reveal_strlit("-");
    }
    if v < 0 {
        let mut s = String::from_str("-");
        let mag: u64 = (-v) as u64;
        let rendered = render_u64(mag);
        s.append(rendered.as_str());
        proof {
            assert(s@ =~= dec_str_signed(v as int));
        }
        s
    } else {
        render_u64(v as u64)
    }
}

fn kind_name(k: Kind) -> (s: &'static str)
    ensures
        s@ == kind_name_str(k),
{
    proof {
        reveal_strlit("Uint8");
        reveal_strlit("Int8");
        reveal_strlit("Int16");
        reveal_strlit("Int");
        reveal_strlit("Int64");
        reveal_strlit("Half");
        reveal_strlit("Float");
        reveal_strlit("Double");
        reveal_strlit("ComplexHalf");
        reveal_strlit("ComplexFloat");
        reveal_strlit("ComplexDouble");
    }
    match k {
        Kind::Uint8 => "Uint8",
        Kind::Int8 => "Int8",
        Kind::Int16 => "Int16",
        Kind::Int => "Int",
        Kind::Int64 => "Int64",
        Kind::Half => "Half",
        Kind::Float => "Float",
        Kind::Double => "Double",
        Kind::ComplexHalf => "ComplexHalf",
        Kind::ComplexFloat => "ComplexFloat",
        Kind::ComplexDouble => "ComplexDouble",
    }
}

/// The name of an element kind, as the summary rendering prints it.
pub open spec fn kind_name_str(k: Kind) -> Seq<char> {
    match k {
        Kind::Uint8 => "Uint8"@,
        Kind::Int8 => "Int8"@,
        Kind::Int16 => "Int16"@,
        Kind::Int => "Int"@,
        Kind::Int64 => "Int64"@,
        Kind::Half => "Half"@,
        Kind::Float => "Float"@,
        Kind::Double => "Double"@,
        Kind::ComplexHalf => "ComplexHalf"@,
        Kind::ComplexFloat => "ComplexFloat"@,
        Kind::ComplexDouble => "ComplexDouble"@,
    }
}

impl Tensor {
    /// The compact debug rendering: a rank-0 integer array as a bracketed
    /// scalar, a rank-1 integer array of fewer than ten elements as a
    /// bracketed list, anything else as a shape-and-kind summary that never
    /// dumps the contents.
    pub fn debug_str(&self, eng: &Engine) -> (s: String)
        requires
            self.ok_in(eng@),
            eng_wf(eng@),
        ensures
            ({
                let b = self.buf_in(eng@);
                if is_int_kind(b.kind) && b.shape.len() == 0 {
                    s@ == seq!['['] + dec_str_signed(sext(b.kind, b.data[0])) + seq![']']
                } else if is_int_kind(b.kind) && b.shape.len() == 1 && b.shape[0] < 10 {
                    s@ == seq!['['] + list_str(b.kind, b.data, b.data.len() as int) + seq![']']
                } else {
                    s@.len() >= 7 && s@.subrange(0, 7) == "Tensor["@
                }
            }),
    {
        proof {
            assert(buf_wf(self.buf_in(eng@)));
            reveal_strlit("[");
            reveal_strlit("]");
            reveal_strlit(", ");
            reveal_strlit("Tensor[");
        }
        let ghost b = self.buf_in(eng@);
        let k = eng.buf_kind(self);
        let shape = eng.buf_shape(self);
        let data = eng.buf_data(self);
        if kind_is_int(k) && shape.len() == 0 {
            proof {
                assert(numel_of(b.shape) == 1);
            }
            let v = sext_exec(k, data[0]);
            let mut s = String::from_str("[");
            let rendered = render_i128(v);
            s.append(rendered.as_str());
            s.append("]");
            proof {
                assert(s@ =~= seq!['['] + dec_str_signed(sext(b.kind, b.data[0])) + seq![']']);
            }
            s
        } else if kind_is_int(k) && shape.len() == 1 && shape[0] < 10 {
            let mut s = String::from_str("[");
            proof {
                assert(s@ =~= seq!['['] + list_str(k, b.data, 0));
            }
            let mut i: usize = 0;
            while i < data.len()
                invariant
                    eng_wf(eng@),
                    self.ok_in(eng@),
                    b == self.buf_in(eng@),
                    data@ == b.data,
                    k == b.kind,
                    is_int_kind(k),
                    supported_kind(k),
                    forall|j: int| 0 <= j < data@.len() ==> elem_ok(k, #[trigger] data@[j]),
                    i <= data@.len(),
                    s@ == seq!['['] + list_str(k, b.data, i as int),
                decreases data@.len() - i,
            {
                proof {
                    reveal_strlit(", ");
                }
                if i > 0 {
                    s.append(", ");
                }
                let v = sext_exec(k, data[i]);
                let rendered = render_i128(v);
                s.append(rendered.as_str());
                proof {
                    assert(s@ =~= seq!['['] + list_str(k, b.data, i as int + 1));
                }
                i += 1;
            }
            s.append("]");
            proof {
                assert(s@ =~= seq!['['] + list_str(b.kind, b.data, b.data.len() as int)
                    + seq![']']);
            }
            s
        } else {
            proof {
                reveal_strlit("Tensor[[");
            }
            let mut s = String::from_str("Tensor[[");
            proof {
                assert(s@.subrange(0, 7) =~= "Tensor["@);
            }
            let mut i: usize = 0;
            while i < shape.len()
                invariant
                    self.ok_in(eng@),
                    shape@ == self.buf_in(eng@).shape,
                    i <= shape@.len(),
                    s@.len() >= 7,
                    s@.subrange(0, 7) == "Tensor["@,
                decreases shape@.len() - i,
            {
                proof {
                    reveal_strlit(", ");
                }
                if i > 0 {
                    s.append(", ");
                }
                let ghost pre = s@;
                let rendered = render_i128(shape[i] as i128);
                s.append(rendered.as_str());
                proof {
                    assert(s@.subrange(0, 7) =~= pre.subrange(0, 7));
                }
                i += 1;
            }
            proof {
                reveal_strlit("], ");
                reveal_strlit("]");
            }
            let ghost pre2 = s@;
            s.append("], ");
            s.append(kind_name(k));
            s.append("]");
            proof {
                assert(s@.subrange(0, 7) =~= pre2.subrange(0, 7));
            }
            s
        }
    }
}

} // verus!
