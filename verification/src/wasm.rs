use vstd::prelude::*;
use crate::util::{chars_of, dec_string, dec_text, string_of};
use crate::validate::{cnpj, cnpj_valid, cpf, cpf_valid};

verus! {

/// `value` in decimal, padded with leading zeros to `width` characters; never cut.
pub open spec fn padded(value: nat, width: nat) -> Seq<char> {
    let d = dec_text(value);
    if d.len() < width {
        Seq::new((width - d.len()) as nat, |i: int| '0') + d
    } else {
        d
    }
}

/// The verdict on a document handed over as a number and its width in digits:
/// 1 for a valid CPF (eleven digits), 2 for a valid CNPJ (fourteen), 0 otherwise,
/// including a width outside one to fourteen or a number too long for its width.
pub open spec fn number_verdict(value: u64, len: u32) -> u32 {
    let w = len as nat;
    if !(1 <= w <= 14) {
        0
    } else {
        let t = padded(value as nat, w);
        if t.len() != w {
            0
        } else if w == 11 && cpf_valid(t) {
            1
        } else if w == 14 && cnpj_valid(t) {
            2
        } else {
            0
        }
    }
}

/// Checks a CPF or CNPJ handed over as a number with its width in digits, leading zeros
/// being implied by the width.
pub fn validate(value: u64, len: u32) -> (r: u32)
    ensures
        r == number_verdict(value, len),
{
    let width = len as usize;
    if !(1 <= width && width <= 14) {
        return 0;
    }
    let text = dec_string(value);
    let d = chars_of(text.as_str());
    if d.len() > width {
        return 0;
    }
    let mut cs: Vec<char> = Vec::new();
    let pad = width - d.len();
    for i in 0..pad
        invariant
            cs@ == Seq::new(i as nat, |j: int| '0'),
    {
        cs.push('0');
        assert(cs@ =~= Seq::new((i + 1) as nat, |j: int| '0'));
    }
    let m = d.len();
    let ghost zs = cs@;
    for i in 0..m
        invariant
            m == d@.len(),
            cs@ == zs + d@.take(i as int),
    {
        cs.push(d[i]);
        assert(cs@ =~= zs + d@.take(i + 1));
    }
    assert(d@.take(m as int) =~= d@);
    assert(cs@ =~= padded(value as nat, width as nat));
    let padded_text = string_of(cs.as_slice());
    if width == 11 && cpf(padded_text.as_str()) {
        1
    } else if width == 14 && cnpj(padded_text.as_str()) {
        2
    } else {
        0
    }
}

} // verus!
