use vstd::prelude::*;
use crate::util::{chars_of, digits, digits_of, is_digit};

verus! {

/// The value of a decimal digit character.
pub open spec fn digit_value(c: char) -> int {
    c as int - '0' as int
}

/// `sum over i < k of digit_value(d[i]) * w[i]`.
pub open spec fn weighted(d: Seq<char>, w: Seq<int>, k: int) -> int
    decreases k,
{
    if k <= 0 {
        0
    } else {
        weighted(d, w, k - 1) + digit_value(d[k - 1]) * w[k - 1]
    }
}

/// Every character of `d` is the same as the first one.
pub open spec fn all_same(d: Seq<char>) -> bool {
    forall|i: int| 0 <= i < d.len() ==> #[trigger] d[i] == d[0]
}

/// CPF weights for the check digit at position `len`: `len + 1` down to 2.
pub open spec fn cpf_weights(len: int) -> Seq<int> {
    Seq::new(len as nat, |i: int| len + 1 - i)
}

/// The CPF check digit computed from the first `len` digits of `d`.
pub open spec fn cpf_check(d: Seq<char>, len: int) -> int {
    let r = (weighted(d, cpf_weights(len), len) * 10) % 11;
    if r == 10 {
        0
    } else {
        r
    }
}

/// A CPF given by its digits alone: eleven of them, not all equal, both check digits right.
pub open spec fn cpf_digits_valid(d: Seq<char>) -> bool {
    &&& d.len() == 11
    &&& !all_same(d)
    &&& cpf_check(d, 9) == digit_value(d[9])
    &&& cpf_check(d, 10) == digit_value(d[10])
}

/// A CPF as written by a user: its digits, all other characters ignored, form a valid CPF.
pub open spec fn cpf_valid(s: Seq<char>) -> bool {
    cpf_digits_valid(digits_of(s))
}

/// CNPJ weights for the first check digit.
pub open spec fn cnpj_weights_first() -> Seq<int> {
    seq![5int, 4, 3, 2, 9, 8, 7, 6, 5, 4, 3, 2]
}

/// CNPJ weights for the second check digit.
pub open spec fn cnpj_weights_second() -> Seq<int> {
    seq![6int, 5, 4, 3, 2, 9, 8, 7, 6, 5, 4, 3, 2]
}

/// The CNPJ check digit computed from the digits of `d` under weights `w`.
pub open spec fn cnpj_check(d: Seq<char>, w: Seq<int>) -> int {
    let r = weighted(d, w, w.len() as int) % 11;
    if r < 2 {
        0
    } else {
        11 - r
    }
}

/// A CNPJ given by its digits alone: fourteen of them, not all equal, both check digits right.
pub open spec fn cnpj_digits_valid(d: Seq<char>) -> bool {
    &&& d.len() == 14
    &&& !all_same(d)
    &&& cnpj_check(d, cnpj_weights_first()) == digit_value(d[12])
    &&& cnpj_check(d, cnpj_weights_second()) == digit_value(d[13])
}

/// A CNPJ as written by a user: its digits, all other characters ignored, form a valid CNPJ.
pub open spec fn cnpj_valid(s: Seq<char>) -> bool {
    cnpj_digits_valid(digits_of(s))
}

proof fn lemma_digits_of_are_digits(s: Seq<char>)
    ensures
        forall|i: int| 0 <= i < digits_of(s).len() ==> is_digit(#[trigger] digits_of(s)[i]),
{
    assert forall|i: int| 0 <= i < digits_of(s).len() implies is_digit(#[trigger] digits_of(s)[i]) by {
        s.lemma_filter_pred(|c: char| is_digit(c), i);
    }
}

/// Whether every digit equals the first one.
fn all_equal(d: &Vec<char>) -> (r: bool)
    requires
        d@.len() > 0,
    ensures
        r == all_same(d@),
{
    let n = d.len();
    let first = d[0];
    for i in 0..n
        invariant
            n == d@.len(),
            first == d@[0],
            forall|j: int| 0 <= j < i ==> d@[j] == first,
    {
        if d[i] != first {
            return false;
        }
    }
    true
}

/// The weighted sum of the first `w.len()` digits of `d`.
fn weighted_sum(d: &Vec<char>, w: &Vec<u32>) -> (s: u32)
    requires
        w@.len() <= d@.len(),
        w@.len() <= 14,
        forall|i: int| 0 <= i < d@.len() ==> is_digit(#[trigger] d@[i]),
        forall|i: int| 0 <= i < w@.len() ==> #[trigger] w@[i] <= 11,
    ensures
        s == weighted(d@, w@.map_values(|x: u32| x as int), w@.len() as int),
        s <= 99 * w@.len(),
{
    let ghost wi = w@.map_values(|x: u32| x as int);
    let n = w.len();
    let mut s: u32 = 0;
    for i in 0..n
        invariant
            n == w@.len(),
            n <= d@.len(),
            n <= 14,
            wi == w@.map_values(|x: u32| x as int),
            forall|i: int| 0 <= i < d@.len() ==> is_digit(#[trigger] d@[i]),
            forall|i: int| 0 <= i < w@.len() ==> #[trigger] w@[i] <= 11,
            s == weighted(d@, wi, i as int),
            s <= 99 * i,
    {
        let c = d[i];
        assert(is_digit(d@[i as int]));
        let v: u32 = (c as u32) - ('0' as u32);
        let wt: u32 = w[i];
        assert(wt <= 11);
        assert(v * wt <= 99) by (nonlinear_arith)
            requires
                v <= 9,
                wt <= 11,
        ;
        s = s + v * wt;
    }
    s
}

fn cpf_weight_vec(len: u32) -> (w: Vec<u32>)
    requires
        len <= 10,
    ensures
        w@.map_values(|x: u32| x as int) == cpf_weights(len as int),
        w@.len() == len,
        forall|i: int| 0 <= i < w@.len() ==> #[trigger] w@[i] <= 11,
{
    let mut w: Vec<u32> = Vec::new();
    for i in 0..len
        invariant
            len <= 10,
            w@.len() == i,
            forall|j: int| 0 <= j < i ==> #[trigger] w@[j] == len + 1 - j,
    {
        w.push(len + 1 - i);
    }
    assert(w@.map_values(|x: u32| x as int) =~= cpf_weights(len as int));
    w
}

/// Whether `input` holds a valid CPF: its digits (other characters are ignored) are eleven,
/// not all equal, and end in the two check digits that the first nine and ten determine.
pub fn cpf(input: &str) -> (valid: bool)
    ensures
        valid == cpf_valid(input@),
{
    let ds = digits(input);
    let d = chars_of(ds.as_str());
    proof {
        lemma_digits_of_are_digits(input@);
    }
    if d.len() != 11 {
        return false;
    }
    if all_equal(&d) {
        return false;
    }
    let mut len: u32 = 9;
    while len <= 10
        invariant
            9 <= len <= 11,
            d@ == digits_of(input@),
            d@.len() == 11,
            forall|i: int| 0 <= i < d@.len() ==> is_digit(#[trigger] d@[i]),
            len >= 10 ==> cpf_check(d@, 9) == digit_value(d@[9]),
            len >= 11 ==> cpf_check(d@, 10) == digit_value(d@[10]),
        decreases 11 - len,
    {
        let w = cpf_weight_vec(len);
        let sum = weighted_sum(&d, &w);
        let mut dv = (sum * 10) % 11;
        if dv == 10 {
            dv = 0;
        }
        let c = d[len as usize];
        assert(is_digit(d@[len as int]));
        if dv != (c as u32) - ('0' as u32) {
            return false;
        }
        len = len + 1;
    }
    true
}

fn cnpj_check_digit(d: &Vec<char>, w: &Vec<u32>) -> (r: u32)
    requires
        w@.len() <= d@.len(),
        w@.len() <= 14,
        forall|i: int| 0 <= i < d@.len() ==> is_digit(#[trigger] d@[i]),
        forall|i: int| 0 <= i < w@.len() ==> #[trigger] w@[i] <= 11,
    ensures
        r == cnpj_check(d@, w@.map_values(|x: u32| x as int)),
{
    let sum = weighted_sum(d, w);
    let r = sum % 11;
    if r < 2 {
        0
    } else {
        11 - r
    }
}

/// Whether `input` holds a valid CNPJ: its digits (other characters are ignored) are fourteen,
/// not all equal, and end in the two check digits that the weighted sums determine.
pub fn cnpj(input: &str) -> (valid: bool)
    ensures
        valid == cnpj_valid(input@),
{
    let ds = digits(input);
    let d = chars_of(ds.as_str());
    proof {
        lemma_digits_of_are_digits(input@);
    }
    if d.len() != 14 {
        return false;
    }
    if all_equal(&d) {
        return false;
    }
    let w1: Vec<u32> = vec![5, 4, 3, 2, 9, 8, 7, 6, 5, 4, 3, 2];
    let w2: Vec<u32> = vec![6, 5, 4, 3, 2, 9, 8, 7, 6, 5, 4, 3, 2];
    assert(w1@.map_values(|x: u32| x as int) =~= cnpj_weights_first());
    assert(w2@.map_values(|x: u32| x as int) =~= cnpj_weights_second());
    let first = cnpj_check_digit(&d, &w1);
    let second = cnpj_check_digit(&d, &w2);
    assert(is_digit(d@[12]));
    assert(is_digit(d@[13]));
    first == (d[12] as u32) - ('0' as u32) && second == (d[13] as u32) - ('0' as u32)
}


/// A document checked offline: its digits, what it is taken for, and whether it is valid.
pub struct DocumentCheck {
    pub document: String,
    pub kind: &'static str,
    pub valid: bool,
}

/// What a document is taken for by its digit count, and whether it is valid as that:
/// eleven digits are a CPF, fourteen a CNPJ, any other count is unknown and invalid.
pub open spec fn document_verdict(doc: Seq<char>) -> (Seq<char>, bool) {
    let n = digits_of(doc).len();
    if n == 11 {
        ("cpf"@, cpf_valid(doc))
    } else if n == 14 {
        ("cnpj"@, cnpj_valid(doc))
    } else {
        ("unknown"@, false)
    }
}

/// Checks the check digits of a CPF or CNPJ.
pub fn check_document(doc: &str) -> (r: DocumentCheck)
    ensures
        r.document@ == digits_of(doc@),
        (r.kind@, r.valid) == document_verdict(doc@),
{
    let cleaned = digits(doc);
    let n = cleaned.as_str().unicode_len();
    let (kind, valid) = if n == 11 {
        ("cpf", cpf(doc))
    } else if n == 14 {
        ("cnpj", cnpj(doc))
    } else {
        ("unknown", false)
    };
    DocumentCheck { document: cleaned, kind, valid }
}


proof fn lemma_digits_of_idempotent(s: Seq<char>)
    ensures
        digits_of(digits_of(s)) == digits_of(s),
    decreases s.len(),
{
    let p = |c: char| is_digit(c);
    if s.len() > 0 {
        let t = s.drop_last();
        lemma_digits_of_idempotent(t);
        assert(s == t.push(s.last()));
        t.lemma_filter_push(s.last(), p);
        if is_digit(s.last()) {
            t.filter(p).lemma_filter_push(s.last(), p);
        }
    } else {
        reveal(Seq::filter);
    }
}

/// Formatting does not matter: a document is valid exactly when its bare digits are.
pub proof fn lemma_validity_ignores_formatting(s: Seq<char>)
    ensures
        cpf_valid(s) == cpf_valid(digits_of(s)),
        cnpj_valid(s) == cnpj_valid(digits_of(s)),
{
    lemma_digits_of_idempotent(s);
}

/// A document whose digits are all the same is never valid, whatever its check digits.
pub proof fn lemma_repeated_digits_invalid(s: Seq<char>)
    requires
        all_same(digits_of(s)),
    ensures
        !cpf_valid(s),
        !cnpj_valid(s),
{
}

/// The weighted sum of the first `k` digits looks at those digits only.
proof fn lemma_weighted_prefix(d: Seq<char>, e: Seq<char>, w: Seq<int>, k: int)
    requires
        0 <= k <= d.len(),
        k <= e.len(),
        forall|i: int| 0 <= i < k ==> d[i] == e[i],
    ensures
        weighted(d, w, k) == weighted(e, w, k),
    decreases k,
{
    if k > 0 {
        lemma_weighted_prefix(d, e, w, k - 1);
    }
}

/// The digit character of a value below ten.
pub open spec fn digit_of(v: int) -> char {
    ('0' as int + v) as char
}

/// Appending the check digits that a base computes gives a valid document: for nine
/// digits, not all the same, followed by the two CPF check digits, a CPF.
pub proof fn lemma_cpf_check_digits_complete(base: Seq<char>)
    requires
        base.len() == 9,
        forall|i: int| 0 <= i < 9 ==> is_digit(#[trigger] base[i]),
        !all_same(base),
    ensures
        ({
            let first = base.push(digit_of(cpf_check(base, 9)));
            let full = first.push(digit_of(cpf_check(first, 10)));
            cpf_digits_valid(full)
        }),
{
    let first = base.push(digit_of(cpf_check(base, 9)));
    let full = first.push(digit_of(cpf_check(first, 10)));
    lemma_weighted_prefix(base, full, cpf_weights(9), 9);
    lemma_weighted_prefix(first, full, cpf_weights(10), 10);
    let c1 = cpf_check(base, 9);
    let c2 = cpf_check(first, 10);
    assert(0 <= c1 < 10 && 0 <= c2 < 10);
    assert(digit_value(digit_of(c1)) == c1);
    assert(digit_value(digit_of(c2)) == c2);
    assert(full[9] == digit_of(c1) && full[10] == digit_of(c2));
    assert(!all_same(full)) by {
        let i = choose|i: int| 0 <= i < base.len() && #[trigger] base[i] != base[0];
        assert(full[i] == base[i] && full[0] == base[0]);
    }
}

/// Likewise for a CNPJ: twelve digits, not all the same, followed by its two check digits.
pub proof fn lemma_cnpj_check_digits_complete(base: Seq<char>)
    requires
        base.len() == 12,
        forall|i: int| 0 <= i < 12 ==> is_digit(#[trigger] base[i]),
        !all_same(base),
    ensures
        ({
            let first = base.push(digit_of(cnpj_check(base, cnpj_weights_first())));
            let full = first.push(digit_of(cnpj_check(first, cnpj_weights_second())));
            cnpj_digits_valid(full)
        }),
{
    let first = base.push(digit_of(cnpj_check(base, cnpj_weights_first())));
    let full = first.push(digit_of(cnpj_check(first, cnpj_weights_second())));
    lemma_weighted_prefix(base, full, cnpj_weights_first(), 12);
    lemma_weighted_prefix(first, full, cnpj_weights_second(), 13);
    let c1 = cnpj_check(base, cnpj_weights_first());
    let c2 = cnpj_check(first, cnpj_weights_second());
    assert(0 <= c1 < 10 && 0 <= c2 < 10);
    assert(digit_value(digit_of(c1)) == c1);
    assert(digit_value(digit_of(c2)) == c2);
    assert(full[12] == digit_of(c1) && full[13] == digit_of(c2));
    assert(!all_same(full)) by {
        let i = choose|i: int| 0 <= i < base.len() && #[trigger] base[i] != base[0];
        assert(full[i] == base[i] && full[0] == base[0]);
    }
}

/// A digit character is the digit of its own value.
proof fn lemma_digit_round_trip(c: char)
    requires
        is_digit(c),
    ensures
        digit_of(digit_value(c)) == c,
        0 <= digit_value(c) < 10,
{
    assert(('0' as int + (c as int - '0' as int)) == c as int);
}

/// The weighted sum of `k` digits that all have the value `v`: `v` times the sum of the weights.
pub open spec fn weight_total(w: Seq<int>, k: int) -> int
    decreases k,
{
    if k <= 0 {
        0
    } else {
        weight_total(w, k - 1) + w[k - 1]
    }
}

proof fn lemma_weighted_same(d: Seq<char>, w: Seq<int>, k: int, v: int)
    requires
        0 <= k <= d.len(),
        forall|i: int| 0 <= i < k ==> digit_value(#[trigger] d[i]) == v,
    ensures
        weighted(d, w, k) == v * weight_total(w, k),
    decreases k,
{
    if k > 0 {
        lemma_weighted_same(d, w, k - 1, v);
        assert(v * weight_total(w, k - 1) + v * w[k - 1] == v * (weight_total(w, k - 1) + w[k - 1]))
            by (nonlinear_arith);
    }
}

/// The CPF check digit of digits that are all the same is that digit again.
proof fn lemma_cpf_check_same(d: Seq<char>, len: int, v: int)
    requires
        len == 9 || len == 10,
        len <= d.len(),
        0 <= v < 10,
        forall|i: int| 0 <= i < len ==> digit_value(#[trigger] d[i]) == v,
    ensures
        cpf_check(d, len) == v,
{
    lemma_weighted_same(d, cpf_weights(len), len, v);
    reveal_with_fuel(weight_total, 11);
    let w = cpf_weights(len);
    if len == 9 {
        assert(weight_total(w, 9) == 54);
        assert((v * 54 * 10) % 11 == v) by (nonlinear_arith)
            requires 0 <= v < 10;
    } else {
        assert(weight_total(w, 10) == 65);
        assert((v * 65 * 10) % 11 == v) by (nonlinear_arith)
            requires 0 <= v < 10;
    }
}

/// The CPF check digits are the only ones: nine digits followed by two more form a valid CPF
/// exactly when the nine are not all the same and the two are the check digits that they
/// compute. So for nine digits that are not all equal exactly one pair completes a CPF, and
/// for nine equal digits none does.
pub proof fn lemma_cpf_check_digits_unique(base: Seq<char>, d1: char, d2: char)
    requires
        base.len() == 9,
        forall|i: int| 0 <= i < 9 ==> is_digit(#[trigger] base[i]),
        is_digit(d1),
        is_digit(d2),
    ensures
        cpf_digits_valid(base.push(d1).push(d2)) <==> (!all_same(base) && d1 == digit_of(
            cpf_check(base, 9),
        ) && d2 == digit_of(cpf_check(base.push(d1), 10))),
{
    let first = base.push(d1);
    let full = first.push(d2);
    lemma_weighted_prefix(base, full, cpf_weights(9), 9);
    lemma_weighted_prefix(first, full, cpf_weights(10), 10);
    let c1 = cpf_check(base, 9);
    let c2 = cpf_check(first, 10);
    assert(0 <= c1 < 10 && 0 <= c2 < 10);
    assert(full[9] == d1 && full[10] == d2);
    lemma_digit_round_trip(d1);
    lemma_digit_round_trip(d2);
    assert(digit_value(digit_of(c1)) == c1);
    assert(digit_value(digit_of(c2)) == c2);
    if !all_same(base) {
        assert(!all_same(full)) by {
            let i = choose|i: int| 0 <= i < base.len() && #[trigger] base[i] != base[0];
            assert(full[i] == base[i] && full[0] == base[0]);
        }
    } else {
        let v = digit_value(base[0]);
        lemma_digit_round_trip(base[0]);
        assert forall|i: int| 0 <= i < 9 implies digit_value(#[trigger] full[i]) == v by {
            assert(full[i] == base[i] && base[i] == base[0]);
        }
        lemma_cpf_check_same(full, 9, v);
        if digit_value(d1) == c1 {
            assert(d1 == base[0]);
            assert forall|i: int| 0 <= i < 10 implies digit_value(#[trigger] full[i]) == v by {
                if i < 9 {
                    assert(full[i] == base[i] && base[i] == base[0]);
                }
            }
            lemma_cpf_check_same(full, 10, v);
            if digit_value(d2) == c2 {
                assert(d2 == base[0]);
                assert(all_same(full)) by {
                    assert forall|i: int| 0 <= i < full.len() implies #[trigger] full[i] == full[0] by {
                        if i < 9 {
                            assert(full[i] == base[i] && base[i] == base[0]);
                        }
                    }
                }
            }
        }
    }
}

/// The CNPJ check digits are the only ones: twelve digits followed by two more form a valid
/// CNPJ only when the two are the check digits that the twelve compute.
pub proof fn lemma_cnpj_check_digits_unique(base: Seq<char>, d1: char, d2: char)
    requires
        base.len() == 12,
        is_digit(d1),
        is_digit(d2),
        cnpj_digits_valid(base.push(d1).push(d2)),
    ensures
        d1 == digit_of(cnpj_check(base, cnpj_weights_first())),
        d2 == digit_of(cnpj_check(base.push(d1), cnpj_weights_second())),
{
    let first = base.push(d1);
    let full = first.push(d2);
    lemma_weighted_prefix(base, full, cnpj_weights_first(), 12);
    lemma_weighted_prefix(first, full, cnpj_weights_second(), 13);
    assert(full[12] == d1 && full[13] == d2);
    lemma_digit_round_trip(d1);
    lemma_digit_round_trip(d2);
}

/// One more digit in a weighted sum adds that digit times its weight.
proof fn lemma_weighted_step(d: Seq<char>, w: Seq<int>, k: int, c: int)
    requires
        0 <= k < w.len(),
        w[k] == c,
    ensures
        weighted(d, w, k + 1) == weighted(d, w, k) + c * digit_value(d[k]),
{
    assert(digit_value(d[k]) * w[k] == c * digit_value(d[k])) by (nonlinear_arith)
        requires
            w[k] == c,
    ;
}

/// What a valid CPF is, in plain arithmetic over its digits d0 to d10 (all other characters
/// ignored): there are eleven, not all equal, and each check digit is ten times the weighted
/// sum of the digits before it, modulo 11, modulo 10, so that a remainder of 10 gives check
/// digit 0. The first weighs d0..d8 by 10 down to 2, the second d0..d9 by 11 down to 2.
pub proof fn lemma_cpf_arithmetic(s: Seq<char>)
    ensures
        cpf_valid(s) <==> ({
            let d = digits_of(s);
            &&& d.len() == 11
            &&& exists|i: int| 0 <= i < 11 && #[trigger] d[i] != d[0]
            &&& ((10 * digit_value(d[0]) + 9 * digit_value(d[1]) + 8 * digit_value(d[2]) + 7
                * digit_value(d[3]) + 6 * digit_value(d[4]) + 5 * digit_value(d[5]) + 4
                * digit_value(d[6]) + 3 * digit_value(d[7]) + 2 * digit_value(d[8])) * 10 % 11)
                % 10 == digit_value(d[9])
            &&& ((11 * digit_value(d[0]) + 10 * digit_value(d[1]) + 9 * digit_value(d[2]) + 8
                * digit_value(d[3]) + 7 * digit_value(d[4]) + 6 * digit_value(d[5]) + 5
                * digit_value(d[6]) + 4 * digit_value(d[7]) + 3 * digit_value(d[8]) + 2
                * digit_value(d[9])) * 10 % 11) % 10 == digit_value(d[10])
        }),
{
    let d = digits_of(s);
    if d.len() == 11 {
        let w9 = cpf_weights(9);
        let w10 = cpf_weights(10);
        assert(w9[0] == 10 && w9[1] == 9 && w9[2] == 8 && w9[3] == 7 && w9[4] == 6 && w9[5] == 5
            && w9[6] == 4 && w9[7] == 3 && w9[8] == 2);
        assert(w10[0] == 11 && w10[1] == 10 && w10[2] == 9 && w10[3] == 8 && w10[4] == 7 && w10[5]
            == 6 && w10[6] == 5 && w10[7] == 4 && w10[8] == 3 && w10[9] == 2);
        lemma_weighted_step(d, w9, 0, 10);
        lemma_weighted_step(d, w9, 1, 9);
        lemma_weighted_step(d, w9, 2, 8);
        lemma_weighted_step(d, w9, 3, 7);
        lemma_weighted_step(d, w9, 4, 6);
        lemma_weighted_step(d, w9, 5, 5);
        lemma_weighted_step(d, w9, 6, 4);
        lemma_weighted_step(d, w9, 7, 3);
        lemma_weighted_step(d, w9, 8, 2);
        lemma_weighted_step(d, w10, 0, 11);
        lemma_weighted_step(d, w10, 1, 10);
        lemma_weighted_step(d, w10, 2, 9);
        lemma_weighted_step(d, w10, 3, 8);
        lemma_weighted_step(d, w10, 4, 7);
        lemma_weighted_step(d, w10, 5, 6);
        lemma_weighted_step(d, w10, 6, 5);
        lemma_weighted_step(d, w10, 7, 4);
        lemma_weighted_step(d, w10, 8, 3);
        lemma_weighted_step(d, w10, 9, 2);
        let r9 = (weighted(d, w9, 9) * 10) % 11;
        let r10 = (weighted(d, w10, 10) * 10) % 11;
        assert(0 <= r9 < 11 && 0 <= r10 < 11);
        assert(cpf_check(d, 9) == r9 % 10);
        assert(cpf_check(d, 10) == r10 % 10);
        if !all_same(d) {
            let i = choose|i: int| 0 <= i < d.len() && !(#[trigger] d[i] == d[0]);
            assert(d[i] != d[0]);
        }
    }
}

/// What a valid CNPJ is, in plain arithmetic over its digits d0 to d13 (all other characters
/// ignored): there are fourteen, not all equal, and each check digit comes from the weighted
/// sum of the digits before it modulo 11: a remainder of 0 or 1 gives check digit 0, any other
/// remainder r gives 11 - r. The first weighs d0..d11 by 5, 4, 3, 2, 9, 8, 7, 6, 5, 4, 3, 2;
/// the second weighs d0..d12 by 6, 5, 4, 3, 2, 9, 8, 7, 6, 5, 4, 3, 2.
pub proof fn lemma_cnpj_arithmetic(s: Seq<char>)
    ensures
        cnpj_valid(s) <==> ({
            let d = digits_of(s);
            let s1 = 5 * digit_value(d[0]) + 4 * digit_value(d[1]) + 3 * digit_value(d[2]) + 2
                * digit_value(d[3]) + 9 * digit_value(d[4]) + 8 * digit_value(d[5]) + 7
                * digit_value(d[6]) + 6 * digit_value(d[7]) + 5 * digit_value(d[8]) + 4
                * digit_value(d[9]) + 3 * digit_value(d[10]) + 2 * digit_value(d[11]);
            let s2 = 6 * digit_value(d[0]) + 5 * digit_value(d[1]) + 4 * digit_value(d[2]) + 3
                * digit_value(d[3]) + 2 * digit_value(d[4]) + 9 * digit_value(d[5]) + 8
                * digit_value(d[6]) + 7 * digit_value(d[7]) + 6 * digit_value(d[8]) + 5
                * digit_value(d[9]) + 4 * digit_value(d[10]) + 3 * digit_value(d[11]) + 2
                * digit_value(d[12]);
            &&& d.len() == 14
            &&& exists|i: int| 0 <= i < 14 && #[trigger] d[i] != d[0]
            &&& digit_value(d[12]) == (if s1 % 11 < 2 { 0 } else { 11 - s1 % 11 })
            &&& digit_value(d[13]) == (if s2 % 11 < 2 { 0 } else { 11 - s2 % 11 })
        }),
{
    let d = digits_of(s);
    if d.len() == 14 {
        let w1 = cnpj_weights_first();
        let w2 = cnpj_weights_second();
        assert(w1.len() == 12 && w2.len() == 13);
        assert(w1[0] == 5 && w1[1] == 4 && w1[2] == 3 && w1[3] == 2 && w1[4] == 9 && w1[5] == 8
            && w1[6] == 7 && w1[7] == 6 && w1[8] == 5 && w1[9] == 4 && w1[10] == 3 && w1[11] == 2);
        assert(w2[0] == 6 && w2[1] == 5 && w2[2] == 4 && w2[3] == 3 && w2[4] == 2 && w2[5] == 9
            && w2[6] == 8 && w2[7] == 7 && w2[8] == 6 && w2[9] == 5 && w2[10] == 4 && w2[11] == 3
            && w2[12] == 2);
        lemma_weighted_step(d, w1, 0, 5);
        lemma_weighted_step(d, w1, 1, 4);
        lemma_weighted_step(d, w1, 2, 3);
        lemma_weighted_step(d, w1, 3, 2);
        lemma_weighted_step(d, w1, 4, 9);
        lemma_weighted_step(d, w1, 5, 8);
        lemma_weighted_step(d, w1, 6, 7);
        lemma_weighted_step(d, w1, 7, 6);
        lemma_weighted_step(d, w1, 8, 5);
        lemma_weighted_step(d, w1, 9, 4);
        lemma_weighted_step(d, w1, 10, 3);
        lemma_weighted_step(d, w1, 11, 2);
        lemma_weighted_step(d, w2, 0, 6);
        lemma_weighted_step(d, w2, 1, 5);
        lemma_weighted_step(d, w2, 2, 4);
        lemma_weighted_step(d, w2, 3, 3);
        lemma_weighted_step(d, w2, 4, 2);
        lemma_weighted_step(d, w2, 5, 9);
        lemma_weighted_step(d, w2, 6, 8);
        lemma_weighted_step(d, w2, 7, 7);
        lemma_weighted_step(d, w2, 8, 6);
        lemma_weighted_step(d, w2, 9, 5);
        lemma_weighted_step(d, w2, 10, 4);
        lemma_weighted_step(d, w2, 11, 3);
        lemma_weighted_step(d, w2, 12, 2);
        assert(cnpj_check(d, w1) == (if weighted(d, w1, 12) % 11 < 2 { 0 } else { 11 - weighted(d, w1, 12) % 11 }));
        assert(cnpj_check(d, w2) == (if weighted(d, w2, 13) % 11 < 2 { 0 } else { 11 - weighted(d, w2, 13) % 11 }));
        if !all_same(d) {
            let i = choose|i: int| 0 <= i < d.len() && !(#[trigger] d[i] == d[0]);
            assert(d[i] != d[0]);
        }
    }
}

} // verus!
