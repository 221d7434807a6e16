use vstd::prelude::*;

verus! {

/// An ASCII decimal digit, as `char::is_ascii_digit` decides.
pub open spec fn is_digit(c: char) -> bool {
    '0' <= c && c <= '9'
}

/// The decimal digits of `s`, in their order, every other character dropped.
pub open spec fn digits_of(s: Seq<char>) -> Seq<char> {
    s.filter(|c: char| is_digit(c))
}

/// The characters of `s`, in order.
pub fn chars_of(s: &str) -> (v: Vec<char>)
    ensures
        v@ == s@,
{
    let mut v: Vec<char> = Vec::new();
    for c in it: s.chars()
        invariant
            v@ == it.seq().take(it.index() as int),
    {
        v.push(c);
    }
    v
}

/// Appends one character with `String::push`: the text grows by exactly that character.
#[verifier::external_body]
pub(crate) fn push_char(s: &mut String, c: char)
    ensures
        final(s)@ == old(s)@.push(c),
{
    s.push(c)
}

/// A `String` holding the characters of `v`, in order.
pub fn string_of(v: &[char]) -> (s: String)
    ensures
        s@ == v@,
{
    let mut s = String::new();
    let n = v.len();
    for i in 0..n
        invariant
            n == v@.len(),
            s@ == v@.take(i as int),
    {
        push_char(&mut s, v[i]);
        assert(v@.take(i + 1) == v@.take(i as int).push(v@[i as int]));
    }
    assert(v@.take(n as int) == v@);
    s
}

/// The decimal digits of `input`, in order, with every other character removed.
pub fn digits(input: &str) -> (r: String)
    ensures
        r@ == digits_of(input@),
{
    let cs = chars_of(input);
    let mut r = String::new();
    let n = cs.len();
    for i in 0..n
        invariant
            n == cs@.len(),
            cs@ == input@,
            r@ == digits_of(cs@.take(i as int)),
    {
        let c = cs[i];
        proof {
            assert(cs@.take(i + 1) == cs@.take(i as int).push(c));
            cs@.take(i as int).lemma_filter_push(c, |c: char| is_digit(c));
        }
        if '0' <= c && c <= '9' {
            push_char(&mut r, c);
        }
    }
    assert(cs@.take(n as int) == cs@);
    r
}


/// The character of a digit value below sixteen, lower case beyond nine.
pub open spec fn digit_char(d: int) -> char {
    if d < 10 {
        ('0' as int + d) as char
    } else {
        ('a' as int + d - 10) as char
    }
}

/// `n` written in base `radix` (ten or sixteen), without leading zeros; `0` for zero.
pub open spec fn radix_text(n: nat, radix: nat) -> Seq<char>
    decreases n,
{
    if n < radix || radix < 2 {
        seq![digit_char(n as int)]
    } else {
        proof {
            assert(n / radix < n) by (nonlinear_arith)
                requires
                    n >= radix,
                    radix >= 2,
            ;
        }
        radix_text(n / radix, radix).push(digit_char((n % radix) as int))
    }
}

/// `n` in decimal, as `Display` writes it.
pub open spec fn dec_text(n: nat) -> Seq<char> {
    radix_text(n, 10)
}

/// `n` in lower-case hexadecimal, as `LowerHex` writes it.
pub open spec fn hex_text(n: nat) -> Seq<char> {
    radix_text(n, 16)
}

fn digit_to_char(d: u32) -> (c: char)
    requires
        d < 16,
    ensures
        c == digit_char(d as int),
{
    if d < 10 {
        let b: u8 = 48u8 + (d as u8);
        b as char
    } else {
        let b: u8 = 97u8 + ((d - 10) as u8);
        b as char
    }
}

/// Appends `n` written in base `radix`.
pub fn push_radix(out: &mut String, n: u64, radix: u64)
    requires
        radix == 10 || radix == 16,
    ensures
        final(out)@ == old(out)@ + radix_text(n as nat, radix as nat),
    decreases n,
{
    if n >= radix {
        push_radix(out, n / radix, radix);
    }
    let c = digit_to_char((n % radix) as u32);
    push_char(out, c);
}

/// `n` in decimal.
pub fn dec_string(n: u64) -> (s: String)
    ensures
        s@ == dec_text(n as nat),
{
    let mut s = String::new();
    push_radix(&mut s, n, 10);
    assert(s@ =~= dec_text(n as nat));
    s
}


/// White space as `char::is_whitespace` decides it (the Unicode `White_Space` property).
pub open spec fn is_space(c: char) -> bool {
    ||| c == ' '
    ||| ('\t' <= c && c <= '\r')
    ||| c == '\u{85}'
    ||| c == '\u{a0}'
    ||| c == '\u{1680}'
    ||| ('\u{2000}' <= c && c <= '\u{200a}')
    ||| c == '\u{2028}'
    ||| c == '\u{2029}'
    ||| c == '\u{202f}'
    ||| c == '\u{205f}'
    ||| c == '\u{3000}'
}

/// Whether `c` is white space.
pub fn space(c: char) -> (r: bool)
    ensures
        r == is_space(c),
{
    c == ' ' || ('\t' <= c && c <= '\r') || c == '\u{85}' || c == '\u{a0}' || c == '\u{1680}' || (
    '\u{2000}' <= c && c <= '\u{200a}') || c == '\u{2028}' || c == '\u{2029}' || c == '\u{202f}'
        || c == '\u{205f}' || c == '\u{3000}'
}

/// `s` without its leading white space.
pub open spec fn trim_start(s: Seq<char>) -> Seq<char>
    decreases s.len(),
{
    if s.len() > 0 && is_space(s[0]) {
        trim_start(s.drop_first())
    } else {
        s
    }
}

/// `s` without the trailing characters that `drop` holds for.
pub open spec fn trim_end_by(s: Seq<char>, drop: spec_fn(char) -> bool) -> Seq<char>
    decreases s.len(),
{
    if s.len() > 0 && drop(s.last()) {
        trim_end_by(s.drop_last(), drop)
    } else {
        s
    }
}

/// `s` without leading and trailing white space, as `str::trim` leaves it.
pub open spec fn trim(s: Seq<char>) -> Seq<char> {
    trim_end_by(trim_start(s), |c: char| is_space(c))
}

/// `s` without its trailing dots, as `str::trim_end_matches('.')` leaves it.
pub open spec fn trim_dots(s: Seq<char>) -> Seq<char> {
    trim_end_by(s, |c: char| c == '.')
}

proof fn lemma_trim_start_skip(s: Seq<char>, i: int)
    requires
        0 <= i <= s.len(),
        forall|j: int| 0 <= j < i ==> is_space(#[trigger] s[j]),
    ensures
        trim_start(s) == trim_start(s.skip(i)),
    decreases i,
{
    if i > 0 {
        assert(s.drop_first() == s.skip(1));
        assert(s.skip(1).skip(i - 1) =~= s.skip(i));
        lemma_trim_start_skip(s.skip(1), i - 1);
    } else {
        assert(s.skip(0) =~= s);
    }
}

proof fn lemma_trim_end_take(s: Seq<char>, drop: spec_fn(char) -> bool, k: int)
    requires
        0 <= k <= s.len(),
        forall|j: int| k <= j < s.len() ==> drop(#[trigger] s[j]),
    ensures
        trim_end_by(s, drop) == trim_end_by(s.take(k), drop),
    decreases s.len() - k,
{
    if k < s.len() {
        assert(s.drop_last().take(k) =~= s.take(k));
        lemma_trim_end_take(s.drop_last(), drop, k);
    } else {
        assert(s.take(k) =~= s);
    }
}

/// The characters of `s` without leading and trailing white space.
pub fn trimmed(s: &Vec<char>) -> (r: Vec<char>)
    ensures
        r@ == trim(s@),
{
    let n = s.len();
    let mut lo: usize = 0;
    while lo < n && space(s[lo])
        invariant
            lo <= n == s@.len(),
            forall|j: int| 0 <= j < lo ==> is_space(#[trigger] s@[j]),
        decreases n - lo,
    {
        lo = lo + 1;
    }
    proof {
        lemma_trim_start_skip(s@, lo as int);
    }
    let ghost rest = s@.skip(lo as int);
    assert(trim_start(rest) == rest);
    let mut hi: usize = n;
    while hi > lo && space(s[hi - 1])
        invariant
            lo <= hi <= n == s@.len(),
            rest == s@.skip(lo as int),
            forall|j: int| hi - lo <= j < rest.len() ==> is_space(#[trigger] rest[j]),
        decreases hi,
    {
        hi = hi - 1;
    }
    proof {
        lemma_trim_end_take(rest, |c: char| is_space(c), hi - lo);
        if hi > lo {
            assert(rest.take(hi - lo).last() == s@[hi - 1]);
        }
    }
    let r = slice_chars(s, lo, hi);
    assert(r@ =~= rest.take(hi - lo));
    r
}

/// The characters of `s` without the trailing dots.
pub fn without_trailing_dots(s: &Vec<char>) -> (r: Vec<char>)
    ensures
        r@ == trim_dots(s@),
{
    let n = s.len();
    let mut hi: usize = n;
    while hi > 0 && s[hi - 1] == '.'
        invariant
            hi <= n == s@.len(),
            forall|j: int| hi <= j < n ==> #[trigger] s@[j] == '.',
        decreases hi,
    {
        hi = hi - 1;
    }
    proof {
        lemma_trim_end_take(s@, |c: char| c == '.', hi as int);
        if hi > 0 {
            assert(s@.take(hi as int).last() == s@[hi - 1]);
        }
    }
    let r = slice_chars(s, 0, hi);
    assert(r@ =~= s@.take(hi as int));
    r
}

/// The characters of `s` from `lo` up to `hi`.
pub fn slice_chars(s: &Vec<char>, lo: usize, hi: usize) -> (r: Vec<char>)
    requires
        lo <= hi <= s@.len(),
    ensures
        r@ == s@.subrange(lo as int, hi as int),
{
    let mut r: Vec<char> = Vec::new();
    for i in lo..hi
        invariant
            lo <= hi <= s@.len(),
            r@ == s@.subrange(lo as int, i as int),
    {
        r.push(s[i]);
        assert(s@.subrange(lo as int, i + 1) == s@.subrange(lo as int, i as int).push(s@[i as int]));
    }
    r
}

/// Whether `c` occurs in `s`.
pub fn has_char(s: &Vec<char>, c: char) -> (r: bool)
    ensures
        r == s@.contains(c),
{
    let n = s.len();
    for i in 0..n
        invariant
            n == s@.len(),
            forall|j: int| 0 <= j < i ==> s@[j] != c,
    {
        if s[i] == c {
            assert(s@[i as int] == c);
            return true;
        }
    }
    false
}

/// Whether two texts hold the same characters.
pub fn same_text(a: &str, b: &str) -> (r: bool)
    ensures
        r == (a@ == b@),
{
    let x = chars_of(a);
    let y = chars_of(b);
    if x.len() != y.len() {
        return false;
    }
    let n = x.len();
    for i in 0..n
        invariant
            n == x@.len() == y@.len(),
            x@ == a@,
            y@ == b@,
            forall|j: int| 0 <= j < i ==> x@[j] == y@[j],
    {
        if x[i] != y[i] {
            assert(x@[i as int] != y@[i as int]);
            return false;
        }
    }
    assert(x@ =~= y@);
    true
}

/// What `str::to_uppercase` gives for a text: the Unicode upper-case mapping, applied to each
/// character, which may turn one character into several.
pub uninterp spec fn upper(s: Seq<char>) -> Seq<char>;

/// A text of ASCII characters only.
pub open spec fn is_ascii_text(s: Seq<char>) -> bool {
    forall|i: int| 0 <= i < s.len() ==> (#[trigger] s[i] as int) < 128
}

/// The ASCII upper-case of a character: `a` to `z` become `A` to `Z`, all else stays.
pub open spec fn ascii_upper(c: char) -> char {
    if 'a' <= c && c <= 'z' {
        ((c as int) - 32) as char
    } else {
        c
    }
}

/// The ASCII upper-case of each character of `s`.
pub open spec fn ascii_upper_text(s: Seq<char>) -> Seq<char> {
    s.map_values(|c: char| ascii_upper(c))
}

/// Calls `str::to_uppercase`; its result is `upper` of the text and depends on nothing else.
/// On ASCII text the Unicode upper-case mapping is the ASCII one: each of `a` to `z` becomes
/// its capital, one for one, and every other ASCII character stays as it is.
#[verifier::external_body]
fn to_upper(s: &str) -> (r: String)
    ensures
        r@ == upper(s@),
        is_ascii_text(s@) ==> r@ == ascii_upper_text(s@),
{
    s.to_uppercase()
}

/// `s` with its surrounding white space removed and then upper-cased.
pub fn trimmed_upper(s: &str) -> (r: String)
    ensures
        r@ == upper(trim(s@)),
        is_ascii_text(trim(s@)) ==> r@ == ascii_upper_text(trim(s@)),
{
    let cs = chars_of(s);
    let t = trimmed(&cs);
    let ts = string_of(t.as_slice());
    to_upper(ts.as_str())
}

/// White space holds no digit, so trimming it keeps the digits of a text.
pub proof fn lemma_trim_keeps_digits(s: Seq<char>)
    ensures
        digits_of(trim(s)) == digits_of(s),
{
    lemma_trim_start_keeps_digits(s);
    lemma_trim_end_keeps_digits(trim_start(s));
}

proof fn lemma_trim_start_keeps_digits(s: Seq<char>)
    ensures
        digits_of(trim_start(s)) == digits_of(s),
    decreases s.len(),
{
    if s.len() > 0 && is_space(s[0]) {
        lemma_trim_start_keeps_digits(s.drop_first());
        assert(s =~= seq![s[0]] + s.drop_first());
        s.drop_first().lemma_filter_prepend(s[0], |c: char| is_digit(c));
        assert(Seq::<char>::empty() + s.drop_first().filter(|c: char| is_digit(c)) =~= s.drop_first().filter(|c: char| is_digit(c)));
    }
}

proof fn lemma_trim_end_keeps_digits(s: Seq<char>)
    ensures
        digits_of(trim_end_by(s, |c: char| is_space(c))) == digits_of(s),
    decreases s.len(),
{
    if s.len() > 0 && is_space(s.last()) {
        lemma_trim_end_keeps_digits(s.drop_last());
        assert(s =~= s.drop_last().push(s.last()));
        s.drop_last().lemma_filter_push(s.last(), |c: char| is_digit(c));
    }
}

/// Filters that agree on every item of `t` keep the same items.
pub proof fn lemma_filter_agree(t: Seq<char>, p: spec_fn(char) -> bool, r: spec_fn(char) -> bool)
    requires
        forall|i: int| 0 <= i < t.len() ==> p(#[trigger] t[i]) == r(t[i]),
    ensures
        t.filter(p) == t.filter(r),
    decreases t.len(),
{
    if t.len() > 0 {
        let u = t.drop_last();
        assert forall|i: int| 0 <= i < u.len() implies p(#[trigger] u[i]) == r(u[i]) by {
            assert(u[i] == t[i]);
        }
        lemma_filter_agree(u, p, r);
        assert(t =~= u.push(t.last()));
        assert(p(t[t.len() - 1]) == r(t[t.len() - 1]));
        u.lemma_filter_push(t.last(), p);
        u.lemma_filter_push(t.last(), r);
    } else {
        reveal(Seq::filter);
    }
}

/// Filtering keeps a sequence whole when every element passes.
pub proof fn lemma_filter_keeps_all(t: Seq<char>, p: spec_fn(char) -> bool)
    requires
        forall|i: int| 0 <= i < t.len() ==> p(#[trigger] t[i]),
    ensures
        t.filter(p) == t,
    decreases t.len(),
{
    if t.len() > 0 {
        let u = t.drop_last();
        assert forall|i: int| 0 <= i < u.len() implies p(#[trigger] u[i]) by {
            assert(u[i] == t[i]);
        }
        lemma_filter_keeps_all(u, p);
        assert(t =~= u.push(t.last()));
        assert(p(t[t.len() - 1]));
        u.lemma_filter_push(t.last(), p);
    } else {
        reveal(Seq::filter);
        assert(t.filter(p) =~= t);
    }
}

/// A text of digits is its own digits.
pub proof fn lemma_digits_of_all_digits(s: Seq<char>)
    requires
        forall|i: int| 0 <= i < s.len() ==> is_digit(#[trigger] s[i]),
    ensures
        digits_of(s) == s,
{
    lemma_filter_keeps_all(s, |c: char| is_digit(c));
}

/// A text that neither starts nor ends with white space is its own trim.
pub proof fn lemma_trim_plain(s: Seq<char>)
    requires
        s.len() > 0,
        !is_space(s[0]),
        !is_space(s.last()),
    ensures
        trim(s) == s,
{
    assert(trim_start(s) == s);
}

/// A text with no lower-case ASCII letter is its own ASCII upper-case.
pub proof fn lemma_ascii_upper_keeps(s: Seq<char>)
    requires
        forall|i: int| 0 <= i < s.len() ==> !('a' <= #[trigger] s[i] && s[i] <= 'z'),
    ensures
        ascii_upper_text(s) == s,
{
    assert(ascii_upper_text(s) =~= s);
}

} // verus!
