use vstd::prelude::*;
use crate::util::{digit_char, radix_text, slice_chars, chars_of, dec_text, hex_text, is_digit, push_char, push_radix};
use crate::validate::digit_value;

verus! {

/// The pieces of `s` between occurrences of `sep`, as `str::split` yields them:
/// one more piece than there are separators, empty pieces included.
pub open spec fn fields(s: Seq<char>, sep: char) -> Seq<Seq<char>>
    decreases s.len(),
{
    if s.len() == 0 {
        seq![Seq::<char>::empty()]
    } else {
        let f = fields(s.drop_last(), sep);
        if s.last() == sep {
            f.push(Seq::<char>::empty())
        } else {
            f.update(f.len() - 1, f.last().push(s.last()))
        }
    }
}

/// The character sequences that a vector of vectors holds.
pub open spec fn views(p: Seq<Vec<char>>) -> Seq<Seq<char>> {
    p.map_values(|v: Vec<char>| v@)
}

pub proof fn lemma_fields_nonempty(s: Seq<char>, sep: char)
    ensures
        fields(s, sep).len() >= 1,
    decreases s.len(),
{
    if s.len() > 0 {
        lemma_fields_nonempty(s.drop_last(), sep);
    }
}

/// The pieces of `s` between occurrences of `sep`.
pub fn split_fields(s: &Vec<char>, sep: char) -> (r: Vec<Vec<char>>)
    ensures
        views(r@) == fields(s@, sep),
{
    let mut parts: Vec<Vec<char>> = Vec::new();
    let mut cur: Vec<char> = Vec::new();
    let n = s.len();
    for i in 0..n
        invariant
            n == s@.len(),
            fields(s@.take(i as int), sep) == views(parts@).push(cur@),
    {
        let c = s[i];
        let ghost before = views(parts@).push(cur@);
        assert(s@.take(i + 1).drop_last() == s@.take(i as int));
        assert(s@.take(i + 1).last() == c);
        if c == sep {
            parts.push(cur);
            cur = Vec::new();
            assert(views(parts@).push(cur@) =~= before.push(Seq::<char>::empty()));
        } else {
            cur.push(c);
            assert(views(parts@).push(cur@) =~= before.update(
                before.len() - 1,
                before.last().push(c),
            ));
        }
    }
    parts.push(cur);
    assert(s@.take(n as int) == s@);
    assert(views(parts@) =~= fields(s@, sep));
    parts
}


/// A hexadecimal digit, as `char::to_digit(16)` accepts it.
pub open spec fn is_hex_digit(c: char) -> bool {
    is_digit(c) || ('a' <= c && c <= 'f') || ('A' <= c && c <= 'F')
}

/// The value of a hexadecimal digit.
pub open spec fn hex_digit_value(c: char) -> int {
    if is_digit(c) {
        c as int - '0' as int
    } else if 'a' <= c && c <= 'f' {
        c as int - 'a' as int + 10
    } else {
        c as int - 'A' as int + 10
    }
}

/// The number that the decimal digits `d` spell.
pub open spec fn dec_number(d: Seq<char>) -> int
    decreases d.len(),
{
    if d.len() == 0 {
        0
    } else {
        dec_number(d.drop_last()) * 10 + digit_value(d.last())
    }
}

/// The number that the hexadecimal digits `d` spell.
pub open spec fn hex_number(d: Seq<char>) -> int
    decreases d.len(),
{
    if d.len() == 0 {
        0
    } else {
        hex_number(d.drop_last()) * 16 + hex_digit_value(d.last())
    }
}

/// One part of a dotted IPv4 address: one to three decimal digits, no leading zero
/// unless the part is `0` itself, and a value that fits in a byte.
pub open spec fn is_octet(d: Seq<char>) -> bool {
    &&& 1 <= d.len() <= 3
    &&& forall|i: int| 0 <= i < d.len() ==> is_digit(#[trigger] d[i])
    &&& d.len() > 1 ==> d[0] != '0'
    &&& dec_number(d) <= 255
}

/// One group of an IPv6 address: one to four hexadecimal digits.
pub open spec fn is_group(d: Seq<char>) -> bool {
    &&& 1 <= d.len() <= 4
    &&& forall|i: int| 0 <= i < d.len() ==> is_hex_digit(#[trigger] d[i])
}

/// A dotted IPv4 address: four octets separated by `.`.
pub open spec fn ipv4_literal(s: Seq<char>) -> bool {
    let f = fields(s, '.');
    &&& f.len() == 4
    &&& forall|i: int| 0 <= i < 4 ==> is_octet(#[trigger] f[i])
}

/// The four byte values of a dotted IPv4 address.
pub open spec fn ipv4_octets(s: Seq<char>) -> Seq<int> {
    fields(s, '.').map_values(|d: Seq<char>| dec_number(d))
}

/// The value of `d` if it is an IPv4 octet.
pub fn octet_value(d: &Vec<char>) -> (r: Option<u8>)
    ensures
        r is Some <==> is_octet(d@),
        r matches Some(v) ==> v as int == dec_number(d@),
{
    let n = d.len();
    if n < 1 || n > 3 {
        return None;
    }
    let mut v: u32 = 0;
    for i in 0..n
        invariant
            n == d@.len(),
            1 <= n <= 3,
            forall|j: int| 0 <= j < i ==> is_digit(#[trigger] d@[j]),
            v == dec_number(d@.take(i as int)),
            i == 0 ==> v == 0,
            i == 1 ==> v <= 9,
            i == 2 ==> v <= 99,
            i == 3 ==> v <= 999,
    {
        let c = d[i];
        if !('0' <= c && c <= '9') {
            return None;
        }
        assert(d@.take(i + 1).drop_last() == d@.take(i as int));
        v = v * 10 + ((c as u32) - ('0' as u32));
    }
    assert(d@.take(n as int) == d@);
    if n > 1 && d[0] == '0' {
        return None;
    }
    if v > 255 {
        return None;
    }
    Some(v as u8)
}

/// The value of `d` if it is an IPv6 group.
pub fn group_value(d: &Vec<char>) -> (r: Option<u16>)
    ensures
        r is Some <==> is_group(d@),
        r matches Some(v) ==> v as int == hex_number(d@),
{
    let n = d.len();
    if n < 1 || n > 4 {
        return None;
    }
    let mut v: u32 = 0;
    for i in 0..n
        invariant
            n == d@.len(),
            1 <= n <= 4,
            forall|j: int| 0 <= j < i ==> is_hex_digit(#[trigger] d@[j]),
            v == hex_number(d@.take(i as int)),
            i == 0 ==> v == 0,
            i == 1 ==> v <= 0xf,
            i == 2 ==> v <= 0xff,
            i == 3 ==> v <= 0xfff,
            i == 4 ==> v <= 0xffff,
    {
        let c = d[i];
        let digit: u32;
        if '0' <= c && c <= '9' {
            digit = (c as u32) - ('0' as u32);
        } else if 'a' <= c && c <= 'f' {
            digit = (c as u32) - ('a' as u32) + 10;
        } else if 'A' <= c && c <= 'F' {
            digit = (c as u32) - ('A' as u32) + 10;
        } else {
            return None;
        }
        assert(d@.take(i + 1).drop_last() == d@.take(i as int));
        v = v * 16 + digit;
    }
    assert(d@.take(n as int) == d@);
    Some(v as u16)
}

/// The four bytes of `s` if it is a dotted IPv4 address.
pub fn parse_ipv4(s: &Vec<char>) -> (r: Option<Vec<u8>>)
    ensures
        r is Some <==> ipv4_literal(s@),
        r matches Some(o) ==> o@.len() == 4 && forall|i: int|
            0 <= i < 4 ==> #[trigger] o@[i] as int == ipv4_octets(s@)[i],
{
    let f = split_fields(s, '.');
    if f.len() != 4 {
        return None;
    }
    let mut out: Vec<u8> = Vec::new();
    for i in 0..4
        invariant
            f@.len() == 4,
            views(f@) == fields(s@, '.'),
            out@.len() == i,
            forall|j: int| 0 <= j < i ==> is_octet(#[trigger] fields(s@, '.')[j]),
            forall|j: int| 0 <= j < i ==> #[trigger] out@[j] as int == ipv4_octets(s@)[j],
    {
        assert(views(f@)[i as int] == f@[i as int]@);
        match octet_value(&f[i]) {
            Some(v) => {
                out.push(v);
            },
            None => {
                return None;
            },
        }
    }
    Some(out)
}


/// Every piece is an IPv6 group.
pub open spec fn all_groups(p: Seq<Seq<char>>) -> bool {
    forall|i: int| 0 <= i < p.len() ==> is_group(#[trigger] p[i])
}

/// The numbers that hexadecimal pieces spell.
pub open spec fn hex_values(p: Seq<Seq<char>>) -> Seq<int> {
    p.map_values(|d: Seq<char>| hex_number(d))
}

/// A run of colon-separated IPv6 groups, which may end in a dotted IPv4 address standing
/// for two groups where `v4_tail` allows it: how many 16-bit pieces it stands for.
/// The empty run stands for none.
pub open spec fn run_count(s: Seq<char>, v4_tail: bool) -> Option<int> {
    if s.len() == 0 {
        Some(0)
    } else {
        let p = fields(s, ':');
        if all_groups(p) {
            Some(p.len() as int)
        } else if v4_tail && all_groups(p.drop_last()) && ipv4_literal(p.last()) {
            Some(p.len() + 1int)
        } else {
            None
        }
    }
}

/// The two 16-bit pieces that a dotted IPv4 address stands for.
pub open spec fn ipv4_pieces(s: Seq<char>) -> Seq<int> {
    let o = ipv4_octets(s);
    seq![o[0] * 256 + o[1], o[2] * 256 + o[3]]
}

/// The 16-bit values of such a run.
pub open spec fn run_values(s: Seq<char>, v4_tail: bool) -> Seq<int> {
    if s.len() == 0 {
        Seq::empty()
    } else {
        let p = fields(s, ':');
        if all_groups(p) {
            hex_values(p)
        } else {
            hex_values(p.drop_last()) + ipv4_pieces(p.last())
        }
    }
}

/// `::` stands at position `i` of `s`.
pub open spec fn double_colon_at(s: Seq<char>, i: int) -> bool {
    0 <= i && i + 1 < s.len() && s[i] == ':' && s[i + 1] == ':'
}

pub open spec fn has_double_colon(s: Seq<char>) -> bool {
    exists|i: int| double_colon_at(s, i)
}

/// Where the first `::` of `s` stands.
pub open spec fn first_double_colon(s: Seq<char>) -> int {
    choose|i: int| double_colon_at(s, i) && forall|j: int| 0 <= j < i ==> !double_colon_at(s, j)
}

/// `n` zero pieces.
pub open spec fn zeros(n: int) -> Seq<int> {
    Seq::new(n as nat, |k: int| 0int)
}

/// An IPv6 address in text: eight 16-bit pieces in full, or a `::` between two runs that
/// stand for at most seven pieces together, the `::` standing for the zero pieces left over.
/// Only the last run may end in a dotted IPv4 address.
pub open spec fn ipv6_literal(s: Seq<char>) -> bool {
    if has_double_colon(s) {
        let i = first_double_colon(s);
        match (run_count(s.take(i), false), run_count(s.skip(i + 2), true)) {
            (Some(h), Some(t)) => h + t <= 7,
            _ => false,
        }
    } else {
        run_count(s, true) == Some(8int)
    }
}

/// The eight 16-bit pieces of an IPv6 address in text.
pub open spec fn ipv6_segments(s: Seq<char>) -> Seq<int> {
    if has_double_colon(s) {
        let i = first_double_colon(s);
        let h = run_values(s.take(i), false);
        let t = run_values(s.skip(i + 2), true);
        h + zeros(8 - h.len() - t.len()) + t
    } else {
        run_values(s, true)
    }
}

/// An IP address in text, as `IpAddr`'s `FromStr` accepts it.
pub open spec fn ip_literal(s: Seq<char>) -> bool {
    ipv4_literal(s) || ipv6_literal(s)
}

/// The values held in a vector of 16-bit pieces.
pub open spec fn values16(v: Seq<u16>) -> Seq<int> {
    v.map_values(|x: u16| x as int)
}

proof fn lemma_values16_push(v: Seq<u16>, x: u16)
    ensures
        values16(v.push(x)) == values16(v).push(x as int),
{
    assert(values16(v.push(x)) =~= values16(v).push(x as int));
}

proof fn lemma_hex_values_push(p: Seq<Seq<char>>, d: Seq<char>)
    ensures
        hex_values(p.push(d)) == hex_values(p).push(hex_number(d)),
{
    assert(hex_values(p.push(d)) =~= hex_values(p).push(hex_number(d)));
}

/// The pieces of a run of IPv6 groups, as `run_count` and `run_values` describe it.
fn parse_run(s: &Vec<char>, v4_tail: bool) -> (r: Option<Vec<u16>>)
    ensures
        r is Some <==> run_count(s@, v4_tail) is Some,
        r matches Some(v) ==> run_count(s@, v4_tail) == Some(v@.len() as int) && values16(v@)
            == run_values(s@, v4_tail),
{
    let mut out: Vec<u16> = Vec::new();
    if s.len() == 0 {
        assert(values16(out@) =~= run_values(s@, v4_tail));
        return Some(out);
    }
    let p = split_fields(s, ':');
    proof {
        lemma_fields_nonempty(s@, ':');
    }
    let n = p.len();
    let ghost f = fields(s@, ':');
    for i in 0..n - 1
        invariant
            n == p@.len(),
            n >= 1,
            f == fields(s@, ':'),
            views(p@) == f,
            out@.len() == i,
            forall|j: int| 0 <= j < i ==> is_group(#[trigger] f[j]),
            values16(out@) == hex_values(f.take(i as int)),
    {
        assert(views(p@)[i as int] == p@[i as int]@);
        match group_value(&p[i]) {
            Some(v) => {
                proof {
                    lemma_values16_push(out@, v);
                    assert(f.take(i + 1) == f.take(i as int).push(f[i as int]));
                    lemma_hex_values_push(f.take(i as int), f[i as int]);
                }
                out.push(v);
            },
            None => {
                assert(!is_group(f[i as int]));
                assert(f.drop_last()[i as int] == f[i as int]);
                return None;
            },
        }
    }
    assert(views(p@)[n - 1] == p@[n - 1]@);
    assert(f.drop_last() =~= f.take(n - 1));
    assert(f == f.take(n - 1).push(f[n - 1]));
    match group_value(&p[n - 1]) {
        Some(v) => {
            proof {
                lemma_values16_push(out@, v);
                lemma_hex_values_push(f.take(n - 1), f[n - 1]);
            }
            out.push(v);
            assert(all_groups(f));
            Some(out)
        },
        None => {
            assert(!all_groups(f));
            if !v4_tail {
                return None;
            }
            match parse_ipv4(&p[n - 1]) {
                Some(o) => {
                    let hi: u16 = (o[0] as u16) * 256 + (o[1] as u16);
                    let lo: u16 = (o[2] as u16) * 256 + (o[3] as u16);
                    let ghost before = values16(out@);
                    out.push(hi);
                    out.push(lo);
                    assert(f.last() == f[n - 1]);
                    assert(values16(out@) =~= before + ipv4_pieces(f.last()));
                    Some(out)
                },
                None => None,
            }
        },
    }
}

/// Where the first `::` of `s` stands, if anywhere.
fn find_double_colon(s: &Vec<char>) -> (r: Option<usize>)
    ensures
        r is None <==> !has_double_colon(s@),
        r matches Some(i) ==> double_colon_at(s@, i as int) && i == first_double_colon(s@),
{
    let n = s.len();
    if n < 2 {
        return None;
    }
    for i in 0..n - 1
        invariant
            n == s@.len(),
            n >= 2,
            forall|j: int| 0 <= j < i ==> !double_colon_at(s@, j),
    {
        if s[i] == ':' && s[i + 1] == ':' {
            assert(double_colon_at(s@, i as int));
            proof {
                let k = first_double_colon(s@);
                assert(double_colon_at(s@, k) && forall|j: int|
                    0 <= j < k ==> !double_colon_at(s@, j));
                if k < i {
                    assert(!double_colon_at(s@, k));
                }
                if k > i {
                    assert(!double_colon_at(s@, i as int));
                }
            }
            return Some(i);
        }
    }
    assert forall|j: int| !double_colon_at(s@, j) by {
        if 0 <= j < n - 1 {
        }
    }
    None
}

/// `h`, then zero pieces up to eight in all, then `t`.
fn expand(h: Vec<u16>, t: &Vec<u16>) -> (r: Vec<u16>)
    requires
        h@.len() + t@.len() <= 8,
    ensures
        r@.len() == 8,
        values16(r@) == values16(h@) + zeros(8 - h@.len() - t@.len()) + values16(t@),
{
    let mut out = h;
    let zs = 8 - out.len() - t.len();
    let ghost hv = values16(out@);
    for k in 0..zs
        invariant
            out@.len() == hv.len() + k,
            values16(out@) == hv + zeros(k as int),
    {
        proof {
            lemma_values16_push(out@, 0);
        }
        out.push(0);
        assert(values16(out@) =~= hv + zeros(k + 1));
    }
    let ghost mid = values16(out@);
    let m = t.len();
    for k in 0..m
        invariant
            m == t@.len(),
            out@.len() == mid.len() + k,
            values16(out@) == mid + values16(t@).take(k as int),
    {
        proof {
            lemma_values16_push(out@, t@[k as int]);
        }
        out.push(t[k]);
        assert(values16(out@) =~= mid + values16(t@).take(k + 1));
    }
    assert(values16(t@).take(m as int) =~= values16(t@));
    out
}

/// The eight pieces of `s` if it is an IPv6 address in text.
#[verifier::rlimit(40)]
pub fn parse_ipv6(s: &Vec<char>) -> (r: Option<Vec<u16>>)
    ensures
        r is Some <==> ipv6_literal(s@),
        r matches Some(v) ==> v@.len() == 8 && values16(v@) == ipv6_segments(s@),
{
    match find_double_colon(s) {
        None => {
            match parse_run(s, true) {
                Some(v) => {
                    if v.len() == 8 {
                        Some(v)
                    } else {
                        None
                    }
                },
                None => None,
            }
        },
        Some(i) => {
            let n = s.len();
            assert(double_colon_at(s@, i as int));
            let head = slice_chars(s, 0, i);
            let tail = slice_chars(s, i + 2, n);
            assert(head@ == s@.take(i as int));
            assert(tail@ == s@.skip(i + 2));
            assert(has_double_colon(s@));
            let ghost first = first_double_colon(s@);
            assert(first == i);
            let h = match parse_run(&head, false) {
                Some(h) => h,
                None => {
                    return None;
                },
            };
            let t = match parse_run(&tail, true) {
                Some(t) => t,
                None => {
                    return None;
                },
            };
            if h.len() > 7 || t.len() > 7 - h.len() {
                return None;
            }
            Some(expand(h, &t))
        },
    }
}


/// A parsed IP address: four bytes, or eight 16-bit pieces.
#[derive(Clone, Copy, Debug, PartialEq, Eq)]
pub enum IpValue {
    V4([u8; 4]),
    V6([u16; 8]),
}

/// `a` holds the address that `s` spells.
pub open spec fn spells(s: Seq<char>, a: IpValue) -> bool {
    match a {
        IpValue::V4(o) => ipv4_literal(s) && forall|i: int|
            0 <= i < 4 ==> #[trigger] o@[i] as int == ipv4_octets(s)[i],
        IpValue::V6(g) => !ipv4_literal(s) && ipv6_literal(s) && values16(g@) == ipv6_segments(s),
    }
}

/// The address that `s` spells, if it is an IP address in text; dotted IPv4 is tried first,
/// as `IpAddr`'s `FromStr` does.
#[verifier::rlimit(50)]
pub fn parse_ip(s: &Vec<char>) -> (r: Option<IpValue>)
    ensures
        r is Some <==> ip_literal(s@),
        r matches Some(a) ==> spells(s@, a),
{
    match parse_ipv4(s) {
        Some(o) => {
            let a = [o[0], o[1], o[2], o[3]];
            assert(forall|i: int| 0 <= i < 4 ==> #[trigger] a@[i] == o@[i]);
            return Some(IpValue::V4(a));
        },
        None => {},
    }
    match parse_ipv6(s) {
        Some(g) => {
            let a = [g[0], g[1], g[2], g[3], g[4], g[5], g[6], g[7]];
            assert(values16(a@) =~= values16(g@));
            Some(IpValue::V6(a))
        },
        None => None,
    }
}

/// The address that `text` spells, if it is an IP address in text.
pub fn parse_ip_str(text: &str) -> (r: Option<IpValue>)
    ensures
        r is Some <==> ip_literal(text@),
        r matches Some(a) ==> spells(text@, a),
{
    let cs = chars_of(text);
    parse_ip(&cs)
}

/// Dotted decimal text of four bytes.
pub open spec fn ipv4_text(o: Seq<int>) -> Seq<char> {
    dec_text(o[0] as nat) + seq!['.'] + dec_text(o[1] as nat) + seq!['.'] + dec_text(o[2] as nat)
        + seq!['.'] + dec_text(o[3] as nat)
}

/// Pieces in hexadecimal joined by `:`.
pub open spec fn join_hex(p: Seq<int>) -> Seq<char>
    decreases p.len(),
{
    if p.len() == 0 {
        Seq::empty()
    } else if p.len() == 1 {
        hex_text(p[0] as nat)
    } else {
        join_hex(p.drop_last()) + seq![':'] + hex_text(p.last() as nat)
    }
}

/// How many zero pieces follow one another from position `i` on.
pub open spec fn zero_run(p: Seq<int>, i: int) -> int
    decreases p.len() - i,
{
    if 0 <= i < p.len() && p[i] == 0 {
        1 + zero_run(p, i + 1)
    } else {
        0
    }
}

/// Start and length of the first longest run of zero pieces among those starting before `k`.
pub open spec fn best_run(p: Seq<int>, k: int) -> (int, int)
    decreases k,
{
    if k <= 0 {
        (0, 0)
    } else {
        let b = best_run(p, k - 1);
        if zero_run(p, k - 1) > b.1 {
            (k - 1, zero_run(p, k - 1))
        } else {
            b
        }
    }
}

/// The eight pieces map an IPv4 address (`::ffff:a.b.c.d`).
pub open spec fn is_v4_mapped(p: Seq<int>) -> bool {
    p[0] == 0 && p[1] == 0 && p[2] == 0 && p[3] == 0 && p[4] == 0 && p[5] == 0xffff
}

/// IPv6 text as `Ipv6Addr`'s `Display` writes it: an IPv4-mapped address as `::ffff:`
/// and dotted decimal; otherwise lower-case hexadecimal pieces joined by `:`, with the first
/// longest run of two or more zero pieces written as `::`.
pub open spec fn ipv6_text(p: Seq<int>) -> Seq<char> {
    if is_v4_mapped(p) {
        seq![':', ':', 'f', 'f', 'f', 'f', ':'] + ipv4_text(
            seq![p[6] / 256, p[6] % 256, p[7] / 256, p[7] % 256],
        )
    } else {
        let b = best_run(p, 8);
        if b.1 > 1 {
            join_hex(p.take(b.0)) + seq![':', ':'] + join_hex(p.skip(b.0 + b.1))
        } else {
            join_hex(p)
        }
    }
}

/// An address as `IpAddr`'s `Display` writes it.
pub open spec fn ip_text(a: IpValue) -> Seq<char> {
    match a {
        IpValue::V4(o) => ipv4_text(o@.map_values(|x: u8| x as int)),
        IpValue::V6(g) => ipv6_text(values16(g@)),
    }
}

fn push_dotted(out: &mut String, o: [u8; 4])
    ensures
        final(out)@ == old(out)@ + ipv4_text(o@.map_values(|x: u8| x as int)),
{
    let ghost start = out@;
    push_radix(out, o[0] as u64, 10);
    push_char(out, '.');
    push_radix(out, o[1] as u64, 10);
    push_char(out, '.');
    push_radix(out, o[2] as u64, 10);
    push_char(out, '.');
    push_radix(out, o[3] as u64, 10);
    assert(out@ =~= start + ipv4_text(o@.map_values(|x: u8| x as int)));
}

proof fn lemma_join_hex_take(p: Seq<int>, k: int)
    requires
        1 <= k <= p.len(),
    ensures
        join_hex(p.take(k)) == if k == 1 {
            hex_text(p[0] as nat)
        } else {
            join_hex(p.take(k - 1)) + seq![':'] + hex_text(p[k - 1] as nat)
        },
{
    assert(p.take(k).drop_last() =~= p.take(k - 1));
}

/// Appends the pieces `p[lo..hi]` in hexadecimal, joined by `:`.
fn push_joined(out: &mut String, p: &[u16; 8], lo: usize, hi: usize)
    requires
        lo <= hi <= 8,
    ensures
        final(out)@ == old(out)@ + join_hex(values16(p@).subrange(lo as int, hi as int)),
{
    let ghost start = out@;
    let ghost v = values16(p@);
    for k in lo..hi
        invariant
            lo <= hi <= 8,
            v == values16(p@),
            out@ == start + join_hex(v.subrange(lo as int, k as int)),
    {
        proof {
            lemma_join_hex_take(v.subrange(lo as int, hi as int), (k - lo + 1) as int);
            assert(v.subrange(lo as int, hi as int).take((k - lo + 1) as int) =~= v.subrange(
                lo as int,
                k + 1,
            ));
            assert(v.subrange(lo as int, hi as int).take((k - lo) as int) =~= v.subrange(
                lo as int,
                k as int,
            ));
        }
        if k > lo {
            push_char(out, ':');
        }
        push_radix(out, p[k] as u64, 16);
        assert(out@ =~= start + join_hex(v.subrange(lo as int, k + 1)));
    }
}

fn zero_run_at(p: &[u16; 8], i: usize) -> (r: usize)
    requires
        i <= 8,
    ensures
        r == zero_run(values16(p@), i as int),
        r <= 8 - i,
{
    let ghost v = values16(p@);
    let mut j = i;
    while j < 8 && p[j] == 0
        invariant
            i <= j <= 8,
            v == values16(p@),
            forall|m: int| i <= m < j ==> v[m] == 0,
            zero_run(v, i as int) == (j - i) + zero_run(v, j as int),
        decreases 8 - j,
    {
        assert(zero_run(v, j as int) == 1 + zero_run(v, j + 1));
        j = j + 1;
    }
    j - i
}

/// Appends the address as `Display` writes it.
pub fn push_ip(out: &mut String, a: &IpValue)
    ensures
        final(out)@ == old(out)@ + ip_text(*a),
{
    match a {
        IpValue::V4(o) => {
            push_dotted(out, *o);
        },
        IpValue::V6(g) => {
            let ghost v = values16(g@);
            let ghost start = out@;
            if g[0] == 0 && g[1] == 0 && g[2] == 0 && g[3] == 0 && g[4] == 0 && g[5] == 0xffff {
                push_char(out, ':');
                push_char(out, ':');
                push_char(out, 'f');
                push_char(out, 'f');
                push_char(out, 'f');
                push_char(out, 'f');
                push_char(out, ':');
                let o: [u8; 4] = [
                    (g[6] / 256) as u8,
                    (g[6] % 256) as u8,
                    (g[7] / 256) as u8,
                    (g[7] % 256) as u8,
                ];
                push_dotted(out, o);
                assert(o@.map_values(|x: u8| x as int) =~= seq![
                    v[6] / 256,
                    v[6] % 256,
                    v[7] / 256,
                    v[7] % 256,
                ]);
                assert(out@ =~= start + ip_text(*a));
                return;
            }
            let mut best_start: usize = 0;
            let mut best_len: usize = 0;
            for k in 0..8
                invariant
                    v == values16(g@),
                    best_run(v, k as int) == (best_start as int, best_len as int),
                    best_len <= 8,
                    best_start + best_len <= 8,
            {
                let z = zero_run_at(g, k);
                if z > best_len {
                    best_start = k;
                    best_len = z;
                }
            }
            if best_len > 1 {
                push_joined(out, g, 0, best_start);
                push_char(out, ':');
                push_char(out, ':');
                push_joined(out, g, best_start + best_len, 8);
                assert(v.subrange(0, best_start as int) =~= v.take(best_start as int));
                assert(v.subrange((best_start + best_len) as int, 8) =~= v.skip(
                    (best_start + best_len) as int,
                ));
                assert(out@ =~= start + ip_text(*a));
            } else {
                push_joined(out, g, 0, 8);
                assert(v.subrange(0, 8) =~= v);
                assert(out@ =~= start + ip_text(*a));
            }
        },
    }
}

impl IpValue {
    /// The address as `Display` writes it.
    pub fn text(&self) -> (s: String)
        ensures
            s@ == ip_text(*self),
    {
        let mut s = String::new();
        push_ip(&mut s, self);
        assert(s@ =~= ip_text(*self));
        s
    }
}

proof fn lemma_fields_no_sep(x: Seq<char>, sep: char)
    requires
        !x.contains(sep),
    ensures
        fields(x, sep) == seq![x],
    decreases x.len(),
{
    if x.len() > 0 {
        assert(!x.drop_last().contains(sep)) by {
            if x.drop_last().contains(sep) {
                let i = choose|i: int| 0 <= i < x.drop_last().len() && x.drop_last()[i] == sep;
                assert(x[i] == sep);
            }
        }
        lemma_fields_no_sep(x.drop_last(), sep);
        assert(x.last() != sep) by {
            assert(x[x.len() - 1] == x.last());
        }
        assert(x.drop_last().push(x.last()) =~= x);
    } else {
        assert(x =~= Seq::<char>::empty());
    }
}

proof fn lemma_fields_after_sep(x: Seq<char>, sep: char, y: Seq<char>)
    requires
        !x.contains(sep),
    ensures
        fields(x + seq![sep] + y, sep) == seq![x] + fields(y, sep),
    decreases y.len(),
{
    lemma_fields_nonempty(y, sep);
    if y.len() == 0 {
        lemma_fields_no_sep(x, sep);
        assert((x + seq![sep] + y).drop_last() =~= x);
        assert(seq![x] + fields(y, sep) =~= seq![x].push(Seq::<char>::empty()));
    } else {
        let z = x + seq![sep] + y;
        assert(z.drop_last() =~= x + seq![sep] + y.drop_last());
        assert(z.last() == y.last());
        lemma_fields_after_sep(x, sep, y.drop_last());
        lemma_fields_nonempty(y.drop_last(), sep);
        let f = fields(y.drop_last(), sep);
        if y.last() == sep {
            assert(seq![x] + f.push(Seq::<char>::empty()) =~= (seq![x] + f).push(Seq::<char>::empty()));
        } else {
            assert(seq![x] + f.update(f.len() - 1, f.last().push(y.last())) =~= (seq![x] + f).update(
                (seq![x] + f).len() - 1,
                (seq![x] + f).last().push(y.last()),
            ));
        }
    }
}

proof fn lemma_dec_text_digits(n: nat)
    ensures
        forall|i: int| 0 <= i < radix_text(n, 10).len() ==> is_digit(#[trigger] radix_text(n, 10)[i]),
        radix_text(n, 10).len() >= 1,
        dec_number(radix_text(n, 10)) == n,
        n < 10 ==> radix_text(n, 10).len() == 1,
        n < 100 ==> radix_text(n, 10).len() <= 2,
        n < 1000 ==> radix_text(n, 10).len() <= 3,
        n >= 1 ==> radix_text(n, 10)[0] != '0',
    decreases n,
{
    let t = radix_text(n, 10);
    if n < 10 {
        assert(t == seq![digit_char(n as int)]);
        assert(t.drop_last() =~= Seq::<char>::empty());
        assert(digit_value(digit_char(n as int)) == n);
        assert(dec_number(t) == dec_number(t.drop_last()) * 10 + digit_value(t.last()));
    } else {
        let q = n / 10;
        assert(q < n);
        lemma_dec_text_digits(q);
        let u = radix_text(q, 10);
        assert(t == u.push(digit_char((n % 10) as int)));
        assert(t.drop_last() =~= u);
        assert(n == q * 10 + n % 10) by (nonlinear_arith)
            requires
                q == n / 10,
        ;
        assert(digit_value(digit_char((n % 10) as int)) == n % 10);
        assert(dec_number(t) == dec_number(t.drop_last()) * 10 + digit_value(t.last()));
        assert(t[0] == u[0]);
    }
}

proof fn lemma_digits_no_dot(d: Seq<char>)
    requires
        forall|i: int| 0 <= i < d.len() ==> is_digit(#[trigger] d[i]),
    ensures
        !d.contains('.'),
{
    if d.contains('.') {
        let i = choose|i: int| 0 <= i < d.len() && d[i] == '.';
        assert(is_digit(d[i]));
    }
}

/// Dotted decimal text of four byte values parses back to them, and holds no colon.
#[verifier::rlimit(40)]
proof fn lemma_ipv4_text_parses(v: Seq<int>)
    requires
        v.len() == 4,
        forall|i: int| 0 <= i < 4 ==> 0 <= #[trigger] v[i] <= 255,
    ensures
        ipv4_literal(ipv4_text(v)),
        ipv4_octets(ipv4_text(v)) == v,
        !ipv4_text(v).contains(':'),
        fields(ipv4_text(v), '.')[0] == radix_text(v[0] as nat, 10),
        ipv4_text(v).len() > 0,
{
    let d0 = radix_text(v[0] as nat, 10);
    let d1 = radix_text(v[1] as nat, 10);
    let d2 = radix_text(v[2] as nat, 10);
    let d3 = radix_text(v[3] as nat, 10);
    lemma_dec_text_digits(v[0] as nat);
    lemma_dec_text_digits(v[1] as nat);
    lemma_dec_text_digits(v[2] as nat);
    lemma_dec_text_digits(v[3] as nat);
    lemma_digits_no_dot(d0);
    lemma_digits_no_dot(d1);
    lemma_digits_no_dot(d2);
    lemma_digits_no_dot(d3);
    let t = ipv4_text(v);
    assert(t =~= d0 + seq!['.'] + (d1 + seq!['.'] + (d2 + seq!['.'] + d3)));
    lemma_fields_no_sep(d3, '.');
    lemma_fields_after_sep(d2, '.', d3);
    lemma_fields_after_sep(d1, '.', d2 + seq!['.'] + d3);
    lemma_fields_after_sep(d0, '.', d1 + seq!['.'] + (d2 + seq!['.'] + d3));
    let f = fields(t, '.');
    assert(f =~= seq![d0, d1, d2, d3]);
    assert forall|i: int| 0 <= i < 4 implies is_octet(#[trigger] f[i]) by {
        assert(0 <= v[i] <= 255);
    }
    assert(ipv4_octets(t) =~= v);
    assert(!t.contains(':')) by {
        if t.contains(':') {
            let i = choose|i: int| 0 <= i < t.len() && t[i] == ':';
            if i < d0.len() {
                assert(t[i] == d0[i]);
                assert(is_digit(d0[i]));
            } else if i == d0.len() {
            } else if i < d0.len() + 1 + d1.len() {
                assert(t[i] == d1[i - d0.len() - 1]);
                assert(is_digit(d1[i - d0.len() - 1]));
            } else if i == d0.len() + 1 + d1.len() {
            } else if i < d0.len() + 2 + d1.len() + d2.len() {
                assert(t[i] == d2[i - d0.len() - 2 - d1.len()]);
                assert(is_digit(d2[i - d0.len() - 2 - d1.len()]));
            } else if i == d0.len() + 2 + d1.len() + d2.len() {
            } else {
                assert(t[i] == d3[i - d0.len() - 3 - d1.len() - d2.len()]);
                assert(is_digit(d3[i - d0.len() - 3 - d1.len() - d2.len()]));
            }
        }
    }
}

/// The dotted text of four bytes spells those four bytes back.
pub proof fn lemma_ipv4_text_round_trip(o: [u8; 4])
    ensures
        ipv4_literal(ip_text(IpValue::V4(o))),
        spells(ip_text(IpValue::V4(o)), IpValue::V4(o)),
{
    let v = o@.map_values(|x: u8| x as int);
    lemma_ipv4_text_parses(v);
}


/// A text without the separator is a single piece.
pub proof fn lemma_fields_single(y: Seq<char>, sep: char)
    requires
        !y.contains(sep),
    ensures
        fields(y, sep) == seq![y],
    decreases y.len(),
{
    if y.len() > 0 {
        let u = y.drop_last();
        assert(y.last() != sep) by {
            assert(y[y.len() - 1] == y.last());
        }
        assert(!u.contains(sep)) by {
            if u.contains(sep) {
                let i = choose|i: int| 0 <= i < u.len() && u[i] == sep;
                assert(y[i] == sep);
            }
        }
        lemma_fields_single(u, sep);
        assert(y =~= u.push(y.last()));
        assert(fields(y, sep) =~= seq![y]);
    } else {
        assert(y =~= Seq::<char>::empty());
    }
}

/// Splitting `x`, a separator and a piece without one gives the pieces of `x`, then that piece.
pub proof fn lemma_fields_push_piece(x: Seq<char>, sep: char, y: Seq<char>)
    requires
        !y.contains(sep),
    ensures
        fields(x + seq![sep] + y, sep) == fields(x, sep).push(y),
    decreases y.len(),
{
    let z = x + seq![sep] + y;
    if y.len() == 0 {
        assert(z.drop_last() =~= x);
        assert(y =~= Seq::<char>::empty());
    } else {
        assert(z.drop_last() =~= x + seq![sep] + y.drop_last());
        assert(z.last() == y.last());
        assert(y.last() != sep) by {
            assert(y[y.len() - 1] == y.last());
        }
        assert(!y.drop_last().contains(sep)) by {
            if y.drop_last().contains(sep) {
                let i = choose|i: int| 0 <= i < y.drop_last().len() && y.drop_last()[i] == sep;
                assert(y[i] == sep);
            }
        }
        lemma_fields_push_piece(x, sep, y.drop_last());
        let f = fields(x, sep).push(y.drop_last());
        assert(y =~= y.drop_last().push(y.last()));
        assert(f.update(f.len() - 1, f.last().push(y.last())) =~= fields(x, sep).push(y));
    }
}

proof fn lemma_hex_text(n: nat)
    requires
        n <= 0xffff,
    ensures
        is_group(hex_text(n)),
        hex_number(hex_text(n)) == n,
        !hex_text(n).contains(':'),
        !hex_text(n).contains('.'),
{
    lemma_hex_text_digits(n);
    let t = hex_text(n);
    assert(!t.contains(':')) by {
        if t.contains(':') {
            let i = choose|i: int| 0 <= i < t.len() && t[i] == ':';
            assert(is_hex_digit(t[i]));
        }
    }
    assert(!t.contains('.')) by {
        if t.contains('.') {
            let i = choose|i: int| 0 <= i < t.len() && t[i] == '.';
            assert(is_hex_digit(t[i]));
        }
    }
}

proof fn lemma_hex_text_digits(n: nat)
    ensures
        forall|i: int| 0 <= i < radix_text(n, 16).len() ==> is_hex_digit(#[trigger] radix_text(n, 16)[i]),
        radix_text(n, 16).len() >= 1,
        hex_number(radix_text(n, 16)) == n,
        n < 0x10 ==> radix_text(n, 16).len() == 1,
        n < 0x100 ==> radix_text(n, 16).len() <= 2,
        n < 0x1000 ==> radix_text(n, 16).len() <= 3,
        n < 0x10000 ==> radix_text(n, 16).len() <= 4,
    decreases n,
{
    let t = radix_text(n, 16);
    if n < 16 {
        assert(t == seq![digit_char(n as int)]);
        assert(t.drop_last() =~= Seq::<char>::empty());
        assert(hex_digit_value(digit_char(n as int)) == n);
        assert(hex_number(t) == hex_number(t.drop_last()) * 16 + hex_digit_value(t.last()));
    } else {
        let q = n / 16;
        assert(q < n);
        lemma_hex_text_digits(q);
        let u = radix_text(q, 16);
        assert(t == u.push(digit_char((n % 16) as int)));
        assert(t.drop_last() =~= u);
        assert(n == q * 16 + n % 16) by (nonlinear_arith)
            requires
                q == n / 16,
        ;
        assert(hex_digit_value(digit_char((n % 16) as int)) == n % 16);
        assert(hex_number(t) == hex_number(t.drop_last()) * 16 + hex_digit_value(t.last()));
    }
}

/// The hexadecimal texts of pieces.
pub open spec fn hex_texts(p: Seq<int>) -> Seq<Seq<char>> {
    p.map_values(|x: int| hex_text(x as nat))
}

/// Every value fits in 16 bits.
pub open spec fn all16(p: Seq<int>) -> bool {
    forall|i: int| 0 <= i < p.len() ==> 0 <= #[trigger] p[i] <= 0xffff
}

proof fn lemma_join_hex(p: Seq<int>)
    requires
        p.len() >= 1,
        all16(p),
    ensures
        fields(join_hex(p), ':') == hex_texts(p),
        all_groups(hex_texts(p)),
        hex_values(hex_texts(p)) == p,
        forall|i: int| !double_colon_at(join_hex(p), i),
        join_hex(p).len() > 0,
        join_hex(p)[0] != ':',
        join_hex(p).last() != ':',
        !join_hex(p).contains('.'),
    decreases p.len(),
{
    let t = join_hex(p);
    let h = hex_text(p.last() as nat);
    lemma_hex_text(p.last() as nat);
    assert(h[0] != ':' && h.last() != ':') by {
        assert(h.contains(h[0]));
        assert(h.contains(h[h.len() - 1]));
    }
    if p.len() == 1 {
        assert(t == hex_text(p[0] as nat));
        lemma_fields_no_sep(t, ':');
        assert(hex_texts(p) =~= seq![t]);
        assert(hex_values(hex_texts(p)) =~= p);
        assert forall|i: int| !double_colon_at(t, i) by {
            if 0 <= i < t.len() {
                assert(t.contains(t[i]));
            }
        }
    } else {
        let q = p.drop_last();
        assert(all16(q)) by {
            assert forall|i: int| 0 <= i < q.len() implies 0 <= #[trigger] q[i] <= 0xffff by {
                assert(q[i] == p[i]);
            }
        }
        lemma_join_hex(q);
        let a = join_hex(q);
        assert(t == a + seq![':'] + h);
        lemma_fields_push_piece(a, ':', h);
        assert(hex_texts(p) =~= hex_texts(q).push(h));
        assert(hex_values(hex_texts(p)) =~= hex_values(hex_texts(q)).push(p.last()));
        assert(p =~= q.push(p.last()));
        assert forall|i: int| 0 <= i < hex_texts(p).len() implies is_group(#[trigger] hex_texts(p)[i]) by {
            if i < q.len() {
                assert(hex_texts(p)[i] == hex_texts(q)[i]);
            }
        }
        assert forall|i: int| !double_colon_at(t, i) by {
            if 0 <= i && i + 1 < t.len() {
                if i + 1 < a.len() {
                    assert(t[i] == a[i] && t[i + 1] == a[i + 1]);
                    assert(!double_colon_at(a, i));
                } else if i + 1 == a.len() {
                    assert(t[i] == a.last());
                } else if i == a.len() {
                    assert(t[i + 1] == h[0]);
                } else {
                    assert(t[i] == h[i - a.len() - 1]);
                    assert(h.contains(h[i - a.len() - 1]));
                }
            }
        }
        assert(t[0] == a[0]);
        assert(t.last() == h.last());
        assert(!t.contains('.')) by {
            if t.contains('.') {
                let i = choose|i: int| 0 <= i < t.len() && t[i] == '.';
                if i < a.len() {
                    assert(t[i] == a[i]);
                    assert(a.contains(a[i]));
                } else if i > a.len() {
                    assert(t[i] == h[i - a.len() - 1]);
                    assert(h.contains(h[i - a.len() - 1]));
                }
            }
        }
    }
}


proof fn lemma_run_of_join(q: Seq<int>, v4_tail: bool)
    requires
        all16(q),
    ensures
        run_count(join_hex(q), v4_tail) == Some(q.len() as int),
        run_values(join_hex(q), v4_tail) == q,
{
    if q.len() == 0 {
        assert(run_values(join_hex(q), v4_tail) =~= q);
    } else {
        lemma_join_hex(q);
    }
}

proof fn lemma_zero_run(p: Seq<int>, i: int)
    requires
        0 <= i <= p.len(),
    ensures
        zero_run(p, i) >= 0,
        i + zero_run(p, i) <= p.len(),
        forall|j: int| i <= j < i + zero_run(p, i) ==> p[j] == 0,
    decreases p.len() - i,
{
    if i < p.len() && p[i] == 0 {
        lemma_zero_run(p, i + 1);
    }
}

proof fn lemma_best_run(p: Seq<int>, k: int)
    requires
        0 <= k <= p.len(),
    ensures
        best_run(p, k).1 >= 0,
        best_run(p, k).1 > 0 ==> 0 <= best_run(p, k).0 < k && zero_run(p, best_run(p, k).0)
            == best_run(p, k).1,
    decreases k,
{
    if k > 0 {
        lemma_best_run(p, k - 1);
        lemma_zero_run(p, k - 1);
    }
}

proof fn lemma_no_dot_not_ipv4(t: Seq<char>)
    requires
        !t.contains('.'),
    ensures
        !ipv4_literal(t),
{
    lemma_fields_no_sep(t, '.');
}

proof fn lemma_first_double_colon_is(s: Seq<char>, i: int)
    requires
        double_colon_at(s, i),
        forall|j: int| 0 <= j < i ==> !double_colon_at(s, j),
    ensures
        has_double_colon(s),
        first_double_colon(s) == i,
{
    let k = first_double_colon(s);
    assert(double_colon_at(s, k) && forall|j: int| 0 <= j < k ==> !double_colon_at(s, j));
    if k < i {
        assert(!double_colon_at(s, k));
    }
    if k > i {
        assert(!double_colon_at(s, i));
    }
}

proof fn lemma_plain_round_trip(v: Seq<int>)
    requires
        v.len() == 8,
        all16(v),
    ensures
        !ipv4_literal(join_hex(v)),
        ipv6_literal(join_hex(v)),
        ipv6_segments(join_hex(v)) == v,
{
    let t = join_hex(v);
    lemma_join_hex(v);
    lemma_no_dot_not_ipv4(t);
    assert(!has_double_colon(t));
}

/// Two runs around `::`: the first `::` is the one between them.
proof fn lemma_split_text(a: Seq<char>, b: Seq<char>)
    requires
        a.len() == 0 || a.last() != ':',
        forall|i: int| !double_colon_at(a, i),
        b.len() == 0 || b[0] != ':',
        !a.contains('.'),
        !b.contains('.'),
    ensures
        ({
            let t = a + seq![':', ':'] + b;
            &&& has_double_colon(t)
            &&& first_double_colon(t) == a.len()
            &&& t.take(a.len() as int) == a
            &&& t.skip(a.len() + 2int) == b
            &&& !t.contains('.')
        }),
{
    let t = a + seq![':', ':'] + b;
    let n = a.len() as int;
    assert(t[n] == ':' && t[n + 1] == ':');
    assert forall|j: int| 0 <= j < n implies !double_colon_at(t, j) by {
        if j + 1 < n {
            assert(t[j] == a[j] && t[j + 1] == a[j + 1]);
            assert(!double_colon_at(a, j));
        } else {
            assert(t[j] == a.last());
        }
    }
    lemma_first_double_colon_is(t, n);
    assert(t.take(n) =~= a);
    assert(t.skip(n + 2) =~= b);
    assert(!t.contains('.')) by {
        if t.contains('.') {
            let i = choose|i: int| 0 <= i < t.len() && t[i] == '.';
            if i < n {
                assert(t[i] == a[i]);
                assert(a.contains(a[i]));
            } else if i >= n + 2 {
                assert(t[i] == b[i - n - 2]);
                assert(b.contains(b[i - n - 2]));
            }
        }
    }
}

/// The facts about a run's text that splitting needs.
proof fn lemma_join_hex_edges(q: Seq<int>)
    requires
        all16(q),
    ensures
        join_hex(q).len() == 0 || (join_hex(q)[0] != ':' && join_hex(q).last() != ':'),
        forall|i: int| !double_colon_at(join_hex(q), i),
        !join_hex(q).contains('.'),
        run_count(join_hex(q), false) == Some(q.len() as int),
        run_count(join_hex(q), true) == Some(q.len() as int),
        run_values(join_hex(q), false) == q,
        run_values(join_hex(q), true) == q,
{
    if q.len() > 0 {
        lemma_join_hex(q);
    } else {
        assert(join_hex(q) =~= Seq::<char>::empty());
    }
    lemma_run_of_join(q, false);
    lemma_run_of_join(q, true);
}

proof fn lemma_segments_of_split(t: Seq<char>, a: Seq<char>, b: Seq<char>, hv: Seq<int>, tv: Seq<int>)
    requires
        has_double_colon(t),
        first_double_colon(t) == a.len(),
        t.take(a.len() as int) == a,
        t.skip(a.len() + 2int) == b,
        run_count(a, false) == Some(hv.len() as int),
        run_values(a, false) == hv,
        run_count(b, true) == Some(tv.len() as int),
        run_values(b, true) == tv,
        hv.len() + tv.len() <= 7,
    ensures
        ipv6_literal(t),
        ipv6_segments(t) == hv + zeros(8 - hv.len() - tv.len()) + tv,
{
}

proof fn lemma_all16_parts(v: Seq<int>, st: int, ln: int)
    requires
        all16(v),
        0 <= st,
        0 <= ln,
        st + ln <= v.len(),
    ensures
        all16(v.take(st)),
        all16(v.skip(st + ln)),
{
    let hv = v.take(st);
    let tv = v.skip(st + ln);
    assert forall|i: int| 0 <= i < hv.len() implies 0 <= #[trigger] hv[i] <= 0xffff by {
        assert(hv[i] == v[i]);
    }
    assert forall|i: int| 0 <= i < tv.len() implies 0 <= #[trigger] tv[i] <= 0xffff by {
        assert(tv[i] == v[i + st + ln]);
    }
}

proof fn lemma_zero_gap(v: Seq<int>, st: int, ln: int)
    requires
        v.len() == 8,
        0 <= st,
        0 <= ln,
        st + ln <= 8,
        forall|j: int| st <= j < st + ln ==> v[j] == 0,
    ensures
        v.take(st) + zeros(ln) + v.skip(st + ln) == v,
{
    let w = v.take(st) + zeros(ln) + v.skip(st + ln);
    assert forall|k: int| 0 <= k < 8 implies #[trigger] w[k] == v[k] by {
        if k < st {
        } else if k < st + ln {
        } else {
            assert(v.skip(st + ln)[k - st - ln] == v[k]);
        }
    }
    assert(w =~= v);
}

#[verifier::spinoff_prover]
proof fn lemma_compressed_round_trip(v: Seq<int>, st: int, ln: int)
    requires
        v.len() == 8,
        all16(v),
        0 <= st,
        ln >= 2,
        st + ln <= 8,
        forall|j: int| st <= j < st + ln ==> v[j] == 0,
    ensures
        ({
            let t = join_hex(v.take(st)) + seq![':', ':'] + join_hex(v.skip(st + ln));
            !ipv4_literal(t) && ipv6_literal(t) && ipv6_segments(t) == v
        }),
{
    let hv = v.take(st);
    let tv = v.skip(st + ln);
    lemma_all16_parts(v, st, ln);
    let a = join_hex(hv);
    let b = join_hex(tv);
    let t = a + seq![':', ':'] + b;
    lemma_join_hex_edges(hv);
    lemma_join_hex_edges(tv);
    lemma_split_text(a, b);
    lemma_segments_of_split(t, a, b, hv, tv);
    assert(8 - hv.len() - tv.len() == ln);
    lemma_zero_gap(v, st, ln);
    lemma_no_dot_not_ipv4(t);
}

#[verifier::rlimit(60)]
proof fn lemma_mapped_round_trip(v: Seq<int>)
    requires
        v.len() == 8,
        all16(v),
        is_v4_mapped(v),
    ensures
        !ipv4_literal(ipv6_text(v)),
        ipv6_literal(ipv6_text(v)),
        ipv6_segments(ipv6_text(v)) == v,
{
    let w = seq![v[6] / 256, v[6] % 256, v[7] / 256, v[7] % 256];
    assert(0 <= v[6] / 256 <= 255 && 0 <= v[7] / 256 <= 255) by (nonlinear_arith)
        requires
            0 <= v[6] <= 0xffff,
            0 <= v[7] <= 0xffff,
    ;
    lemma_ipv4_text_parses(w);
    let x = ipv4_text(w);
    let h = seq!['f', 'f', 'f', 'f'];
    let t = ipv6_text(v);
    assert(t == seq![':', ':', 'f', 'f', 'f', 'f', ':'] + x);
    assert(double_colon_at(t, 0));
    lemma_first_double_colon_is(t, 0);
    let tail = t.skip(2);
    assert(tail =~= h + seq![':'] + x);
    assert(t.take(0) =~= Seq::<char>::empty());
    assert(!h.contains(':')) by {
        if h.contains(':') {
            let i = choose|i: int| 0 <= i < h.len() && h[i] == ':';
        }
    }
    lemma_fields_after_sep(h, ':', x);
    lemma_fields_no_sep(x, ':');
    let f = fields(tail, ':');
    assert(f =~= seq![h, x]);
    let d0 = radix_text(w[0] as nat, 10);
    lemma_dec_text_digits(w[0] as nat);
    assert(x[d0.len() as int] == '.');
    assert(!is_group(x)) by {
        if is_group(x) {
            assert(is_hex_digit(x[d0.len() as int]));
        }
    }
    assert(!all_groups(f)) by {
        assert(!is_group(f[1]));
    }
    assert(f.drop_last() =~= seq![h]);
    assert(is_group(h));
    assert(all_groups(f.drop_last()));
    assert(f.last() == x);
    assert(hex_number(h) == 0xffff) by {
        reveal_with_fuel(hex_number, 5);
        assert(h.drop_last() =~= seq!['f', 'f', 'f']);
        assert(h.drop_last().drop_last() =~= seq!['f', 'f']);
        assert(h.drop_last().drop_last().drop_last() =~= seq!['f']);
        assert(h.drop_last().drop_last().drop_last().drop_last() =~= Seq::<char>::empty());
    }
    assert(v[6] / 256 * 256 + v[6] % 256 == v[6]) by (nonlinear_arith)
        requires
            0 <= v[6],
    ;
    assert(v[7] / 256 * 256 + v[7] % 256 == v[7]) by (nonlinear_arith)
        requires
            0 <= v[7],
    ;
    assert(hex_values(f.drop_last()) =~= seq![hex_number(h)]);
    assert(ipv6_segments(t) =~= v);
    let y = radix_text(w[1] as nat, 10) + seq!['.'] + radix_text(w[2] as nat, 10) + seq!['.']
        + radix_text(w[3] as nat, 10);
    let z = seq![':', ':', 'f', 'f', 'f', 'f', ':'] + d0;
    assert(t =~= z + seq!['.'] + y);
    lemma_digits_no_dot(d0);
    assert(!z.contains('.')) by {
        if z.contains('.') {
            let i = choose|i: int| 0 <= i < z.len() && z[i] == '.';
            if i >= 7 {
                assert(z[i] == d0[i - 7]);
                assert(d0.contains(d0[i - 7]));
            }
        }
    }
    lemma_fields_after_sep(z, '.', y);
    assert(fields(t, '.')[0] == z);
    assert(!is_octet(z)) by {
        if is_octet(z) {
            assert(is_digit(z[0]));
        }
    }
}

/// An address written out as `Display` writes it parses back to the same address, as IPv4
/// or IPv6 alike: the text that the IP sources put into their URLs names the address asked for.
pub proof fn lemma_ip_text_round_trip(a: IpValue)
    ensures
        ip_literal(ip_text(a)),
        spells(ip_text(a), a),
{
    match a {
        IpValue::V4(o) => {
            lemma_ipv4_text_round_trip(o);
        },
        IpValue::V6(g) => {
            let v = values16(g@);
            assert(all16(v));
            if is_v4_mapped(v) {
                lemma_mapped_round_trip(v);
            } else {
                let b = best_run(v, 8);
                if b.1 > 1 {
                    lemma_best_run(v, 8);
                    lemma_zero_run(v, b.0);
                    lemma_compressed_round_trip(v, b.0, b.1);
                } else {
                    lemma_plain_round_trip(v);
                }
            }
        },
    }
}

} // verus!
