use vstd::prelude::*;
use crate::ipaddr::{ip_literal, parse_ip};
use crate::model::{Outcome, Status};
use crate::sources::AnySource;
use crate::util::{chars_of, digits_of, has_char, is_digit, lemma_filter_agree, lemma_trim_keeps_digits, same_text, trim, trimmed};
use crate::sources::registry;

verus! {

/// Separators that a formatted document number may carry.
pub open spec fn is_separator(c: char) -> bool {
    c == '.' || c == '-' || c == '/' || c == ' '
}

/// `s` without its separators.
pub open spec fn strip_separators(s: Seq<char>) -> Seq<char> {
    s.filter(|c: char| !is_separator(c))
}

/// The kind of lookup that a run of `n` digits calls for.
pub open spec fn kind_of_digit_count(n: int) -> Option<Seq<char>> {
    if n == 14 {
        Some("cnpj"@)
    } else if n == 11 {
        Some("cpf"@)
    } else if n == 8 {
        Some("cep"@)
    } else if n == 3 {
        Some("bank"@)
    } else if n == 2 {
        Some("ddd"@)
    } else {
        None
    }
}

/// The kind of a query by its shape. Surrounding white space is ignored. An IP address
/// is `ip`; digits with separators are a CNPJ, CPF, CEP, bank code or area code by their
/// count (other counts have no kind); anything else with a dot is a domain.
pub open spec fn shape_kind(q: Seq<char>) -> Option<Seq<char>> {
    let t = trim(q);
    let st = strip_separators(t);
    if ip_literal(t) {
        Some("ip"@)
    } else if st.len() > 0 && (forall|i: int| 0 <= i < st.len() ==> is_digit(#[trigger] st[i])) {
        kind_of_digit_count(st.len() as int)
    } else if t.contains('.') {
        Some("domain"@)
    } else {
        None
    }
}

/// The characters of `t` without separators.
fn without_separators(t: &Vec<char>) -> (r: Vec<char>)
    ensures
        r@ == strip_separators(t@),
{
    let n = t.len();
    let mut r: Vec<char> = Vec::new();
    let ghost keep = |c: char| !is_separator(c);
    for i in 0..n
        invariant
            n == t@.len(),
            keep == (|c: char| !is_separator(c)),
            r@ == strip_separators(t@.take(i as int)),
    {
        let c = t[i];
        proof {
            assert(t@.take(i + 1) == t@.take(i as int).push(c));
            t@.take(i as int).lemma_filter_push(c, keep);
        }
        if !(c == '.' || c == '-' || c == '/' || c == ' ') {
            r.push(c);
        }
    }
    assert(t@.take(n as int) == t@);
    r
}

/// Whether every character of `v` is a decimal digit.
pub fn all_digit_chars(v: &Vec<char>) -> (r: bool)
    ensures
        r == forall|i: int| 0 <= i < v@.len() ==> is_digit(#[trigger] v@[i]),
{
    let n = v.len();
    for i in 0..n
        invariant
            n == v@.len(),
            forall|j: int| 0 <= j < i ==> is_digit(#[trigger] v@[j]),
    {
        let c = v[i];
        if !('0' <= c && c <= '9') {
            assert(!is_digit(v@[i as int]));
            return false;
        }
    }
    true
}

/// The kind of lookup that `query` calls for, told by its shape.
pub fn detect(query: &str) -> (r: Option<&'static str>)
    ensures
        match r {
            Some(k) => shape_kind(query@) == Some(k@),
            None => shape_kind(query@) is None,
        },
{
    let cs = chars_of(query);
    let t = trimmed(&cs);
    if parse_ip(&t).is_some() {
        return Some("ip");
    }
    let st = without_separators(&t);
    let count = st.len();
    if count > 0 && all_digit_chars(&st) {
        return if count == 14 {
            Some("cnpj")
        } else if count == 11 {
            Some("cpf")
        } else if count == 8 {
            Some("cep")
        } else if count == 3 {
            Some("bank")
        } else if count == 2 {
            Some("ddd")
        } else {
            None
        };
    }
    if has_char(&t, '.') {
        return Some("domain");
    }
    None
}


/// The sources among `sources` that answer queries of kind `kind`, in their order.
pub fn select(kind: &str, sources: &Vec<AnySource>) -> (r: Vec<AnySource>)
    ensures
        r@ == sources@.filter(|s: AnySource| s.spec_kind() == kind@),
{
    let ghost keep = |s: AnySource| s.spec_kind() == kind@;
    let n = sources.len();
    let mut r: Vec<AnySource> = Vec::new();
    for i in 0..n
        invariant
            n == sources@.len(),
            keep == (|s: AnySource| s.spec_kind() == kind@),
            r@ == sources@.take(i as int).filter(keep),
    {
        let s = sources[i];
        proof {
            assert(sources@.take(i + 1) == sources@.take(i as int).push(s));
            sources@.take(i as int).lemma_filter_push(s, keep);
        }
        if same_text(s.kind(), kind) {
            r.push(s);
        }
    }
    assert(sources@.take(n as int) == sources@);
    r
}

/// Whether some source answered with data.
pub fn any_success(outcomes: &Vec<Outcome>) -> (r: bool)
    ensures
        r == exists|i: int| 0 <= i < outcomes@.len() && (#[trigger] outcomes@[i]).status == Status::Success,
{
    let n = outcomes.len();
    for i in 0..n
        invariant
            n == outcomes@.len(),
            forall|j: int| 0 <= j < i ==> (#[trigger] outcomes@[j]).status != Status::Success,
    {
        if outcomes[i].status == Status::Success {
            return true;
        }
    }
    false
}

/// When a query's shape makes it a run of digits, those are all its digits: separators and
/// surrounding white space are no digits.
proof fn lemma_shape_digits(q: Seq<char>)
    requires
        ({
            let st = strip_separators(trim(q));
            st.len() > 0 && forall|i: int| 0 <= i < st.len() ==> is_digit(#[trigger] st[i])
        }),
    ensures
        digits_of(q) == strip_separators(trim(q)),
{
    let t = trim(q);
    let keep = |c: char| !is_separator(c);
    let dig = |c: char| is_digit(c);
    assert forall|i: int| 0 <= i < t.len() implies dig(#[trigger] t[i]) == keep(t[i]) by {
        if keep(t[i]) {
            t.lemma_filter_contains(keep, i);
            let st = t.filter(keep);
            let k = choose|k: int| 0 <= k < st.len() && st[k] == t[i];
            assert(is_digit(st[k]));
        }
    }
    lemma_filter_agree(t, dig, keep);
    lemma_trim_keeps_digits(q);
}

/// A query routed by its shape is one that its sources take: a CNPJ, CEP, bank code or
/// area code has exactly the digit count that their sources ask for (and a CPF the eleven
/// digits that validation wants); an IP address is one that the IP sources parse. So every
/// registered source of the kind that `detect` names plans its calls instead of refusing.
pub proof fn lemma_routed_queries_accepted(q: Seq<char>)
    ensures
        shape_kind(q) == Some("cnpj"@) ==> digits_of(q).len() == 14,
        shape_kind(q) == Some("cpf"@) ==> digits_of(q).len() == 11,
        shape_kind(q) == Some("cep"@) ==> digits_of(q).len() == 8,
        shape_kind(q) == Some("bank"@) ==> digits_of(q).len() == 3,
        shape_kind(q) == Some("ddd"@) ==> digits_of(q).len() == 2,
        shape_kind(q) == Some("ip"@) ==> ip_literal(trim(q)),
        forall|i: int, r: Result<Vec<crate::source::Call>, crate::error::OsintError>|
            0 <= i < registry().len() && shape_kind(q) == Some(registry()[i].spec_kind())
                && registry()[i].spec_kind() != "domain"@ && #[trigger] registry()[i].planned(q, r)
                ==> r is Ok,
{
    reveal_strlit("cnpj");
    reveal_strlit("cpf");
    reveal_strlit("cep");
    reveal_strlit("bank");
    reveal_strlit("ddd");
    reveal_strlit("ip");
    reveal_strlit("domain");
    assert("cnpj"@ != "bank"@) by {
        assert("cnpj"@[0] != "bank"@[0]);
    }
    assert("cpf"@ != "cep"@) by {
        assert("cpf"@[1] != "cep"@[1]);
    }
    assert("cpf"@ != "ddd"@) by {
        assert("cpf"@[0] != "ddd"@[0]);
    }
    assert("cep"@ != "ddd"@) by {
        assert("cep"@[0] != "ddd"@[0]);
    }
    let t = trim(q);
    let st = strip_separators(t);
    assert("cnpj"@.len() == 4 && "cpf"@.len() == 3 && "ip"@.len() == 2 && "domain"@.len() == 6);
    assert("cep"@.len() == 3 && "bank"@.len() == 4 && "ddd"@.len() == 3);
    if !ip_literal(t) && st.len() > 0 && (forall|i: int| 0 <= i < st.len() ==> is_digit(#[trigger] st[i])) {
        lemma_shape_digits(q);
        assert(shape_kind(q) == kind_of_digit_count(st.len() as int));
    } else {
        assert(shape_kind(q) != Some("cnpj"@));
        assert(shape_kind(q) != Some("cpf"@));
        assert(shape_kind(q) != Some("cep"@));
        assert(shape_kind(q) != Some("bank"@));
        assert(shape_kind(q) != Some("ddd"@));
    }
    reveal_strlit("currency");
    reveal_strlit("uf");
    reveal_strlit("holidays");
    reveal_strlit("isbn");
    reveal_strlit("ncm");
    assert("uf"@[0] != "ip"@[0]);
    assert("isbn"@[0] != "cnpj"@[0] && "isbn"@[0] != "bank"@[0]);
    assert("ncm"@[0] != "cpf"@[0] && "ncm"@[0] != "cep"@[0] && "ncm"@[0] != "ddd"@[0]);
    assert("currency"@.len() == 8 && "holidays"@.len() == 8 && "uf"@.len() == 2);
    assert("isbn"@.len() == 4 && "ncm"@.len() == 3);
    assert forall|i: int, r: Result<Vec<crate::source::Call>, crate::error::OsintError>|
        0 <= i < registry().len() && shape_kind(q) == Some(registry()[i].spec_kind())
            && registry()[i].spec_kind() != "domain"@ && #[trigger] registry()[i].planned(q, r)
            implies r is Ok by {
        let k = registry()[i].spec_kind();
        assert(k != "currency"@ && k != "uf"@ && k != "holidays"@ && k != "isbn"@ && k != "ncm"@);
    }
}

} // verus!
