use vstd::prelude::*;
use crate::util::chars_of;
use vstd::multiset::Multiset;

verus! {

broadcast use vstd::seq_lib::group_to_multiset_ensures;

/// `a` comes no later than `b` in the order of `str`'s `Ord`: character by character,
/// a proper prefix first.
pub open spec fn text_le(a: Seq<char>, b: Seq<char>) -> bool
    decreases a.len(),
{
    if a.len() == 0 {
        true
    } else if b.len() == 0 {
        false
    } else if a[0] != b[0] {
        a[0] < b[0]
    } else {
        text_le(a.drop_first(), b.drop_first())
    }
}

pub proof fn lemma_text_le_total(a: Seq<char>, b: Seq<char>)
    ensures
        text_le(a, b) || text_le(b, a),
    decreases a.len(),
{
    if a.len() > 0 && b.len() > 0 && a[0] == b[0] {
        lemma_text_le_total(a.drop_first(), b.drop_first());
    }
}

pub proof fn lemma_text_le_transitive(a: Seq<char>, b: Seq<char>, c: Seq<char>)
    requires
        text_le(a, b),
        text_le(b, c),
    ensures
        text_le(a, c),
    decreases a.len(),
{
    if a.len() > 0 && b.len() > 0 && c.len() > 0 && a[0] == b[0] && b[0] == c[0] {
        lemma_text_le_transitive(a.drop_first(), b.drop_first(), c.drop_first());
    }
}

/// Whether `a` comes no later than `b`.
pub fn text_le_exec(a: &str, b: &str) -> (r: bool)
    ensures
        r == text_le(a@, b@),
{
    let x = chars_of(a);
    let y = chars_of(b);
    let mut i: usize = 0;
    assert(x@.skip(0) =~= x@);
    assert(y@.skip(0) =~= y@);
    loop
        invariant
            i <= x@.len(),
            i <= y@.len(),
            x@ == a@,
            y@ == b@,
            text_le(a@, b@) == text_le(x@.skip(i as int), y@.skip(i as int)),
        decreases x@.len() - i,
    {
        if i == x.len() {
            return true;
        }
        if i == y.len() {
            return false;
        }
        assert(x@.skip(i as int).drop_first() =~= x@.skip(i + 1));
        assert(y@.skip(i as int).drop_first() =~= y@.skip(i + 1));
        if x[i] != y[i] {
            return x[i] < y[i];
        }
        i = i + 1;
    }
}

/// A value listed by a text key.
pub trait Keyed {
    spec fn key(&self) -> Seq<char>;

    fn key_text(&self) -> (r: &str)
        ensures
            r@ == self.key();
}

/// The items come in the order of their keys.
pub open spec fn sorted_by_key<T: Keyed>(s: Seq<T>) -> bool {
    forall|i: int, j: int| 0 <= i < j < s.len() ==> text_le(#[trigger] s[i].key(), #[trigger] s[j].key())
}

/// The items of `v` in the order of their keys.
pub fn sort_by_key<T: Keyed>(v: Vec<T>) -> (r: Vec<T>)
    ensures
        r@.to_multiset() == v@.to_multiset(),
        sorted_by_key(r@),
{
    let mut rest = v;
    let mut out: Vec<T> = Vec::new();
    let ghost all = rest@.to_multiset();
    while rest.len() > 0
        invariant
            rest@.to_multiset().add(out@.to_multiset()) == all,
            sorted_by_key(out@),
        decreases rest@.len(),
    {
        let ghost before = rest@;
        let x = rest.pop().unwrap();
        assert(before == rest@.push(x));
        let n = out.len();
        let mut k: usize = 0;
        while k < n && !text_le_exec(x.key_text(), out[k].key_text())
            invariant
                n == out@.len(),
                k <= n,
                forall|j: int| 0 <= j < k ==> text_le(#[trigger] out@[j].key(), x.key()),
            decreases n - k,
        {
            proof {
                lemma_text_le_total(x.key(), out@[k as int].key());
            }
            k = k + 1;
        }
        let ghost old_out = out@;
        out.insert(k, x);
        proof {
            assert(out@.remove(k as int) =~= old_out);
            assert(out@[k as int] == x);
            assert(out@.to_multiset().remove(x) == old_out.to_multiset());
            assert(out@.to_multiset() =~= old_out.to_multiset().insert(x));
            assert forall|i: int, j: int| 0 <= i < j < out@.len() implies text_le(
                #[trigger] out@[i].key(),
                #[trigger] out@[j].key(),
            ) by {
                if j < k {
                    assert(out@[i] == old_out[i] && out@[j] == old_out[j]);
                } else if j == k {
                    assert(out@[i] == old_out[i]);
                } else if i == k {
                    assert(out@[j] == old_out[j - 1]);
                    if k < n {
                        assert(text_le(x.key(), old_out[k as int].key()));
                        if j - 1 > k {
                            lemma_text_le_transitive(x.key(), old_out[k as int].key(), old_out[j - 1].key());
                        }
                    }
                } else if i < k {
                    assert(out@[i] == old_out[i] && out@[j] == old_out[j - 1]);
                    assert(text_le(old_out[i].key(), x.key()));
                    if k < n {
                        assert(text_le(x.key(), old_out[k as int].key()));
                        lemma_text_le_transitive(old_out[i].key(), x.key(), old_out[k as int].key());
                        if j - 1 > k {
                            lemma_text_le_transitive(old_out[i].key(), old_out[k as int].key(), old_out[j - 1].key());
                        }
                    }
                } else {
                    assert(out@[i] == old_out[i - 1] && out@[j] == old_out[j - 1]);
                }
            }
        }
    }
    assert(rest@.to_multiset() =~= Multiset::empty());
    out
}

} // verus!
