//! Ordering by name: the lexicographic order `String`'s `Ord` gives (for
//! UTF-8 text, code-point order), and a sort of records by their name key.
use vstd::prelude::*;

verus! {

broadcast use {vstd::seq_lib::group_seq_properties, vstd::multiset::group_multiset_axioms};

/// `a <= b` in lexicographic order of code points.
pub open spec fn lex_le(a: Seq<char>, b: Seq<char>) -> bool
    decreases a.len(),
{
    if a.len() == 0 {
        true
    } else if b.len() == 0 {
        false
    } else if a[0] != b[0] {
        a[0] < b[0]
    } else {
        lex_le(a.drop_first(), b.drop_first())
    }
}

pub proof fn lemma_lex_total(a: Seq<char>, b: Seq<char>)
    ensures
        lex_le(a, b) || lex_le(b, a),
    decreases a.len(),
{
    if a.len() > 0 && b.len() > 0 && a[0] == b[0] {
        lemma_lex_total(a.drop_first(), b.drop_first());
    }
}

pub proof fn lemma_lex_trans(a: Seq<char>, b: Seq<char>, c: Seq<char>)
    requires
        lex_le(a, b),
        lex_le(b, c),
    ensures
        lex_le(a, c),
    decreases a.len(),
{
    if a.len() > 0 && b.len() > 0 && c.len() > 0 && a[0] == b[0] && b[0] == c[0] {
        lemma_lex_trans(a.drop_first(), b.drop_first(), c.drop_first());
    }
}

/// `lex_le` over characters.
pub fn lex_le_exec(a: &[char], b: &[char]) -> (r: bool)
    ensures
        r == lex_le(a@, b@),
{
    let mut i: usize = 0;
    let ghost a0 = a@;
    let ghost b0 = b@;
    assert(a@.skip(0) =~= a@);
    assert(b@.skip(0) =~= b@);
    loop
        invariant
            i <= a@.len(),
            i <= b@.len(),
            lex_le(a@.skip(i as int), b@.skip(i as int)) == lex_le(a@, b@),
        decreases a@.len() - i,
    {
        if i == a.len() {
            return true;
        }
        if i == b.len() {
            return false;
        }
        if a[i] != b[i] {
            return a[i] < b[i];
        }
        assert(a@.skip(i as int).drop_first() =~= a@.skip(i + 1));
        assert(b@.skip(i as int).drop_first() =~= b@.skip(i + 1));
        i += 1;
    }
}

/// Records ordered by a name key.
pub trait Keyed: Sized {
    spec fn key(&self) -> Seq<char>;

    fn key_chars(&self) -> (r: Vec<char>)
        ensures
            r@ == self.key(),
    ;
}

pub open spec fn sorted_by_key<T: Keyed>(s: Seq<T>) -> bool {
    forall|i: int, j: int| 0 <= i < j < s.len() ==> lex_le(#[trigger] s[i].key(), #[trigger] s[j].key())
}

proof fn lemma_insert_sorted<T: Keyed>(s: Seq<T>, k: int, x: T)
    requires
        sorted_by_key(s),
        0 <= k <= s.len(),
        forall|i: int| 0 <= i < k ==> lex_le(#[trigger] s[i].key(), x.key()),
        k < s.len() ==> lex_le(x.key(), s[k].key()),
    ensures
        sorted_by_key(s.insert(k, x)),
        s.insert(k, x).to_multiset() == s.to_multiset().insert(x),
{
    let t = s.insert(k, x);
    s.insert_ensures(k, x);
    assert forall|i: int, j: int| 0 <= i < j < t.len() implies lex_le(
        #[trigger] t[i].key(),
        #[trigger] t[j].key(),
    ) by {
        if j < k {
            assert(t[i] == s[i] && t[j] == s[j]);
        } else if j == k {
            assert(t[i] == s[i]);
        } else if i < k {
            assert(t[i] == s[i] && t[j] == s[j - 1]);
            assert(lex_le(s[i].key(), s[j - 1].key()));
        } else if i == k {
            assert(t[j] == s[j - 1]);
            if k < j - 1 {
                lemma_lex_trans(x.key(), s[k].key(), s[j - 1].key());
            }
        } else {
            assert(t[i] == s[i - 1] && t[j] == s[j - 1]);
        }
    }
    assert(t.remove(k) =~= s);
    assert(t[k] == x);
    assert(t.to_multiset().count(x) > 0) by {
        assert(t.contains(x));
    }
}

proof fn lemma_lex_refl(a: Seq<char>)
    ensures
        lex_le(a, a),
    decreases a.len(),
{
    if a.len() > 0 {
        lemma_lex_refl(a.drop_first());
    }
}

/// The records of `s` whose key is `k`, in their order in `s`.
pub open spec fn with_key<T: Keyed>(s: Seq<T>, k: Seq<char>) -> Seq<T> {
    s.filter(has_key(k))
}

/// Whether a record's key is `k`.
pub open spec fn has_key<T: Keyed>(k: Seq<char>) -> spec_fn(T) -> bool {
    |t: T| t.key() == k
}

proof fn lemma_with_key_empty<T: Keyed>(s: Seq<T>, k: Seq<char>)
    requires
        forall|j: int| 0 <= j < s.len() ==> (#[trigger] s[j]).key() != k,
    ensures
        with_key(s, k) == Seq::<T>::empty(),
    decreases s.len(),
{
    if s.len() == 0 {
        reveal(Seq::filter);
    } else {
        let d = s.drop_last();
        assert forall|j: int| 0 <= j < d.len() implies (#[trigger] d[j]).key() != k by {
            assert(d[j] == s[j]);
        }
        lemma_with_key_empty(d, k);
        assert(s =~= d.push(s.last()));
        d.lemma_filter_push(s.last(), has_key::<T>(k));
    }
}

proof fn lemma_with_key_prepend<T: Keyed>(x: T, s: Seq<T>, k: Seq<char>)
    ensures
        with_key(seq![x] + s, k) == if x.key() == k {
            seq![x] + with_key(s, k)
        } else {
            with_key(s, k)
        },
{
    Seq::filter_distributes_over_add(seq![x], s, has_key::<T>(k));
    let e = Seq::<T>::empty();
    assert(e.filter(has_key::<T>(k)) == e) by {
        reveal(Seq::filter);
    }
    assert(seq![x] =~= e.push(x));
    e.lemma_filter_push(x, has_key::<T>(k));
    if x.key() != k {
        assert(e + with_key(s, k) =~= with_key(s, k));
    } else {
        assert(e.push(x) =~= seq![x]);
    }
}

proof fn lemma_with_key_insert<T: Keyed>(s: Seq<T>, i: int, x: T, k: Seq<char>)
    requires
        0 <= i <= s.len(),
        forall|j: int| 0 <= j < i ==> (#[trigger] s[j]).key() != x.key(),
    ensures
        with_key(s.insert(i, x), k) == if x.key() == k {
            seq![x] + with_key(s, k)
        } else {
            with_key(s, k)
        },
{
    let a = s.take(i);
    let b = s.skip(i);
    assert(s.insert(i, x) =~= a + (seq![x] + b));
    assert(s =~= a + b);
    Seq::filter_distributes_over_add(a, seq![x] + b, has_key::<T>(k));
    Seq::filter_distributes_over_add(a, b, has_key::<T>(k));
    lemma_with_key_prepend(x, b, k);
    if x.key() == k {
        assert forall|j: int| 0 <= j < a.len() implies (#[trigger] a[j]).key() != k by {
            assert(a[j] == s[j]);
        }
        lemma_with_key_empty(a, k);
        assert(Seq::<T>::empty() + (seq![x] + with_key(b, k)) =~= seq![x] + with_key(b, k));
        assert(Seq::<T>::empty() + with_key(b, k) =~= with_key(b, k));
    }
}

/// Picking the records of one key commutes with mapping each record to a
/// value from which its key can be told.
pub proof fn lemma_with_key_map<T: Keyed, B>(
    s: Seq<T>,
    k: Seq<char>,
    f: spec_fn(T) -> B,
    q: spec_fn(B) -> bool,
)
    requires
        forall|t: T| #[trigger] q(f(t)) == (t.key() == k),
    ensures
        with_key(s, k).map_values(f) == s.map_values(f).filter(q),
    decreases s.len(),
{
    if s.len() == 0 {
        reveal(Seq::filter);
        assert(with_key(s, k).map_values(f) =~= s.map_values(f).filter(q));
    } else {
        let d = s.drop_last();
        let x = s.last();
        lemma_with_key_map(d, k, f, q);
        assert(s =~= d.push(x));
        d.lemma_filter_push(x, has_key::<T>(k));
        assert(s.map_values(f) =~= d.map_values(f).push(f(x)));
        d.map_values(f).lemma_filter_push(f(x), q);
        assert(q(f(x)) == (x.key() == k));
        if x.key() == k {
            assert(with_key(s, k).map_values(f) =~= with_key(d, k).map_values(f).push(f(x)));
        }
    }
}

/// The records ordered by key, as `sort_by` on their names orders them:
/// records with equal keys keep their order (the sort is stable).
pub fn sort_by_key<T: Keyed>(v: Vec<T>) -> (r: Vec<T>)
    ensures
        sorted_by_key(r@),
        r@.to_multiset() == v@.to_multiset(),
        forall|k: Seq<char>| #[trigger] with_key(r@, k) == with_key(v@, k),
{
    let mut rest = v;
    let ghost all = rest@;
    let mut out: Vec<T> = Vec::new();
    proof {
        assert forall|k: Seq<char>| #[trigger] with_key(out@, k) == with_key(
            all.skip(rest@.len() as int),
            k,
        ) by {
            assert(out@ =~= all.skip(rest@.len() as int));
        }
    }
    while rest.len() > 0
        invariant
            sorted_by_key(out@),
            out@.to_multiset().add(rest@.to_multiset()) == all.to_multiset(),
            rest@.len() <= all.len(),
            rest@ == all.take(rest@.len() as int),
            forall|k: Seq<char>| #[trigger] with_key(out@, k) == with_key(
                all.skip(rest@.len() as int),
                k,
            ),
        decreases rest@.len(),
    {
        let ghost before = rest@;
        let ghost m = before.len() as int;
        let x = rest.pop().unwrap();
        assert(before =~= rest@.push(x));
        let xk = x.key_chars();
        let mut k: usize = 0;
        while k < out.len() && !lex_le_exec(&xk, &out[k].key_chars())
            invariant
                k <= out@.len(),
                xk@ == x.key(),
                forall|i: int| 0 <= i < k ==> lex_le(#[trigger] out@[i].key(), x.key()),
                forall|i: int| 0 <= i < k ==> (#[trigger] out@[i]).key() != x.key(),
            decreases out@.len() - k,
        {
            proof {
                lemma_lex_total(x.key(), out@[k as int].key());
                lemma_lex_refl(x.key());
            }
            k += 1;
        }
        let ghost old_out = out@;
        proof {
            lemma_insert_sorted(out@, k as int, x);
        }
        out.insert(k, x);
        proof {
            assert(rest@ =~= all.take(rest@.len() as int));
            assert(all[m - 1] == x);
            assert(all.skip(m - 1) =~= seq![x] + all.skip(m));
            assert forall|kk: Seq<char>| #[trigger] with_key(out@, kk) == with_key(
                all.skip(rest@.len() as int),
                kk,
            ) by {
                lemma_with_key_insert(old_out, k as int, x, kk);
                lemma_with_key_prepend(x, all.skip(m), kk);
                assert(with_key(old_out, kk) == with_key(all.skip(m), kk));
            }
        }
    }
    assert(rest@ =~= Seq::<T>::empty());
    assert(all.skip(0) =~= all);
    out
}

/// Two sequences with the same elements still have the same elements once
/// each is mapped.
pub proof fn lemma_multiset_map<A, B>(a: Seq<A>, b: Seq<A>, f: spec_fn(A) -> B)
    requires
        a.to_multiset() == b.to_multiset(),
    ensures
        a.map_values(f).to_multiset() == b.map_values(f).to_multiset(),
    decreases a.len(),
{
    a.to_multiset_ensures();
    b.to_multiset_ensures();
    if a.len() == 0 {
        assert(b.len() == 0);
        assert(a.map_values(f) =~= b.map_values(f));
    } else {
        let x = a.last();
        let a1 = a.drop_last();
        assert(a =~= a1.push(x));
        a1.to_multiset_ensures();
        assert(b.to_multiset().count(x) > 0);
        assert(b.contains(x));
        let j = choose|j: int| 0 <= j < b.len() && b[j] == x;
        let b1 = b.remove(j);
        assert(b1.to_multiset() =~= b.to_multiset().remove(x));
        assert(a1.to_multiset() =~= a.to_multiset().remove(x));
        lemma_multiset_map(a1, b1, f);
        let ma = a.map_values(f);
        let mb = b.map_values(f);
        assert(ma =~= a1.map_values(f).push(f(x)));
        a1.map_values(f).to_multiset_ensures();
        mb.to_multiset_ensures();
        assert(mb.remove(j) =~= b1.map_values(f));
        assert(mb[j] == f(x));
        assert(mb.to_multiset().count(f(x)) > 0) by {
            assert(mb.contains(f(x)));
        }
        assert(mb.to_multiset() =~= mb.remove(j).to_multiset().insert(f(x)));
    }
}

} // verus!
