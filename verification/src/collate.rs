//! The byte-wise ordering of text (the order of `str`'s `Ord`) and a stable sort by name.
use vstd::prelude::*;
use vstd::multiset::Multiset;
use vstd::utf8::encode_utf8;
use vstd::string::StringSliceAdditionalSpecFns;

verus! {

/// Lexicographic order on byte strings, a proper prefix first: the order of `[u8]`'s `Ord`.
pub open spec fn bytes_le(a: Seq<u8>, b: Seq<u8>) -> bool
    decreases a.len(),
{
    if a.len() == 0 {
        true
    } else if b.len() == 0 {
        false
    } else if a[0] < b[0] {
        true
    } else if a[0] > b[0] {
        false
    } else {
        bytes_le(a.drop_first(), b.drop_first())
    }
}

/// The order of `String`'s `Ord`: byte-wise on the UTF-8 encodings.
pub open spec fn names_le(a: Seq<char>, b: Seq<char>) -> bool {
    bytes_le(encode_utf8(a), encode_utf8(b))
}

pub proof fn lemma_bytes_le_reflexive(a: Seq<u8>)
    ensures
        bytes_le(a, a),
    decreases a.len(),
{
    if a.len() > 0 {
        lemma_bytes_le_reflexive(a.drop_first());
    }
}

pub proof fn lemma_bytes_le_total(a: Seq<u8>, b: Seq<u8>)
    ensures
        bytes_le(a, b) || bytes_le(b, a),
    decreases a.len(),
{
    if a.len() > 0 && b.len() > 0 && a[0] == b[0] {
        lemma_bytes_le_total(a.drop_first(), b.drop_first());
    }
}

pub proof fn lemma_bytes_le_antisymmetric(a: Seq<u8>, b: Seq<u8>)
    requires
        bytes_le(a, b),
        bytes_le(b, a),
    ensures
        a == b,
    decreases a.len(),
{
    if a.len() > 0 {
        lemma_bytes_le_antisymmetric(a.drop_first(), b.drop_first());
        assert(a =~= seq![a[0]] + a.drop_first());
        assert(b =~= seq![b[0]] + b.drop_first());
    } else {
        assert(b.len() == 0);
        assert(a =~= b);
    }
}

pub proof fn lemma_bytes_le_transitive(a: Seq<u8>, b: Seq<u8>, c: Seq<u8>)
    requires
        bytes_le(a, b),
        bytes_le(b, c),
    ensures
        bytes_le(a, c),
    decreases a.len(),
{
    if a.len() > 0 && b.len() > 0 && c.len() > 0 && a[0] == b[0] && b[0] == c[0] {
        lemma_bytes_le_transitive(a.drop_first(), b.drop_first(), c.drop_first());
    }
}

/// Distinct texts have distinct encodings.
pub proof fn lemma_encode_injective(a: Seq<char>, b: Seq<char>)
    requires
        encode_utf8(a) == encode_utf8(b),
    ensures
        a == b,
{
    vstd::utf8::encode_utf8_decode_utf8(a);
    vstd::utf8::encode_utf8_decode_utf8(b);
}

/// `a <= b` on the bytes of two texts.
pub fn str_le(a: &str, b: &str) -> (r: bool)
    ensures
        r == names_le(a@, b@),
{
    let x = a.as_bytes();
    let y = b.as_bytes();
    let ghost xs = x@;
    let ghost ys = y@;
    let mut i: usize = 0;
    assert(xs.skip(0) =~= xs);
    assert(ys.skip(0) =~= ys);
    loop
        invariant
            x@ == xs,
            y@ == ys,
            xs == a.spec_bytes(),
            ys == b.spec_bytes(),
            i <= xs.len(),
            i <= ys.len(),
            bytes_le(xs, ys) == bytes_le(xs.skip(i as int), ys.skip(i as int)),
        decreases xs.len() - i,
    {
        if i == x.len() {
            return true;
        }
        if i == y.len() {
            return false;
        }
        if x[i] < y[i] {
            return true;
        }
        if x[i] > y[i] {
            return false;
        }
        assert(xs.skip(i as int).drop_first() =~= xs.skip(i + 1));
        assert(ys.skip(i as int).drop_first() =~= ys.skip(i + 1));
        i = i + 1;
    }
}

/// Values that have a name to be ordered by.
pub trait Named {
    spec fn name_view(&self) -> Seq<char>;

    fn name_str(&self) -> (r: &str)
        ensures
            r@ == self.name_view(),
    ;
}

impl Named for String {
    open spec fn name_view(&self) -> Seq<char> {
        self@
    }

    fn name_str(&self) -> (r: &str) {
        self.as_str()
    }
}

/// Each entry's name is at most every later one's.
pub open spec fn sorted_by_name<T: Named>(s: Seq<T>) -> bool {
    forall|i: int, j: int|
        0 <= i < j < s.len() ==> names_le(#[trigger] s[i].name_view(), #[trigger] s[j].name_view())
}

/// The entries with name `n`, in order.
pub open spec fn named<T: Named>(s: Seq<T>, n: Seq<char>) -> Seq<T>
    decreases s.len(),
{
    if s.len() == 0 {
        s
    } else if s.last().name_view() == n {
        named(s.drop_last(), n).push(s.last())
    } else {
        named(s.drop_last(), n)
    }
}

/// Inserting an entry of another name leaves the entries named `n` as they were.
proof fn lemma_named_insert_other<T: Named>(s: Seq<T>, p: int, x: T, n: Seq<char>)
    requires
        0 <= p <= s.len(),
        x.name_view() != n,
    ensures
        named(s.insert(p, x), n) == named(s, n),
    decreases s.len(),
{
    let u = s.insert(p, x);
    if p == s.len() {
        assert(u.drop_last() =~= s);
    } else {
        assert(u.drop_last() =~= s.drop_last().insert(p, x));
        assert(u.last() == s.last());
        lemma_named_insert_other(s.drop_last(), p, x, n);
    }
}

/// Inserting an entry named `n` behind every other entry of that name appends it to them.
proof fn lemma_named_insert_same<T: Named>(s: Seq<T>, p: int, x: T, n: Seq<char>)
    requires
        0 <= p <= s.len(),
        x.name_view() == n,
        forall|k: int| p <= k < s.len() ==> (#[trigger] s[k]).name_view() != n,
    ensures
        named(s.insert(p, x), n) == named(s, n).push(x),
    decreases s.len(),
{
    let u = s.insert(p, x);
    if p == s.len() {
        assert(u.drop_last() =~= s);
    } else {
        assert(u.drop_last() =~= s.drop_last().insert(p, x));
        assert(u.last() == s.last());
        assert(s[s.len() - 1].name_view() != n);
        lemma_named_insert_same(s.drop_last(), p, x, n);
    }
}

/// Sorts by name, byte-wise, keeping entries of equal name in their order: what
/// `sort_by(|a, b| a.name.cmp(&b.name))` does.
pub fn sort_by_name<T: Named>(v: Vec<T>) -> (r: Vec<T>)
    ensures
        r@.to_multiset() == v@.to_multiset(),
        sorted_by_name(r@),
        forall|n: Seq<char>| #[trigger] named(r@, n) == named(v@, n),
{
    let ghost orig = v@;
    let ghost mut done: int = 0;
    let mut rest = v;
    let mut out: Vec<T> = Vec::new();
    proof {
        broadcast use vstd::seq_lib::group_to_multiset_ensures;
        assert(out@ =~= Seq::<T>::empty());
        assert(out@.to_multiset() =~= Multiset::<T>::empty());
        assert(out@.to_multiset().add(rest@.to_multiset()) =~= orig.to_multiset());
        assert(orig.subrange(done, orig.len() as int) =~= orig);
        assert forall|n: Seq<char>| #[trigger] named(out@, n) == named(orig.subrange(0, done), n) by {
            assert(orig.subrange(0, done) =~= out@);
        }
    }
    while rest.len() > 0
        invariant
            out@.to_multiset().add(rest@.to_multiset()) == orig.to_multiset(),
            sorted_by_name(out@),
            0 <= done <= orig.len(),
            rest@ == orig.subrange(done, orig.len() as int),
            forall|n: Seq<char>| #[trigger] named(out@, n) == named(orig.subrange(0, done), n),
        decreases rest.len(),
    {
        let ghost rest0 = rest@;
        let x = rest.remove(0);
        let mut pos = out.len();
        while pos > 0 && !str_le(out[pos - 1].name_str(), x.name_str())
            invariant
                pos <= out.len(),
                forall|k: int|
                    pos <= k < out.len() ==> !names_le(#[trigger] out@[k].name_view(), x.name_view()),
            decreases pos,
        {
            pos = pos - 1;
        }
        let ghost before = out@;
        proof {
            assert forall|k: int| 0 <= k < pos implies names_le(
                #[trigger] before[k].name_view(),
                x.name_view(),
            ) by {
                let p = pos - 1;
                if k < p {
                    assert(names_le(before[k].name_view(), before[p].name_view()));
                    lemma_bytes_le_transitive(
                        encode_utf8(before[k].name_view()),
                        encode_utf8(before[p].name_view()),
                        encode_utf8(x.name_view()),
                    );
                }
            }
            assert forall|k: int| pos <= k < before.len() implies names_le(
                x.name_view(),
                #[trigger] before[k].name_view(),
            ) by {
                lemma_bytes_le_total(encode_utf8(x.name_view()), encode_utf8(before[k].name_view()));
            }
        }
        out.insert(pos, x);
        proof {
            let after = out@;
            let pre = orig.subrange(0, done);
            let post = orig.subrange(0, done + 1);
            assert(rest0[0] == orig[done]);
            assert(post.drop_last() =~= pre);
            assert(post.last() == x);
            assert forall|n: Seq<char>| #[trigger] named(after, n) == named(post, n) by {
                if x.name_view() == n {
                    assert forall|k: int| pos <= k < before.len() implies (#[trigger] before[k]).name_view() != n by {
                        if before[k].name_view() == n {
                            lemma_bytes_le_reflexive(encode_utf8(n));
                        }
                    }
                    lemma_named_insert_same(before, pos as int, x, n);
                } else {
                    lemma_named_insert_other(before, pos as int, x, n);
                }
            }
            done = done + 1;
            assert(rest@ =~= orig.subrange(done, orig.len() as int));
            assert(after == before.insert(pos as int, x));
            assert forall|i: int, j: int| 0 <= i < j < after.len() implies names_le(
                #[trigger] after[i].name_view(),
                #[trigger] after[j].name_view(),
            ) by {
                if j < pos {
                    assert(after[i] == before[i] && after[j] == before[j]);
                } else if j == pos {
                    assert(after[i] == before[i]);
                } else if i == pos {
                    assert(after[j] == before[j - 1]);
                } else if i < pos {
                    assert(after[i] == before[i] && after[j] == before[j - 1]);
                } else {
                    assert(after[i] == before[i - 1] && after[j] == before[j - 1]);
                }
            }
            vstd::seq_lib::to_multiset_insert(before, pos as int, x);
            vstd::seq_lib::to_multiset_remove(rest0, 0);
            assert(rest0.to_multiset().count(x) > 0) by {
                vstd::seq_lib::to_multiset_contains(rest0, x);
                assert(rest0.contains(x)) by {
                    assert(rest0[0] == x);
                }
            }
            assert(out@.to_multiset().add(rest@.to_multiset()) =~= orig.to_multiset());
        }
    }
    proof {
        broadcast use vstd::seq_lib::group_to_multiset_ensures;
        assert(rest@ =~= Seq::<T>::empty());
        assert(rest@.to_multiset() =~= Multiset::<T>::empty());
        assert(out@.to_multiset() =~= out@.to_multiset().add(rest@.to_multiset()));
        assert(done == orig.len());
        assert(orig.subrange(0, done) =~= orig);
    }
    out
}


/// Entries of the collection that share a name are the same entry.
pub open spec fn names_identify<T: Named>(m: Multiset<T>) -> bool {
    forall|x: T, y: T|
        m.contains(x) && m.contains(y) && x.name_view() == y.name_view() ==> x == y
}

/// A collection whose names identify its entries has one sorted arrangement only.
pub proof fn lemma_sorted_unique<T: Named>(a: Seq<T>, b: Seq<T>)
    requires
        sorted_by_name(a),
        sorted_by_name(b),
        a.to_multiset() == b.to_multiset(),
        names_identify(a.to_multiset()),
    ensures
        a == b,
    decreases a.len(),
{
    broadcast use vstd::seq_lib::group_to_multiset_ensures;

    vstd::seq_lib::to_multiset_len(a);
    vstd::seq_lib::to_multiset_len(b);
    assert(a.len() == b.len());
    if a.len() == 0 {
        assert(a =~= b);
    } else {
        let x = a[0];
        let y = b[0];
        assert(a.contains(x));
        assert(a.to_multiset().count(x) > 0);
        assert(b.to_multiset().count(x) > 0);
        assert(b.contains(x));
        assert(b.contains(y));
        assert(b.to_multiset().count(y) > 0);
        assert(a.to_multiset().count(y) > 0);
        assert(a.contains(y));
        let j = choose|j: int| 0 <= j < b.len() && b[j] == x;
        let i = choose|i: int| 0 <= i < a.len() && a[i] == y;
        if j > 0 {
            assert(names_le(b[0].name_view(), b[j].name_view()));
        } else {
            lemma_bytes_le_reflexive(encode_utf8(y.name_view()));
        }
        if i > 0 {
            assert(names_le(a[0].name_view(), a[i].name_view()));
        } else {
            lemma_bytes_le_reflexive(encode_utf8(x.name_view()));
        }
        lemma_bytes_le_antisymmetric(encode_utf8(x.name_view()), encode_utf8(y.name_view()));
        lemma_encode_injective(x.name_view(), y.name_view());
        assert(x == y);
        let a1 = a.drop_first();
        let b1 = b.drop_first();
        assert(a1 =~= a.remove(0));
        assert(b1 =~= b.remove(0));
        vstd::seq_lib::to_multiset_remove(a, 0);
        vstd::seq_lib::to_multiset_remove(b, 0);
        assert(a1.to_multiset() == b1.to_multiset());
        assert forall|u: T, v: T|
            a1.to_multiset().contains(u) && a1.to_multiset().contains(v) && u.name_view()
                == v.name_view() implies u == v by {
            assert(a.to_multiset().contains(u));
            assert(a.to_multiset().contains(v));
        }
        assert forall|p: int, q: int| 0 <= p < q < a1.len() implies names_le(
            #[trigger] a1[p].name_view(),
            #[trigger] a1[q].name_view(),
        ) by {
            assert(a1[p] == a[p + 1] && a1[q] == a[q + 1]);
        }
        assert forall|p: int, q: int| 0 <= p < q < b1.len() implies names_le(
            #[trigger] b1[p].name_view(),
            #[trigger] b1[q].name_view(),
        ) by {
            assert(b1[p] == b[p + 1] && b1[q] == b[q + 1]);
        }
        lemma_sorted_unique(a1, b1);
        assert forall|k: int| 0 <= k < a.len() implies a[k] == b[k] by {
            if k > 0 {
                assert(a[k] == a1[k - 1] && b[k] == b1[k - 1]);
            }
        }
        assert(a =~= b);
    }
}

/// Rearranging a sequence rearranges its image.
pub proof fn lemma_map_values_multiset<A, B>(s: Seq<A>, t: Seq<A>, f: spec_fn(A) -> B)
    requires
        s.to_multiset() == t.to_multiset(),
    ensures
        s.map_values(f).to_multiset() == t.map_values(f).to_multiset(),
    decreases s.len(),
{
    broadcast use vstd::seq_lib::group_to_multiset_ensures;

    vstd::seq_lib::to_multiset_len(s);
    vstd::seq_lib::to_multiset_len(t);
    if s.len() == 0 {
        assert(t.len() == 0);
        assert(s.map_values(f) =~= t.map_values(f));
    } else {
        let x = s[0];
        assert(s.contains(x));
        assert(s.to_multiset().count(x) > 0);
        assert(t.to_multiset().count(x) > 0);
        assert(t.contains(x));
        let j = choose|j: int| 0 <= j < t.len() && t[j] == x;
        let s1 = s.remove(0);
        let t1 = t.remove(j);
        vstd::seq_lib::to_multiset_remove(s, 0);
        vstd::seq_lib::to_multiset_remove(t, j);
        assert(s1.to_multiset() =~= t1.to_multiset());
        lemma_map_values_multiset(s1, t1, f);
        let ms = s.map_values(f);
        let mt = t.map_values(f);
        assert(ms.remove(0) =~= s1.map_values(f));
        assert(mt.remove(j) =~= t1.map_values(f));
        vstd::seq_lib::to_multiset_remove(ms, 0);
        vstd::seq_lib::to_multiset_remove(mt, j);
        assert(ms.contains(f(x)));
        assert(mt[j] == f(x));
        assert(mt.contains(f(x)));
        assert(ms.to_multiset() =~= ms.to_multiset().remove(f(x)).insert(f(x)));
        assert(mt.to_multiset() =~= mt.to_multiset().remove(f(x)).insert(f(x)));
    }
}

} // verus!
