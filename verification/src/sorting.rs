use vstd::prelude::*;

verus! {

/// `a` comes before `b`, or equals it, character by character, a prefix
/// first: the order of texts.
pub open spec fn text_le(a: Seq<char>, b: Seq<char>) -> bool
    decreases a.len(),
{
    if a.len() == 0 {
        true
    } else if b.len() == 0 {
        false
    } else if a[0] != b[0] {
        (a[0] as int) < (b[0] as int)
    } else {
        text_le(a.drop_first(), b.drop_first())
    }
}

pub proof fn lemma_text_le_total(a: Seq<char>, b: Seq<char>)
    ensures
        text_le(a, b) || text_le(b, a),
    decreases a.len(),
{
    if a.len() > 0 && b.len() > 0 {
        if a[0] == b[0] {
            lemma_text_le_total(a.drop_first(), b.drop_first());
        } else {
            assert((a[0] as int) != (b[0] as int));
        }
    }
}

pub proof fn lemma_text_le_transitive(a: Seq<char>, b: Seq<char>, c: Seq<char>)
    requires
        text_le(a, b),
        text_le(b, c),
    ensures
        text_le(a, c),
    decreases a.len(),
{
    if a.len() > 0 && b.len() > 0 && c.len() > 0 && a[0] == b[0] && b[0] == c[0] {
        lemma_text_le_transitive(a.drop_first(), b.drop_first(), c.drop_first());
    }
}

pub proof fn lemma_text_le_antisymmetric(a: Seq<char>, b: Seq<char>)
    requires
        text_le(a, b),
        text_le(b, a),
    ensures
        a == b,
    decreases a.len(),
{
    if a.len() > 0 && b.len() > 0 {
        assert(a[0] == b[0]);
        lemma_text_le_antisymmetric(a.drop_first(), b.drop_first());
        assert forall|i: int| 0 <= i < a.len() implies a[i] == b[i] by {
            if i > 0 {
                assert(a[i] == a.drop_first()[i - 1]);
                assert(b[i] == b.drop_first()[i - 1]);
            }
        }
        assert(a =~= b);
    }
}

pub proof fn lemma_text_le_reflexive(a: Seq<char>)
    ensures
        text_le(a, a),
    decreases a.len(),
{
    if a.len() > 0 {
        lemma_text_le_reflexive(a.drop_first());
    }
}

/// Whether both texts are the same.
pub fn same_text(a: &str, b: &str) -> (res: bool)
    ensures
        res == (a@ == b@),
{
    let ab = text_before_or_same(a, b);
    let ba = text_before_or_same(b, a);
    proof {
        if ab && ba {
            lemma_text_le_antisymmetric(a@, b@);
        }
        if a@ == b@ {
            lemma_text_le_reflexive(a@);
        }
    }
    ab && ba
}

/// Whether `a` comes before `b` or equals it, in the order of texts.
pub fn text_before_or_same(a: &str, b: &str) -> (res: bool)
    ensures
        res == text_le(a@, b@),
{
    let la = a.unicode_len();
    let lb = b.unicode_len();
    let mut i: usize = 0;
    assert(a@.skip(0) =~= a@);
    assert(b@.skip(0) =~= b@);
    while i < la && i < lb
        invariant
            la == a@.len(),
            lb == b@.len(),
            i <= la,
            i <= lb,
            a@.subrange(0, i as int) == b@.subrange(0, i as int),
            text_le(a@, b@) == text_le(a@.skip(i as int), b@.skip(i as int)),
        decreases la - i,
    {
        let ca = a.get_char(i);
        let cb = b.get_char(i);
        proof {
            assert(a@.skip(i as int)[0] == ca);
            assert(b@.skip(i as int)[0] == cb);
        }
        if ca != cb {
            return (ca as u32) < (cb as u32);
        }
        proof {
            assert(a@.skip(i as int).drop_first() =~= a@.skip(i + 1));
            assert(b@.skip(i as int).drop_first() =~= b@.skip(i + 1));
            assert(a@.subrange(0, i + 1) =~= a@.subrange(0, i as int).push(ca));
            assert(b@.subrange(0, i + 1) =~= b@.subrange(0, i as int).push(cb));
        }
        i += 1;
    }
    proof {
        if i == la {
            assert(a@.skip(i as int).len() == 0);
        } else {
            assert(b@.skip(i as int).len() == 0);
        }
    }
    i == la
}

/// Values with a total preorder, by which they can be sorted.
pub trait SortKey: Sized {
    spec fn key_le(&self, other: &Self) -> bool;

    fn le(&self, other: &Self) -> (res: bool)
        ensures
            res == self.key_le(other),
    ;

    proof fn lemma_key_le_total(a: &Self, b: &Self)
        ensures
            a.key_le(b) || b.key_le(a),
    ;

    proof fn lemma_key_le_transitive(a: &Self, b: &Self, c: &Self)
        requires
            a.key_le(b),
            b.key_le(c),
        ensures
            a.key_le(c),
    ;
}

/// `x` inserted into `sorted` after every element that comes before it or
/// ties with it.
pub open spec fn insert_sorted<T: SortKey>(sorted: Seq<T>, x: T) -> Seq<T>
    decreases sorted.len(),
{
    if sorted.len() == 0 {
        seq![x]
    } else if sorted.last().key_le(&x) {
        sorted.push(x)
    } else {
        insert_sorted(sorted.drop_last(), x).push(sorted.last())
    }
}

/// The stable sort of `s`: sorted by key, ties in their order in `s`.
pub open spec fn stable_sort<T: SortKey>(s: Seq<T>) -> Seq<T>
    decreases s.len(),
{
    if s.len() == 0 {
        s
    } else {
        insert_sorted(stable_sort(s.drop_last()), s.last())
    }
}

pub open spec fn is_sorted<T: SortKey>(s: Seq<T>) -> bool {
    forall|i: int, j: int| 0 <= i < j < s.len() ==> (#[trigger] s[i]).key_le(#[trigger] &s[j])
}

proof fn lemma_insert_at<T: SortKey>(sorted: Seq<T>, x: T, j: int)
    requires
        0 <= j <= sorted.len(),
        forall|k: int| j <= k < sorted.len() ==> !(#[trigger] sorted[k]).key_le(&x),
        j > 0 ==> sorted[j - 1].key_le(&x),
    ensures
        insert_sorted(sorted, x) == sorted.insert(j, x),
    decreases sorted.len(),
{
    if sorted.len() == 0 {
        assert(sorted.insert(j, x) =~= seq![x]);
    } else if j == sorted.len() {
        assert(sorted.insert(j, x) =~= sorted.push(x));
    } else {
        let rest = sorted.drop_last();
        assert forall|k: int| j <= k < rest.len() implies !(#[trigger] rest[k]).key_le(&x) by {
            assert(rest[k] == sorted[k]);
        }
        lemma_insert_at(rest, x, j);
        assert(rest.insert(j, x).push(sorted.last()) =~= sorted.insert(j, x));
    }
}

proof fn lemma_insert_sorted_keeps_order<T: SortKey>(sorted: Seq<T>, x: T)
    requires
        is_sorted(sorted),
    ensures
        is_sorted(insert_sorted(sorted, x)),
        insert_sorted(sorted, x).to_multiset() == sorted.to_multiset().insert(x),
    decreases sorted.len(),
{
    broadcast use vstd::seq_lib::group_to_multiset_ensures;
    if sorted.len() == 0 {
        assert(seq![x] =~= Seq::<T>::empty().push(x));
    } else if sorted.last().key_le(&x) {
        let s = sorted.push(x);
        assert forall|i: int, j: int| 0 <= i < j < s.len() implies (#[trigger] s[i]).key_le(#[trigger] &s[j]) by {
            if j == s.len() - 1 {
                if i < sorted.len() - 1 {
                    T::lemma_key_le_transitive(&s[i], &sorted.last(), &x);
                }
            }
        }
    } else {
        let rest = sorted.drop_last();
        let last = sorted.last();
        assert forall|i: int, j: int| 0 <= i < j < rest.len() implies (#[trigger] rest[i]).key_le(#[trigger] &rest[j]) by {
            assert(sorted[i].key_le(&sorted[j]));
        }
        lemma_insert_sorted_keeps_order(rest, x);
        let inner = insert_sorted(rest, x);
        let s = inner.push(last);
        T::lemma_key_le_total(&last, &x);
        assert(inner.to_multiset().count(x) > 0);
        assert forall|i: int, j: int| 0 <= i < j < s.len() implies (#[trigger] s[i]).key_le(#[trigger] &s[j]) by {
            if j == s.len() - 1 {
                // every element of inner is a rest element or x, all before last
                assert(inner.to_multiset().count(s[i]) > 0);
                assert(inner.contains(s[i]));
                if s[i] != x {
                    assert(rest.to_multiset().count(s[i]) > 0);
                    assert(rest.contains(s[i]));
                    let k = choose|k: int| 0 <= k < rest.len() && rest[k] == s[i];
                    assert(sorted[k].key_le(&sorted[sorted.len() - 1]));
                }
            }
        }
        assert(rest.push(last) =~= sorted);
    }
}

/// Law: the stable sort orders by key and keeps every element.
pub proof fn law_stable_sort_sorts<T: SortKey>(s: Seq<T>)
    ensures
        is_sorted(stable_sort(s)),
        stable_sort(s).to_multiset() == s.to_multiset(),
    decreases s.len(),
{
    broadcast use vstd::seq_lib::group_to_multiset_ensures;
    if s.len() > 0 {
        law_stable_sort_sorts(s.drop_last());
        lemma_insert_sorted_keeps_order(stable_sort(s.drop_last()), s.last());
        assert(s.drop_last().push(s.last()) =~= s);
    }
}

/// Sorts `v` by key, keeping ties in their order.
pub fn sort_stable<T: SortKey>(v: Vec<T>) -> (res: Vec<T>)
    ensures
        res@ == stable_sort(v@),
{
    let mut input = v;
    let ghost given = input@;
    let n = input.len();
    let mut sorted: Vec<T> = Vec::new();
    let mut done: usize = 0;
    while input.len() > 0
        invariant
            given.len() == n,
            done + input@.len() == given.len(),
            input@ == given.skip(done as int),
            sorted@ == stable_sort(given.take(done as int)),
        decreases input@.len(),
    {
        let x = input.remove(0);
        let ghost prefix = given.take(done as int);
        let mut j: usize = sorted.len();
        while j > 0 && !sorted[j - 1].le(&x)
            invariant
                j <= sorted@.len(),
                forall|k: int| j <= k < sorted@.len() ==> !(#[trigger] sorted@[k]).key_le(&x),
            decreases j,
        {
            j -= 1;
        }
        proof {
            lemma_insert_at(sorted@, x, j as int);
            assert(given.take(done + 1).drop_last() =~= prefix);
            assert(given.take(done + 1).last() == x);
            assert(input@ =~= given.skip(done + 1));
        }
        sorted.insert(j, x);
        done += 1;
    }
    proof {
        assert(given.take(done as int) =~= given);
    }
    sorted
}

/// The stable sort keeps the number of elements.
pub proof fn law_stable_sort_keeps_length<T: SortKey>(s: Seq<T>)
    ensures
        stable_sort(s).len() == s.len(),
{
    law_stable_sort_sorts(s);
    vstd::seq_lib::to_multiset_len(s);
    vstd::seq_lib::to_multiset_len(stable_sort(s));
}

} // verus!
