//! Text in the lexicographic order of its characters, and a sort of strings by that order.
use vstd::prelude::*;
use vstd::relations::*;
use vstd::seq_lib::*;

verus! {

/// `a` comes no later than `b` when compared character by character by code point, a
/// proper prefix coming first. This is the order of `str` and `String` in std (UTF-8 keeps
/// the order of code points).
pub open spec fn text_le(a: Seq<char>, b: Seq<char>) -> bool
    decreases a.len(),
{
    if a.len() == 0 {
        true
    } else if b.len() == 0 {
        false
    } else if a[0] != b[0] {
        (a[0] as int) < (b[0] as int)
    } else {
        text_le(a.drop_first(), b.drop_first())
    }
}

/// `text_le` as a relation.
pub open spec fn text_order() -> spec_fn(Seq<char>, Seq<char>) -> bool {
    |a: Seq<char>, b: Seq<char>| text_le(a, b)
}

/// The views of a sequence of strings.
pub open spec fn texts(v: Seq<String>) -> Seq<Seq<char>> {
    v.map_values(|s: String| s@)
}

pub proof fn lemma_text_le_reflexive(a: Seq<char>)
    ensures
        text_le(a, a),
    decreases a.len(),
{
    if a.len() > 0 {
        lemma_text_le_reflexive(a.drop_first());
    }
}

proof fn lemma_text_le_antisymmetric(a: Seq<char>, b: Seq<char>)
    requires
        text_le(a, b),
        text_le(b, a),
    ensures
        a == b,
    decreases a.len(),
{
    if a.len() == 0 {
        assert(a =~= b);
    } else {
        assert(b.len() > 0);
        assert(a[0] == b[0]);
        lemma_text_le_antisymmetric(a.drop_first(), b.drop_first());
        assert(a.drop_first().len() == b.drop_first().len());
        assert(a.len() == b.len());
        assert forall|i: int| 0 <= i < a.len() implies a[i] == b[i] by {
            if i > 0 {
                assert(a[i] == a.drop_first()[i - 1]);
                assert(b[i] == b.drop_first()[i - 1]);
            }
        }
        assert(a =~= b);
    }
}

proof fn lemma_text_le_transitive(a: Seq<char>, b: Seq<char>, c: Seq<char>)
    requires
        text_le(a, b),
        text_le(b, c),
    ensures
        text_le(a, c),
    decreases a.len(),
{
    if a.len() > 0 && a[0] == b[0] && b[0] == c[0] {
        lemma_text_le_transitive(a.drop_first(), b.drop_first(), c.drop_first());
    }
}

proof fn lemma_text_le_total(a: Seq<char>, b: Seq<char>)
    ensures
        text_le(a, b) || text_le(b, a),
    decreases a.len(),
{
    if a.len() > 0 && b.len() > 0 && a[0] == b[0] {
        lemma_text_le_total(a.drop_first(), b.drop_first());
    }
}

/// `text_le` is a total order.
pub proof fn lemma_text_order()
    ensures
        total_ordering(text_order()),
{
    assert forall|x: Seq<char>| #[trigger] text_order()(x, x) by {
        lemma_text_le_reflexive(x);
    }
    assert forall|x: Seq<char>, y: Seq<char>|
        #[trigger] text_order()(x, y) && #[trigger] text_order()(y, x) implies x == y by {
        lemma_text_le_antisymmetric(x, y);
    }
    assert forall|x: Seq<char>, y: Seq<char>, z: Seq<char>|
        #[trigger] text_order()(x, y) && #[trigger] text_order()(y, z) implies text_order()(
        x,
        z,
    ) by {
        lemma_text_le_transitive(x, y, z);
    }
    assert forall|x: Seq<char>, y: Seq<char>|
        #[trigger] text_order()(x, y) || #[trigger] text_order()(y, x) by {
        lemma_text_le_total(x, y);
    }
}

/// Whether `a` comes no later than `b`.
pub fn text_le_exec(a: &Vec<char>, b: &Vec<char>) -> (r: bool)
    ensures
        r == text_le(a@, b@),
{
    let mut i: usize = 0;
    assert(a@.skip(0) =~= a@);
    assert(b@.skip(0) =~= b@);
    while i < a.len() && i < b.len() && a[i] == b[i]
        invariant
            i <= a.len(),
            i <= b.len(),
            text_le(a@, b@) == text_le(a@.skip(i as int), b@.skip(i as int)),
        decreases a.len() - i,
    {
        assert(a@.skip(i as int).drop_first() =~= a@.skip(i + 1));
        assert(b@.skip(i as int).drop_first() =~= b@.skip(i + 1));
        i = i + 1;
    }
    if i == a.len() {
        true
    } else if i == b.len() {
        false
    } else {
        a[i] < b[i]
    }
}

proof fn lemma_insert_sorted(o: Seq<Seq<char>>, p: int, x: Seq<char>)
    requires
        sorted_by(o, text_order()),
        0 <= p <= o.len(),
        forall|j: int| 0 <= j < p ==> !text_le(x, #[trigger] o[j]),
        p < o.len() ==> text_le(x, o[p]),
    ensures
        sorted_by(o.insert(p, x), text_order()),
{
    lemma_text_order();
    let n = o.insert(p, x);
    assert forall|i: int, j: int| 0 <= i < j < n.len() implies #[trigger] text_order()(
        n[i],
        n[j],
    ) by {
        // x comes no later than every element from position p on
        if j > p {
            if j - 1 > p {
                assert(text_order()(o[p], o[j - 1]));
                lemma_text_le_transitive(x, o[p], o[j - 1]);
            }
            assert(text_le(x, o[j - 1]));
        }
        if i < p {
            assert(!text_le(x, o[i]));
            lemma_text_le_total(x, o[i]);
        }
        if i < p && j > p {
            lemma_text_le_transitive(o[i], x, o[j - 1]);
        }
        if i > p {
            assert(text_order()(o[i - 1], o[j - 1]));
        }
        if j < p {
            assert(text_order()(o[i], o[j]));
        }
    }
}

/// `v` sorted in the order of `text_le` (what `Vec::sort` does to strings).
pub fn sort_texts(v: &Vec<String>) -> (r: Vec<String>)
    ensures
        texts(r@) == texts(v@).sort_by(text_order()),
{
    let ghost target = texts(v@);
    let mut out: Vec<String> = Vec::new();
    let mut keys: Vec<Vec<char>> = Vec::new();
    let mut i: usize = 0;
    assert(texts(out@) =~= Seq::<Seq<char>>::empty());
    assert(target.take(0) =~= Seq::<Seq<char>>::empty());
    while i < v.len()
        invariant
            i <= v.len(),
            target == texts(v@),
            keys@.len() == out@.len(),
            forall|j: int| 0 <= j < keys@.len() ==> (#[trigger] keys@[j])@ == out@[j]@,
            sorted_by(texts(out@), text_order()),
            texts(out@).to_multiset() == target.take(i as int).to_multiset(),
        decreases v.len() - i,
    {
        let s = v[i].clone();
        let k = crate::text::chars_of(s.as_str());
        let mut p: usize = 0;
        while p < keys.len() && !text_le_exec(&k, &keys[p])
            invariant
                p <= keys@.len() == out@.len(),
                k@ == s@,
                forall|j: int| 0 <= j < keys@.len() ==> (#[trigger] keys@[j])@ == out@[j]@,
                forall|j: int| 0 <= j < p ==> !text_le(s@, #[trigger] texts(out@)[j]),
            decreases keys@.len() - p,
        {
            p = p + 1;
        }
        let ghost old_texts = texts(out@);
        proof {
            lemma_insert_sorted(old_texts, p as int, s@);
            to_multiset_insert(old_texts, p as int, s@);
            assert(target.take(i + 1) =~= target.take(i as int).push(target[i as int]));
            to_multiset_build(target.take(i as int), target[i as int]);
        }
        out.insert(p, s);
        keys.insert(p, k);
        assert(texts(out@) =~= old_texts.insert(p as int, v@[i as int]@));
        i = i + 1;
    }
    proof {
        assert(target.take(v@.len() as int) =~= target);
        lemma_text_order();
        target.lemma_sort_by_ensures(text_order());
        lemma_sorted_unique(texts(out@), target.sort_by(text_order()), text_order());
    }
    out
}

/// A copy of a list of strings.
pub fn copy_texts(v: &Vec<String>) -> (r: Vec<String>)
    ensures
        texts(r@) == texts(v@),
{
    let mut out: Vec<String> = Vec::new();
    let mut i: usize = 0;
    while i < v.len()
        invariant
            i <= v@.len(),
            texts(out@) == texts(v@).take(i as int),
        decreases v.len() - i,
    {
        let s = v[i].clone();
        proof {
            assert(s@ == v@[i as int]@);
        }
        let ghost before = out@;
        out.push(s);
        proof {
            assert(out@ =~= before.push(s));
            assert(texts(out@) =~= texts(before).push(s@));
            assert(texts(v@).take(i + 1) =~= texts(v@).take(i as int).push(texts(v@)[i as int]));
        }
        i = i + 1;
    }
    assert(texts(v@).take(v@.len() as int) =~= texts(v@));
    out
}

} // verus!
