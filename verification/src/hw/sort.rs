//! Stable ordering of records by name, as `sort_by(|a, b| a.name.cmp(&b.name))`
//! orders them: names compare character by character (by code point, which
//! is the byte order of their UTF-8 text), a prefix first.

use vstd::prelude::*;

verus! {

/// Whether `a` comes no later than `b` in lexicographic code-point order.
pub open spec fn text_le(a: Seq<char>, b: Seq<char>) -> bool
    decreases a.len(),
{
    if a.len() == 0 {
        true
    } else if b.len() == 0 {
        false
    } else if a[0] != b[0] {
        a[0] < b[0]
    } else {
        text_le(a.drop_first(), b.drop_first())
    }
}

/// A record with a name to be ordered by.
pub trait Named {
    spec fn name_view(&self) -> Seq<char>;

    fn name_chars(&self) -> (r: Vec<char>)
        ensures
            r@ == self.name_view(),
    ;
}

/// Where a stable insertion puts `x` into `s`: before the first element at or
/// after `i` whose key comes strictly after the key of `x`.
pub open spec fn insert_pos<T>(s: Seq<T>, key: spec_fn(T) -> Seq<char>, x: T, i: int) -> int
    decreases s.len() - i,
{
    if i < 0 || i >= s.len() {
        s.len() as int
    } else if !text_le(key(s[i]), key(x)) {
        i
    } else {
        insert_pos(s, key, x, i + 1)
    }
}

/// `s` ordered by key, equal keys kept in their order.
pub open spec fn sorted_by_key<T>(s: Seq<T>, key: spec_fn(T) -> Seq<char>) -> Seq<T>
    decreases s.len(),
{
    if s.len() == 0 {
        s
    } else {
        let before = sorted_by_key(s.drop_last(), key);
        before.insert(insert_pos(before, key, s.last(), 0), s.last())
    }
}

/// `s` ordered by name, equal names kept in their order.
pub open spec fn sorted_by_name<T: Named>(s: Seq<T>) -> Seq<T> {
    sorted_by_key(s, |x: T| x.name_view())
}

/// Whether the keys of `s` never decrease.
pub open spec fn keys_ordered<T>(s: Seq<T>, key: spec_fn(T) -> Seq<char>) -> bool {
    forall|i: int, j: int| 0 <= i < j < s.len() ==> text_le(#[trigger] key(s[i]), #[trigger] key(s[j]))
}

/// Whether the name `a` comes no later than the name `b`.
fn name_le(a: &[char], b: &[char]) -> (r: bool)
    ensures
        r == text_le(a@, b@),
{
    let mut i: usize = 0;
    assert(a@.skip(0) =~= a@);
    assert(b@.skip(0) =~= b@);
    while i < a.len()
        invariant
            i <= a.len(),
            i <= b.len(),
            forall|k: int| 0 <= k < i ==> a@[k] == b@[k],
            text_le(a@, b@) == text_le(a@.skip(i as int), b@.skip(i as int)),
        decreases a.len() - i,
    {
        if i == b.len() {
            return false;
        }
        if a[i] != b[i] {
            return a[i] < b[i];
        }
        assert(a@.skip(i as int).drop_first() =~= a@.skip(i + 1));
        assert(b@.skip(i as int).drop_first() =~= b@.skip(i + 1));
        i += 1;
    }
    true
}

/// Orders records by name, keeping equal names in their order.
pub fn sort_by_name<T: Named>(items: Vec<T>) -> (r: Vec<T>)
    ensures
        r@ == sorted_by_name(items@),
{
    let ghost key = |x: T| x.name_view();
    let ghost input = items@;
    let total = items.len();
    let mut sorted: Vec<T> = Vec::new();
    let mut rest = items;
    assert(rest@ =~= input.skip(0));
    let mut n: usize = 0;
    while rest.len() > 0
        invariant
            n + rest@.len() == input.len(),
            input.len() == total,
            rest@ =~= input.skip(n as int),
            sorted@ == sorted_by_key(input.take(n as int), key),
            key == |x: T| x.name_view(),
        decreases rest.len(),
    {
        let x = rest.remove(0);
        assert(x == input[n as int]);
        let name = x.name_chars();
        let ghost before = sorted@;
        let mut k: usize = 0;
        while k < sorted.len()
            invariant_except_break
                k <= sorted.len(),
                sorted@ == before,
                name@ == x.name_view(),
                key == |x: T| x.name_view(),
                insert_pos(before, key, x, 0) == insert_pos(before, key, x, k as int),
            ensures
                k <= sorted.len(),
                sorted@ == before,
                insert_pos(before, key, x, 0) == k,
            decreases sorted.len() - k,
        {
            let other = sorted[k].name_chars();
            if !name_le(other.as_slice(), name.as_slice()) {
                break;
            }
            k += 1;
        }
        sorted.insert(k, x);
        assert(input.take(n + 1).drop_last() =~= input.take(n as int));
        assert(input.take(n + 1).last() == x);
        n += 1;
        assert(rest@ =~= input.skip(n as int));
    }
    assert(input.take(n as int) =~= input);
    sorted
}

proof fn lemma_text_le_total(a: Seq<char>, b: Seq<char>)
    ensures
        text_le(a, b) || text_le(b, a),
        text_le(a, b) && text_le(b, a) ==> a == b,
    decreases a.len(),
{
    if a.len() > 0 && b.len() > 0 && a[0] == b[0] {
        lemma_text_le_total(a.drop_first(), b.drop_first());
        if text_le(a, b) && text_le(b, a) {
            assert(a =~= seq![a[0]] + a.drop_first());
            assert(b =~= seq![b[0]] + b.drop_first());
        }
    }
}

proof fn lemma_text_le_transitive(a: Seq<char>, b: Seq<char>, c: Seq<char>)
    requires
        text_le(a, b),
        text_le(b, c),
    ensures
        text_le(a, c),
    decreases a.len(),
{
    if a.len() > 0 && b.len() > 0 && c.len() > 0 && a[0] == b[0] && b[0] == c[0] {
        lemma_text_le_transitive(a.drop_first(), b.drop_first(), c.drop_first());
    }
}

proof fn lemma_insert_pos<T>(s: Seq<T>, key: spec_fn(T) -> Seq<char>, x: T, i: int)
    requires
        0 <= i <= s.len(),
    ensures
        i <= insert_pos(s, key, x, i) <= s.len(),
        forall|k: int| i <= k < insert_pos(s, key, x, i) ==> text_le(#[trigger] key(s[k]), key(x)),
        insert_pos(s, key, x, i) < s.len() ==> !text_le(key(s[insert_pos(s, key, x, i)]), key(x)),
    decreases s.len() - i,
{
    if i < s.len() && text_le(key(s[i]), key(x)) {
        lemma_insert_pos(s, key, x, i + 1);
    }
}

/// Inserting a record at its stable place keeps the keys ordered.
proof fn lemma_insert_keeps_order<T>(before: Seq<T>, key: spec_fn(T) -> Seq<char>, x: T)
    requires
        keys_ordered(before, key),
    ensures
        keys_ordered(before.insert(insert_pos(before, key, x, 0), x), key),
{
    lemma_insert_pos(before, key, x, 0);
    let p = insert_pos(before, key, x, 0);
    let r = before.insert(p, x);
    before.insert_ensures(p, x);
    assert forall|i: int, j: int| 0 <= i < j < r.len() implies text_le(
        #[trigger] key(r[i]),
        #[trigger] key(r[j]),
    ) by {
        if j < p {
            assert(r[i] == before[i] && r[j] == before[j]);
        } else if j == p {
            assert(r[i] == before[i]);
        } else if i < p {
            assert(r[i] == before[i] && r[j] == before[j - 1]);
        } else if i == p {
            assert(r[j] == before[j - 1]);
            lemma_text_le_total(key(before[p]), key(x));
            if j - 1 > p {
                assert(text_le(key(before[p]), key(before[j - 1])));
                lemma_text_le_transitive(key(x), key(before[p]), key(before[j - 1]));
            }
        } else {
            assert(r[i] == before[i - 1] && r[j] == before[j - 1]);
        }
    }
}

/// Ordering by key yields the same elements, with keys that never decrease.
pub proof fn lemma_sorted_by_key<T>(s: Seq<T>, key: spec_fn(T) -> Seq<char>)
    ensures
        keys_ordered(sorted_by_key(s, key), key),
        sorted_by_key(s, key).to_multiset() == s.to_multiset(),
    decreases s.len(),
{
    if s.len() > 0 {
        let before = sorted_by_key(s.drop_last(), key);
        let x = s.last();
        lemma_sorted_by_key(s.drop_last(), key);
        lemma_insert_keeps_order(before, key, x);
        lemma_insert_pos(before, key, x, 0);
        vstd::seq_lib::to_multiset_insert(before, insert_pos(before, key, x, 0), x);
        vstd::seq_lib::to_multiset_build(s.drop_last(), x);
        assert(s =~= s.drop_last().push(x));
    }
}

/// Ordering commutes with a map that keeps the keys: ordering the images by
/// their keys gives the images of the ordered elements.
pub proof fn lemma_sorted_by_key_map<T, V>(
    s: Seq<T>,
    f: spec_fn(T) -> V,
    key: spec_fn(T) -> Seq<char>,
    image_key: spec_fn(V) -> Seq<char>,
)
    requires
        forall|x: T| #[trigger] image_key(f(x)) == key(x),
    ensures
        sorted_by_key(s, key).map_values(f) == sorted_by_key(s.map_values(f), image_key),
    decreases s.len(),
{
    if s.len() > 0 {
        let before = sorted_by_key(s.drop_last(), key);
        let x = s.last();
        lemma_sorted_by_key_map(s.drop_last(), f, key, image_key);
        assert(s.map_values(f).drop_last() =~= s.drop_last().map_values(f));
        let mb = before.map_values(f);
        lemma_insert_pos_map(before, f, key, image_key, x, 0);
        let p = insert_pos(before, key, x, 0);
        lemma_insert_pos(before, key, x, 0);
        assert(before.insert(p, x).map_values(f) =~= mb.insert(p, f(x)));
    }
}

proof fn lemma_insert_pos_map<T, V>(
    s: Seq<T>,
    f: spec_fn(T) -> V,
    key: spec_fn(T) -> Seq<char>,
    image_key: spec_fn(V) -> Seq<char>,
    x: T,
    i: int,
)
    requires
        forall|x: T| #[trigger] image_key(f(x)) == key(x),
        0 <= i,
    ensures
        insert_pos(s.map_values(f), image_key, f(x), i) == insert_pos(s, key, x, i),
    decreases s.len() - i,
{
    if i < s.len() {
        assert(image_key(s.map_values(f)[i]) == key(s[i]));
        assert(image_key(f(x)) == key(x));
        lemma_insert_pos_map(s, f, key, image_key, x, i + 1);
    }
}

} // verus!
