//! The order of texts, and sorting by it.

use vstd::prelude::*;

use crate::text::chars_of;

verus! {

/// Whether `a` comes before `b` or is the same: by the first characters that
/// differ, or else the shorter one first.
pub open spec fn text_le(a: Seq<char>, b: Seq<char>) -> bool
    decreases a.len(),
{
    if a.len() == 0 {
        true
    } else if b.len() == 0 {
        false
    } else if a[0] != b[0] {
        a[0] < b[0]
    } else {
        text_le(a.skip(1), b.skip(1))
    }
}

/// Whether `a` comes before `b` or is the same.
pub fn is_text_le(a: &str, b: &str) -> (r: bool)
    ensures
        r == text_le(a@, b@),
{
    let x = chars_of(a);
    let y = chars_of(b);
    let mut i: usize = 0;
    assert(x@.skip(0) =~= x@);
    assert(y@.skip(0) =~= y@);
    while i < x.len()
        invariant
            i <= x@.len(),
            i <= y@.len(),
            x@ == a@,
            y@ == b@,
            text_le(a@, b@) == text_le(x@.skip(i as int), y@.skip(i as int)),
        decreases x@.len() - i,
    {
        if i >= y.len() {
            return false;
        }
        if x[i] != y[i] {
            return x[i] < y[i];
        }
        assert(x@.skip(i as int).skip(1) =~= x@.skip(i + 1));
        assert(y@.skip(i as int).skip(1) =~= y@.skip(i + 1));
        i += 1;
    }
    true
}

/// The order of texts is total.
pub proof fn lemma_text_le_total(a: Seq<char>, b: Seq<char>)
    ensures
        text_le(a, b) || text_le(b, a),
    decreases a.len(),
{
    if a.len() > 0 && b.len() > 0 && a[0] == b[0] {
        lemma_text_le_total(a.skip(1), b.skip(1));
    }
}

/// The order of texts is transitive.
pub proof fn lemma_text_le_transitive(a: Seq<char>, b: Seq<char>, c: Seq<char>)
    requires
        text_le(a, b),
        text_le(b, c),
    ensures
        text_le(a, c),
    decreases a.len(),
{
    if a.len() > 0 && a[0] == b[0] && b[0] == c[0] {
        lemma_text_le_transitive(a.skip(1), b.skip(1), c.skip(1));
    }
}

/// The positions in `s`, which are sorted by their keys, with one more: after
/// those whose keys come before its own or are the same.
pub open spec fn insert_position(keys: Seq<Seq<char>>, s: Seq<int>, i: int) -> Seq<int>
    decreases s.len(),
{
    if s.len() == 0 || text_le(keys[s.last()], keys[i]) {
        s.push(i)
    } else {
        insert_position(keys, s.drop_last(), i).push(s.last())
    }
}

/// The first `n` positions, sorted by their keys. Positions with one key stay
/// in their order.
pub open spec fn sorted_positions(keys: Seq<Seq<char>>, n: nat) -> Seq<int>
    decreases n,
{
    if n == 0 {
        seq![]
    } else {
        insert_position(keys, sorted_positions(keys, (n - 1) as nat), n - 1)
    }
}

/// The positions of a list, as integers.
pub open spec fn positions_view(v: Seq<usize>) -> Seq<int> {
    Seq::new(v.len(), |i: int| v[i] as int)
}

/// The characters of a list of texts.
pub open spec fn keys_view(v: Seq<String>) -> Seq<Seq<char>> {
    Seq::new(v.len(), |i: int| v[i]@)
}

/// A list of positions is as long as what it was made from.
pub proof fn lemma_sorted_len(keys: Seq<Seq<char>>, n: nat)
    ensures
        sorted_positions(keys, n).len() == n,
        forall|k: int|
            0 <= k < n ==> 0 <= #[trigger] sorted_positions(keys, n)[k] < n,
    decreases n,
{
    if n > 0 {
        let s = sorted_positions(keys, (n - 1) as nat);
        lemma_sorted_len(keys, (n - 1) as nat);
        lemma_insert_len(keys, s, n - 1);
        let t = insert_position(keys, s, n - 1);
        assert forall|k: int| 0 <= k < n implies 0 <= #[trigger] t[k] < n by {
            assert(t.contains(t[k]));
            if t[k] != n - 1 {
                let j = choose|j: int| 0 <= j < s.len() && s[j] == t[k];
                assert(0 <= s[j] < n - 1);
            }
        }
    }
}

/// Inserting a position adds that one and no other.
proof fn lemma_insert_len(keys: Seq<Seq<char>>, s: Seq<int>, i: int)
    ensures
        insert_position(keys, s, i).len() == s.len() + 1,
        insert_position(keys, s, i).to_multiset() == s.to_multiset().insert(i),
        forall|x: int| #[trigger]
            insert_position(keys, s, i).contains(x) ==> x == i || s.contains(x),
    decreases s.len(),
{
    broadcast use vstd::seq_lib::group_to_multiset_ensures;

    let t = insert_position(keys, s, i);
    if s.len() == 0 || text_le(keys[s.last()], keys[i]) {
        assert forall|x: int| #[trigger] t.contains(x) implies x == i || s.contains(x) by {
            let k = choose|k: int| 0 <= k < t.len() && t[k] == x;
            if k < s.len() {
                assert(s[k] == x);
            }
        }
    } else {
        let front = s.drop_last();
        lemma_insert_len(keys, front, i);
        let u = insert_position(keys, front, i);
        assert(s =~= front.push(s.last()));
        assert(t.to_multiset() =~= s.to_multiset().insert(i));
        assert forall|x: int| #[trigger] t.contains(x) implies x == i || s.contains(x) by {
            let k = choose|k: int| 0 <= k < t.len() && t[k] == x;
            if k < u.len() {
                assert(u[k] == x);
                assert(u.contains(x));
                if x != i {
                    let j = choose|j: int| 0 <= j < front.len() && front[j] == x;
                    assert(s[j] == x);
                }
            } else {
                assert(s[s.len() - 1] == x);
            }
        }
    }
}

/// Whether positions are in the order of their keys.
pub open spec fn in_order(keys: Seq<Seq<char>>, s: Seq<int>) -> bool {
    forall|a: int, b: int|
        0 <= a < b < s.len() ==> text_le(keys[#[trigger] s[a]], keys[#[trigger] s[b]])
}

/// Inserting a position keeps the order.
proof fn lemma_insert_in_order(keys: Seq<Seq<char>>, s: Seq<int>, i: int)
    requires
        in_order(keys, s),
    ensures
        in_order(keys, insert_position(keys, s, i)),
    decreases s.len(),
{
    let t = insert_position(keys, s, i);
    if s.len() == 0 || text_le(keys[s.last()], keys[i]) {
        assert forall|a: int, b: int| 0 <= a < b < t.len() implies text_le(
            keys[#[trigger] t[a]],
            keys[#[trigger] t[b]],
        ) by {
            assert(t[a] == s[a]);
            if b < s.len() {
                assert(t[b] == s[b]);
            } else if a < s.len() - 1 {
                assert(text_le(keys[s[a]], keys[s[s.len() - 1]]));
                lemma_text_le_transitive(keys[s[a]], keys[s.last()], keys[i]);
            }
        }
    } else {
        let front = s.drop_last();
        assert forall|a: int, b: int| 0 <= a < b < front.len() implies text_le(
            keys[#[trigger] front[a]],
            keys[#[trigger] front[b]],
        ) by {
            assert(text_le(keys[s[a]], keys[s[b]]));
        }
        lemma_insert_in_order(keys, front, i);
        lemma_insert_len(keys, front, i);
        let u = insert_position(keys, front, i);
        lemma_text_le_total(keys[s.last()], keys[i]);
        assert forall|a: int, b: int| 0 <= a < b < t.len() implies text_le(
            keys[#[trigger] t[a]],
            keys[#[trigger] t[b]],
        ) by {
            assert(t[a] == u[a]);
            if b < u.len() {
                assert(t[b] == u[b]);
            } else {
                assert(u.contains(u[a]));
                if u[a] != i {
                    let j = choose|j: int| 0 <= j < front.len() && front[j] == u[a];
                    assert(s[j] == u[a]);
                    assert(text_le(keys[s[j]], keys[s[s.len() - 1]]));
                }
            }
        }
    }
}

/// Sorting positions gives each of them once, in the order of their keys.
pub proof fn law_sorted(keys: Seq<Seq<char>>, n: nat)
    ensures
        in_order(keys, sorted_positions(keys, n)),
        sorted_positions(keys, n).to_multiset() == Seq::new(n, |i: int| i).to_multiset(),
    decreases n,
{
    broadcast use vstd::seq_lib::group_to_multiset_ensures;

    let all = Seq::new(n, |i: int| i);
    if n > 0 {
        let m = (n - 1) as nat;
        let some = Seq::new(m, |i: int| i);
        law_sorted(keys, m);
        lemma_insert_in_order(keys, sorted_positions(keys, m), n - 1);
        lemma_insert_len(keys, sorted_positions(keys, m), n - 1);
        assert(all =~= some.push(n - 1));
    } else {
        assert(sorted_positions(keys, n) =~= all);
    }
}

/// The positions of keys, sorted by the keys.
pub fn sort_positions(keys: &Vec<String>) -> (r: Vec<usize>)
    ensures
        positions_view(r@) == sorted_positions(keys_view(keys@), keys@.len()),
        r@.len() == keys@.len(),
        forall|k: int| 0 <= k < r@.len() ==> #[trigger] r@[k] < keys@.len(),
{
    let ghost views = keys_view(keys@);
    let mut out: Vec<usize> = Vec::new();
    let mut i: usize = 0;
    assert(positions_view(out@) =~= seq![]);
    while i < keys.len()
        invariant
            i <= keys@.len(),
            views == keys_view(keys@),
            positions_view(out@) == sorted_positions(views, i as nat),
            out@.len() == i,
            forall|k: int| 0 <= k < out@.len() ==> #[trigger] out@[k] < i,
        decreases keys@.len() - i,
    {
        let ghost s = positions_view(out@);
        let ghost before = out@;
        let mut p: usize = out.len();
        assert(s.take(p as int) =~= s);
        assert(s.skip(p as int) =~= seq![]);
        assert(insert_position(views, s, i as int) + s.skip(p as int) =~= insert_position(
            views,
            s.take(p as int),
            i as int,
        ) + s.skip(p as int));
        while p > 0 && !is_text_le(keys[out[p - 1]].as_str(), keys[i].as_str())
            invariant
                p <= out@.len(),
                i < keys@.len(),
                out@ == before,
                views == keys_view(keys@),
                s == positions_view(out@),
                forall|k: int| 0 <= k < out@.len() ==> #[trigger] out@[k] < i,
                insert_position(views, s, i as int) == insert_position(
                    views,
                    s.take(p as int),
                    i as int,
                ) + s.skip(p as int),
            decreases p,
        {
            proof {
                let front = s.take(p as int);
                assert(front.drop_last() =~= s.take(p - 1));
                assert(front.last() == s[p - 1]);
                assert(insert_position(views, s.take(p - 1), i as int).push(s[p - 1]) + s.skip(
                    p as int,
                ) =~= insert_position(views, s.take(p - 1), i as int) + s.skip(p - 1));
            }
            p -= 1;
        }
        proof {
            let front = s.take(p as int);
            if p > 0 {
                assert(front.last() == s[p - 1]);
            }
            assert(insert_position(views, front, i as int) == front.push(i as int));
        }
        out.insert(p, i);
        assert(positions_view(out@) =~= s.take(p as int).push(i as int) + s.skip(p as int));
        i += 1;
    }
    out
}

/// The order of texts is that of a dictionary: a text comes before another one
/// where it is the beginning of it, or where the first characters that differ
/// come in that order.
pub proof fn law_dictionary_order(a: Seq<char>, b: Seq<char>, k: int)
    requires
        0 <= k <= a.len(),
        k <= b.len(),
        a.take(k) == b.take(k),
    ensures
        k == a.len() ==> text_le(a, b),
        k == b.len() && k < a.len() ==> !text_le(a, b),
        k < a.len() && k < b.len() && a[k] != b[k] ==> text_le(a, b) == (a[k] < b[k]),
    decreases k,
{
    if k > 0 {
        assert(a.take(k)[0] == a[0] && b.take(k)[0] == b[0]);
        let x = a.skip(1);
        let y = b.skip(1);
        assert(x.take(k - 1) =~= a.take(k).skip(1));
        assert(y.take(k - 1) =~= b.take(k).skip(1));
        law_dictionary_order(x, y, k - 1);
    }
}

} // verus!
