//! Text order and stable sorting by text keys: `String`'s `Ord` compares the
//! UTF-8 bytes, which orders texts as their characters' code points do.

use vstd::prelude::*;
use vstd::string::*;

verus! {

/// `a` sorts no later than `b`: lexicographically by code point, a prefix
/// first.
pub open spec fn lex_le(a: Seq<char>, b: Seq<char>) -> bool
    decreases a.len(),
{
    if a.len() == 0 {
        true
    } else if b.len() == 0 {
        false
    } else if a[0] != b[0] {
        (a[0] as int) < (b[0] as int)
    } else {
        lex_le(a.drop_first(), b.drop_first())
    }
}

pub proof fn lemma_lex_total(a: Seq<char>, b: Seq<char>)
    ensures
        lex_le(a, b) || lex_le(b, a),
    decreases a.len(),
{
    if a.len() > 0 && b.len() > 0 {
        if a[0] == b[0] {
            lemma_lex_total(a.drop_first(), b.drop_first());
        } else {
            assert((a[0] as int) != (b[0] as int));
        }
    }
}

pub proof fn lemma_lex_transitive(a: Seq<char>, b: Seq<char>, c: Seq<char>)
    requires
        lex_le(a, b),
        lex_le(b, c),
    ensures
        lex_le(a, c),
    decreases a.len(),
{
    if a.len() > 0 && b.len() > 0 && c.len() > 0 && a[0] == b[0] && b[0] == c[0] {
        lemma_lex_transitive(a.drop_first(), b.drop_first(), c.drop_first());
    }
}

pub proof fn lemma_lex_reflexive(a: Seq<char>)
    ensures
        lex_le(a, a),
    decreases a.len(),
{
    if a.len() > 0 {
        lemma_lex_reflexive(a.drop_first());
    }
}

proof fn lemma_lex_skip(a: Seq<char>, b: Seq<char>, i: int)
    requires
        0 <= i <= a.len(),
        i <= b.len(),
        forall|j: int| 0 <= j < i ==> a[j] == b[j],
    ensures
        lex_le(a, b) == lex_le(a.skip(i), b.skip(i)),
    decreases i,
{
    if i > 0 {
        assert(a.drop_first().skip(i - 1) =~= a.skip(i));
        assert(b.drop_first().skip(i - 1) =~= b.skip(i));
        lemma_lex_skip(a.drop_first(), b.drop_first(), i - 1);
    } else {
        assert(a.skip(0) =~= a);
        assert(b.skip(0) =~= b);
    }
}

/// `a <= b` as `String`'s order compares them.
pub fn str_le(a: &str, b: &str) -> (r: bool)
    ensures
        r == lex_le(a@, b@),
{
    let na = a.unicode_len();
    let nb = b.unicode_len();
    let mut i: usize = 0;
    while i < na && i < nb && a.get_char(i) == b.get_char(i)
        invariant
            na == a@.len(),
            nb == b@.len(),
            i <= na,
            i <= nb,
            forall|j: int| 0 <= j < i ==> a@[j] == b@[j],
        decreases na - i,
    {
        i = i + 1;
    }
    proof {
        lemma_lex_skip(a@, b@, i as int);
        if i < na && i < nb {
            assert(a@.skip(i as int)[0] == a@[i as int]);
            assert(b@.skip(i as int)[0] == b@[i as int]);
        }
    }
    if i == na {
        true
    } else if i == nb {
        false
    } else {
        (a.get_char(i) as u32) < (b.get_char(i) as u32)
    }
}

/// `p` lists each of `0..n` once.
pub open spec fn is_permutation(p: Seq<int>, n: int) -> bool {
    &&& p.len() == n
    &&& forall|i: int| 0 <= i < n ==> 0 <= #[trigger] p[i] < n
    &&& forall|i: int, j: int| 0 <= i < j < n ==> p[i] != p[j]
}

/// Taking positions in the order `p` orders the keys, and keeps equal keys in
/// their first order.
pub open spec fn sorts_stably(keys: Seq<Seq<char>>, p: Seq<int>) -> bool {
    &&& forall|i: int, j: int| 0 <= i < j < p.len() ==> lex_le(keys[p[i]], keys[p[j]])
    &&& forall|i: int, j: int| 0 <= i < j < p.len() && keys[p[i]] == keys[p[j]] ==> p[i] < p[j]
}

/// `r` is `items` stably sorted by `keys`, the key of each item at its
/// position.
pub open spec fn is_stable_sort<T>(items: Seq<T>, keys: Seq<Seq<char>>, r: Seq<T>) -> bool {
    exists|p: Seq<int>|
        #![trigger is_permutation(p, items.len() as int)]
        is_permutation(p, items.len() as int) && sorts_stably(keys, p) && r.len() == items.len()
            && forall|i: int| 0 <= i < r.len() ==> r[i] == items[p[i]]
}

/// `items` stably sorted by their text keys, as `sort_by` with `cmp` on the
/// keys sorts them.
pub fn sort_by_keys<T>(items: Vec<T>, keys: Vec<String>) -> (r: Vec<T>)
    requires
        items@.len() == keys@.len(),
    ensures
        is_stable_sort(items@, keys@.map_values(|k: String| k@), r@),
{
    let ghost orig = items@;
    let ghost ks = keys@.map_values(|k: String| k@);
    let mut items = items;
    let mut keys = keys;
    let mut out: Vec<T> = Vec::new();
    let mut out_keys: Vec<String> = Vec::new();
    let ghost mut p: Seq<int> = Seq::empty();
    let n = items.len();
    let mut k: usize = 0;
    while k < n
        invariant
            n == orig.len(),
            ks.len() == n,
            k <= n,
            items@.len() == n - k,
            keys@.len() == n - k,
            forall|i: int| 0 <= i < n - k ==> items@[i] == orig[k + i],
            forall|i: int| 0 <= i < n - k ==> #[trigger] keys@[i]@ == ks[k + i],
            out@.len() == k,
            out_keys@.len() == k,
            is_permutation(p, k as int),
            sorts_stably(ks, p),
            forall|i: int| 0 <= i < k ==> out@[i] == orig[p[i]],
            forall|i: int| 0 <= i < k ==> #[trigger] out_keys@[i]@ == ks[p[i]],
        decreases n - k,
    {
        let ghost old_items = items@;
        let ghost old_keys = keys@;
        let item = items.remove(0);
        let key = keys.remove(0);
        assert(item == orig[k as int]);
        assert(key@ == ks[k as int]) by {
            assert(old_keys[0]@ == ks[k + 0]);
        }
        assert forall|i: int| 0 <= i < n - (k + 1) implies items@[i] == orig[k + 1 + i] by {
            assert(items@[i] == old_items[i + 1]);
        }
        assert forall|i: int| 0 <= i < n - (k + 1) implies #[trigger] keys@[i]@ == ks[k + 1 + i] by {
            assert(keys@[i] == old_keys[i + 1]);
            assert(old_keys[i + 1]@ == ks[k + (i + 1)]);
        }
        let mut pos: usize = 0;
        while pos < out_keys.len() && str_le(out_keys[pos].as_str(), key.as_str())
            invariant
                pos <= k,
                out_keys@.len() == k,
                forall|i: int| 0 <= i < pos ==> lex_le(#[trigger] out_keys@[i]@, key@),
            decreases k - pos,
        {
            pos = pos + 1;
        }
        let ghost old_out = out@;
        let ghost old_out_keys = out_keys@;
        let ghost old_p = p;
        out.insert(pos, item);
        out_keys.insert(pos, key);
        proof {
            assert forall|i: int| 0 <= i < pos implies lex_le(ks[old_p[i]], ks[k as int]) by {
                assert(old_out_keys[i]@ == ks[old_p[i]]);
            }
            if pos < k {
                assert(old_out_keys[pos as int]@ == ks[old_p[pos as int]]);
            }
            p = old_p.insert(pos as int, k as int);
            old_p.insert_ensures(pos as int, k as int);
            old_out.insert_ensures(pos as int, item);
            old_out_keys.insert_ensures(pos as int, key);
            lemma_insert_keeps_order(ks, old_p, pos as int, k as int);
        }
        k = k + 1;
    }
    proof {
        assert(is_permutation(p, orig.len() as int));
    }
    out
}

/// Inserting the next position `k` where the scan stopped keeps the order
/// sorted and stable.
proof fn lemma_insert_keeps_order(ks: Seq<Seq<char>>, p: Seq<int>, pos: int, k: int)
    requires
        0 <= pos <= p.len(),
        p.len() == k,
        0 <= k < ks.len(),
        is_permutation(p, k),
        sorts_stably(ks, p),
        forall|i: int| 0 <= i < pos ==> lex_le(ks[p[i]], ks[k]),
        pos < k ==> !lex_le(ks[p[pos]], ks[k]),
    ensures
        is_permutation(p.insert(pos, k), k + 1),
        sorts_stably(ks, p.insert(pos, k)),
{
    let q = p.insert(pos, k);
    p.insert_ensures(pos, k);
    assert forall|i: int| 0 <= i < k + 1 implies 0 <= #[trigger] q[i] < k + 1 by {
        if i < pos {
            assert(q[i] == p[i]);
        } else if i > pos {
            assert(q[i] == p[i - 1]);
        }
    }
    assert forall|i: int, j: int| 0 <= i < j < k + 1 implies q[i] != q[j] by {
        if i < pos && j < pos {
        } else if i < pos && j == pos {
            assert(q[i] == p[i]);
        } else if i < pos && j > pos {
            assert(q[i] == p[i] && q[j] == p[j - 1]);
        } else if i == pos {
            assert(q[j] == p[j - 1]);
        } else {
            assert(q[i] == p[i - 1] && q[j] == p[j - 1]);
        }
    }
    if pos < k {
        lemma_lex_total(ks[p[pos]], ks[k]);
    }
    assert forall|i: int, j: int| 0 <= i < j < q.len() implies lex_le(ks[q[i]], ks[q[j]]) by {
        if j < pos {
            assert(q[i] == p[i] && q[j] == p[j]);
        } else if j == pos {
            assert(q[i] == p[i]);
        } else if i < pos {
            assert(q[i] == p[i] && q[j] == p[j - 1]);
        } else if i == pos {
            assert(q[j] == p[j - 1]);
            if j - 1 > pos {
                lemma_lex_transitive(ks[k], ks[p[pos]], ks[p[j - 1]]);
            }
        } else {
            assert(q[i] == p[i - 1] && q[j] == p[j - 1]);
        }
    }
    assert forall|i: int, j: int|
        0 <= i < j < q.len() && ks[q[i]] == ks[q[j]] implies q[i] < q[j] by {
        if j < pos {
            assert(q[i] == p[i] && q[j] == p[j]);
        } else if j == pos {
            assert(q[i] == p[i]);
        } else if i < pos {
            assert(q[i] == p[i] && q[j] == p[j - 1]);
        } else if i == pos {
            assert(q[j] == p[j - 1]);
            if j - 1 > pos {
                assert(lex_le(ks[p[pos]], ks[p[j - 1]]));
            }
            assert(!lex_le(ks[p[pos]], ks[k]));
            if j - 1 == pos {
                lemma_lex_reflexive(ks[p[pos]]);
            }
        } else {
            assert(q[i] == p[i - 1] && q[j] == p[j - 1]);
        }
    }
}

} // verus!
