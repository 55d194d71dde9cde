//! Stable ordering by integer keys, and reordering a list by an order.

use vstd::prelude::*;

verus! {

/// Lexicographic "less than" on integer keys.
pub open spec fn lex_lt(a: Seq<i64>, b: Seq<i64>) -> bool
    decreases a.len(),
{
    if a.len() == 0 || b.len() == 0 {
        false
    } else if a[0] != b[0] {
        a[0] < b[0]
    } else {
        lex_lt(a.drop_first(), b.drop_first())
    }
}

/// Whether element `i` comes before element `j` in the stable order by
/// keys: a smaller key first, equal keys in their original order.
pub open spec fn key_before(keys: Seq<Seq<i64>>, i: int, j: int) -> bool {
    lex_lt(keys[i], keys[j]) || (keys[i] == keys[j] && i < j)
}

/// The keys held in a list of vectors.
pub open spec fn key_views(keys: Seq<Vec<i64>>) -> Seq<Seq<i64>> {
    keys.map_values(|v: Vec<i64>| v@)
}

/// Whether every key has the same length.
pub open spec fn uniform_keys(keys: Seq<Seq<i64>>) -> bool {
    forall|i: int, j: int| 0 <= i < keys.len() && 0 <= j < keys.len() ==> #[trigger] keys[i].len() == #[trigger] keys[j].len()
}

/// Whether a list of indices holds each of `0..n` exactly once.
pub open spec fn is_order(ord: Seq<usize>, n: int) -> bool {
    &&& ord.len() == n
    &&& forall|a: int| 0 <= a < ord.len() ==> #[trigger] ord[a] < n
    &&& forall|a: int, b: int| 0 <= a < b < ord.len() ==> #[trigger] ord[a] != #[trigger] ord[b]
}

/// Whether an order lists the elements in the stable order by keys.
pub open spec fn sorted_by_keys(ord: Seq<usize>, keys: Seq<Seq<i64>>) -> bool {
    forall|a: int, b: int| 0 <= a < b < ord.len() ==> key_before(keys, #[trigger] ord[a] as int, #[trigger] ord[b] as int)
}

proof fn lemma_lex_total(a: Seq<i64>, b: Seq<i64>)
    requires
        a.len() == b.len(),
    ensures
        lex_lt(a, b) || lex_lt(b, a) || a == b,
    decreases a.len(),
{
    if a.len() > 0 && a[0] == b[0] {
        lemma_lex_total(a.drop_first(), b.drop_first());
        if a.drop_first() == b.drop_first() {
            assert(a =~= seq![a[0]] + a.drop_first());
            assert(b =~= seq![b[0]] + b.drop_first());
        }
    } else if a.len() == 0 {
        assert(a =~= b);
    }
}

proof fn lemma_lex_trans(a: Seq<i64>, b: Seq<i64>, c: Seq<i64>)
    requires
        lex_lt(a, b),
        lex_lt(b, c),
    ensures
        lex_lt(a, c),
    decreases a.len(),
{
    if a[0] == b[0] && b[0] == c[0] {
        lemma_lex_trans(a.drop_first(), b.drop_first(), c.drop_first());
    }
}

/// No key is below itself.
pub proof fn lemma_lex_irrefl(a: Seq<i64>)
    ensures
        !lex_lt(a, a),
    decreases a.len(),
{
    if a.len() > 0 {
        lemma_lex_irrefl(a.drop_first());
    }
}

fn lex_less(a: &Vec<i64>, b: &Vec<i64>) -> (r: bool)
    ensures
        r == lex_lt(a@, b@),
{
    let mut i: usize = 0;
    assert(a@.subrange(0, a@.len() as int) =~= a@);
    assert(b@.subrange(0, b@.len() as int) =~= b@);
    while i < a.len() && i < b.len()
        invariant
            i <= a@.len(),
            i <= b@.len(),
            lex_lt(a@, b@) == lex_lt(a@.subrange(i as int, a@.len() as int), b@.subrange(i as int, b@.len() as int)),
        decreases a@.len() - i,
    {
        let ghost sa = a@.subrange(i as int, a@.len() as int);
        let ghost sb = b@.subrange(i as int, b@.len() as int);
        assert(sa[0] == a@[i as int]);
        assert(sb[0] == b@[i as int]);
        if a[i] != b[i] {
            return a[i] < b[i];
        }
        assert(sa.drop_first() =~= a@.subrange(i + 1, a@.len() as int));
        assert(sb.drop_first() =~= b@.subrange(i + 1, b@.len() as int));
        i = i + 1;
    }
    assert(a@.subrange(0, a@.len() as int) =~= a@);
    assert(b@.subrange(0, b@.len() as int) =~= b@);
    false
}

/// The stable order of elements by their keys (a smaller key first).
pub fn stable_order(keys: &Vec<Vec<i64>>) -> (ord: Vec<usize>)
    requires
        uniform_keys(key_views(keys@)),
    ensures
        is_order(ord@, keys@.len() as int),
        sorted_by_keys(ord@, key_views(keys@)),
{
    let ghost kv = key_views(keys@);
    let n = keys.len();
    let mut ord: Vec<usize> = Vec::new();
    let mut i: usize = 0;
    while i < n
        invariant
            i <= n,
            n == keys@.len(),
            kv == key_views(keys@),
            uniform_keys(kv),
            is_order(ord@, i as int),
            sorted_by_keys(ord@, kv),
        decreases n - i,
    {
        let mut p: usize = 0;
        while p < ord.len() && !lex_less(&keys[i], &keys[ord[p]])
            invariant
                p <= ord@.len(),
                is_order(ord@, i as int),
                i < n,
                n == keys@.len(),
                kv == key_views(keys@),
                forall|a: int| 0 <= a < p ==> !lex_lt(kv[i as int], #[trigger] kv[ord@[a] as int]),
            decreases ord@.len() - p,
        {
            p = p + 1;
        }
        let ghost before = ord@;
        ord.insert(p, i);
        proof {
            assert(ord@ == before.insert(p as int, i));
            assert forall|a: int| 0 <= a < ord@.len() implies #[trigger] ord@[a] < i + 1 by {
                if a < p {
                    assert(ord@[a] == before[a]);
                } else if a > p {
                    assert(ord@[a] == before[a - 1]);
                }
            }
            assert forall|a: int, b: int| 0 <= a < b < ord@.len() implies #[trigger] ord@[a] != #[trigger] ord@[b] by {
                let oa = if a < p { before[a] } else if a == p { i } else { before[a - 1] };
                let ob = if b < p { before[b] } else if b == p { i } else { before[b - 1] };
                assert(ord@[a] == oa);
                assert(ord@[b] == ob);
                if a != p && b != p {
                    let ia = if a < p { a } else { a - 1 };
                    let ib = if b < p { b } else { b - 1 };
                    assert(before[ia] != before[ib]);
                }
            }
            assert forall|a: int, b: int| 0 <= a < b < ord@.len() implies key_before(
                kv,
                #[trigger] ord@[a] as int,
                #[trigger] ord@[b] as int,
            ) by {
                let oa = if a < p { before[a] } else if a == p { i } else { before[a - 1] };
                let ob = if b < p { before[b] } else if b == p { i } else { before[b - 1] };
                assert(ord@[a] == oa);
                assert(ord@[b] == ob);
                let ki = kv[i as int];
                if a != p && b != p {
                    let ia = if a < p { a } else { a - 1 };
                    let ib = if b < p { b } else { b - 1 };
                    assert(key_before(kv, before[ia] as int, before[ib] as int));
                } else if b == p {
                    // oa comes before the insertion point: its key is not above i's.
                    let ka = kv[oa as int];
                    assert(!lex_lt(ki, ka));
                    lemma_lex_total(ki, ka);
                } else {
                    // a == p: i goes before every later element.
                    let kp = kv[before[p as int] as int];
                    let kb = kv[ob as int];
                    assert(lex_lt(ki, kp));
                    if b - 1 > p {
                        assert(key_before(kv, before[p as int] as int, before[b - 1] as int));
                        if lex_lt(kp, kb) {
                            lemma_lex_trans(ki, kp, kb);
                        }
                    }
                }
            }
        }
        i = i + 1;
    }
    ord
}

/// The elements of a list in a given order: `r[k] == v[ord[k]]`.
pub fn permute<T>(v: Vec<T>, ord: &Vec<usize>) -> (r: Vec<T>)
    requires
        is_order(ord@, v@.len() as int),
    ensures
        r@.len() == v@.len(),
        forall|k: int| 0 <= k < r@.len() ==> #[trigger] r@[k] == v@[ord@[k] as int],
{
    let n = v.len();
    let ghost orig = v@;
    let mut v = v;
    let mut opts: Vec<Option<T>> = Vec::new();
    assert(orig.subrange(0, orig.len() as int) =~= orig);
    while v.len() > 0
        invariant
            n == orig.len(),
            v@.len() + opts@.len() == n,
            v@ == orig.subrange(0, v@.len() as int),
            forall|j: int| 0 <= j < opts@.len() ==> #[trigger] opts@[j] == Some(orig[n - 1 - j]),
        decreases v@.len(),
    {
        let ghost len0 = v@.len();
        let x = v.pop().unwrap();
        assert(x == orig[len0 - 1]);
        assert(v@ =~= orig.subrange(0, v@.len() as int));
        opts.push(Some(x));
    }
    let mut out: Vec<T> = Vec::new();
    let mut k: usize = 0;
    while k < n
        invariant
            k <= n,
            n == orig.len(),
            opts@.len() == n,
            is_order(ord@, n as int),
            out@.len() == k,
            forall|j: int| 0 <= j < k ==> #[trigger] out@[j] == orig[ord@[j] as int],
            forall|j: int|
                0 <= j < n ==> (#[trigger] opts@[j] == Some(orig[n - 1 - j])) || exists|t: int|
                    0 <= t < k && n - 1 - ord@[t] == j,
        decreases n - k,
    {
        let slot = n - 1 - ord[k];
        let ghost before = opts@;
        let mut tmp: Option<T> = None;
        opts.set_and_swap(slot, &mut tmp);
        assert(tmp == Some(orig[ord@[k as int] as int])) by {
            if !(before[slot as int] == Some(orig[n - 1 - slot])) {
                let t = choose|t: int| 0 <= t < k && n - 1 - ord@[t] == slot;
                assert(ord@[t] != ord@[k as int]);
            }
        }
        let x = tmp.unwrap();
        out.push(x);
        proof {
            assert forall|j: int|
                0 <= j < n implies (#[trigger] opts@[j] == Some(orig[n - 1 - j])) || exists|t: int|
                    0 <= t < k + 1 && n - 1 - ord@[t] == j by {
                if j == slot {
                    assert(n - 1 - ord@[k as int] == j);
                } else {
                    assert(opts@[j] == before[j]);
                    if !(before[j] == Some(orig[n - 1 - j])) {
                        let t = choose|t: int| 0 <= t < k && n - 1 - ord@[t] == j;
                        assert(0 <= t < k + 1 && n - 1 - ord@[t] == j);
                    }
                }
            }
        }
        k = k + 1;
    }
    out
}

/// The elements whose flag is not set, in order.
pub open spec fn keep_unmarked<T>(s: Seq<T>, m: Seq<bool>) -> Seq<T>
    decreases s.len(),
{
    if s.len() == 0 || m.len() == 0 {
        s
    } else {
        let rest = keep_unmarked(s.drop_first(), m.drop_first());
        if m[0] {
            rest
        } else {
            seq![s[0]] + rest
        }
    }
}

/// Removes the elements whose flag is set, keeping the others in order.
pub fn drop_marked<T>(v: &mut Vec<T>, drop: &Vec<bool>)
    requires
        drop@.len() == old(v)@.len(),
    ensures
        final(v)@ == keep_unmarked(old(v)@, drop@),
{
    let ghost orig = v@;
    let n = v.len();
    let mut i = n;
    assert(orig.subrange(n as int, n as int) =~= Seq::<T>::empty());
    assert(orig.subrange(0, n as int) =~= orig);
    while i > 0
        invariant
            i <= n,
            n == orig.len(),
            drop@.len() == n,
            v@ == orig.subrange(0, i as int) + keep_unmarked(
                orig.subrange(i as int, n as int),
                drop@.subrange(i as int, n as int),
            ),
        decreases i,
    {
        let ghost tail = keep_unmarked(orig.subrange(i as int, n as int), drop@.subrange(i as int, n as int));
        assert(orig.subrange(i - 1, n as int).drop_first() =~= orig.subrange(i as int, n as int));
        assert(drop@.subrange(i - 1, n as int).drop_first() =~= drop@.subrange(i as int, n as int));
        assert(orig.subrange(i - 1, n as int)[0] == orig[i - 1]);
        assert(drop@.subrange(i - 1, n as int)[0] == drop@[i - 1]);
        if drop[i - 1] {
            v.remove(i - 1);
            assert(v@ =~= orig.subrange(0, i - 1) + tail);
        } else {
            assert(orig.subrange(0, i as int) + tail =~= orig.subrange(0, i - 1) + (seq![orig[i - 1]] + tail));
        }
        i = i - 1;
    }
    assert(orig.subrange(0, 0) + keep_unmarked(orig.subrange(0, n as int), drop@.subrange(0, n as int))
        =~= keep_unmarked(orig, drop@)) by {
        assert(drop@.subrange(0, n as int) =~= drop@);
        assert(orig.subrange(0, 0) + keep_unmarked(orig, drop@) =~= keep_unmarked(orig, drop@));
    }
}

} // verus!
