//! Stable sorting by a key of small numbers and a name, as lists of
//! packages and files are sorted for display.
use vstd::prelude::*;

verus! {

/// Lexicographic order on character sequences by code point, which is the
/// order of `str` comparison (UTF-8 preserves code point order).
pub open spec fn seq_lt(s: Seq<char>, t: Seq<char>) -> bool
    decreases s.len(),
{
    if s.len() == 0 {
        t.len() > 0
    } else if t.len() == 0 {
        false
    } else if s[0] < t[0] {
        true
    } else if s[0] == t[0] {
        seq_lt(s.drop_first(), t.drop_first())
    } else {
        false
    }
}

pub proof fn lemma_seq_lt_irreflexive(s: Seq<char>)
    ensures
        !seq_lt(s, s),
    decreases s.len(),
{
    if s.len() > 0 {
        lemma_seq_lt_irreflexive(s.drop_first());
    }
}

pub proof fn lemma_seq_lt_transitive(s: Seq<char>, t: Seq<char>, u: Seq<char>)
    requires
        seq_lt(s, t),
        seq_lt(t, u),
    ensures
        seq_lt(s, u),
    decreases s.len(),
{
    if s.len() > 0 && t.len() > 0 && u.len() > 0 {
        if s[0] == t[0] && t[0] == u[0] {
            lemma_seq_lt_transitive(s.drop_first(), t.drop_first(), u.drop_first());
        }
    }
}

pub proof fn lemma_seq_lt_total(s: Seq<char>, t: Seq<char>)
    ensures
        seq_lt(s, t) || seq_lt(t, s) || s == t,
    decreases s.len(),
{
    if s.len() > 0 && t.len() > 0 {
        if s[0] == t[0] {
            lemma_seq_lt_total(s.drop_first(), t.drop_first());
            if s.drop_first() == t.drop_first() {
                assert(s =~= seq![s[0]] + s.drop_first());
                assert(t =~= seq![t[0]] + t.drop_first());
            }
        }
    } else if s.len() == 0 && t.len() == 0 {
        assert(s =~= t);
    }
}

/// Compares two character sequences in [`seq_lt`] order.
pub fn chars_lt(s: &[char], t: &[char]) -> (r: bool)
    ensures
        r == seq_lt(s@, t@),
{
    let mut i: usize = 0;
    proof {
        assert(s@.skip(0) =~= s@);
        assert(t@.skip(0) =~= t@);
    }
    while i < s.len() && i < t.len() && s[i] == t[i]
        invariant
            i <= s@.len(),
            i <= t@.len(),
            seq_lt(s@, t@) == seq_lt(s@.skip(i as int), t@.skip(i as int)),
        decreases s@.len() - i,
    {
        proof {
            assert(s@.skip(i as int).drop_first() =~= s@.skip(i + 1));
            assert(t@.skip(i as int).drop_first() =~= t@.skip(i + 1));
            assert(s@.skip(i as int)[0] == s@[i as int]);
            assert(t@.skip(i as int)[0] == t@[i as int]);
        }
        i += 1;
    }
    proof {
        if i < s@.len() {
            assert(s@.skip(i as int)[0] == s@[i as int]);
        }
        if i < t@.len() {
            assert(t@.skip(i as int)[0] == t@[i as int]);
        }
    }
    if i == s.len() {
        i < t.len()
    } else if i == t.len() {
        false
    } else {
        s[i] < t[i]
    }
}

/// A sort key: three small numbers compared in turn, then a name.
pub struct SortKey {
    pub a: u8,
    pub b: u8,
    pub c: usize,
    pub name: Vec<char>,
}

pub struct KeyView {
    pub a: u8,
    pub b: u8,
    pub c: usize,
    pub name: Seq<char>,
}

impl View for SortKey {
    type V = KeyView;

    open spec fn view(&self) -> KeyView {
        KeyView { a: self.a, b: self.b, c: self.c, name: self.name@ }
    }
}

pub open spec fn key_lt(x: KeyView, y: KeyView) -> bool {
    ||| x.a < y.a
    ||| x.a == y.a && x.b < y.b
    ||| x.a == y.a && x.b == y.b && x.c < y.c
    ||| x.a == y.a && x.b == y.b && x.c == y.c && seq_lt(x.name, y.name)
}

pub proof fn lemma_key_lt_transitive(x: KeyView, y: KeyView, z: KeyView)
    requires
        key_lt(x, y),
        key_lt(y, z),
    ensures
        key_lt(x, z),
{
    if x.a == y.a && x.b == y.b && x.c == y.c && y.a == z.a && y.b == z.b && y.c == z.c {
        lemma_seq_lt_transitive(x.name, y.name, z.name);
    }
}

pub proof fn lemma_key_lt_total(x: KeyView, y: KeyView)
    ensures
        key_lt(x, y) || key_lt(y, x) || x == y,
{
    lemma_seq_lt_total(x.name, y.name);
}

pub proof fn lemma_key_lt_irreflexive(x: KeyView)
    ensures
        !key_lt(x, x),
{
    lemma_seq_lt_irreflexive(x.name);
}

pub fn key_less(x: &SortKey, y: &SortKey) -> (r: bool)
    ensures
        r == key_lt(x@, y@),
{
    if x.a != y.a {
        x.a < y.a
    } else if x.b != y.b {
        x.b < y.b
    } else if x.c != y.c {
        x.c < y.c
    } else {
        chars_lt(x.name.as_slice(), y.name.as_slice())
    }
}

/// Position `i` with key `ki` comes before position `j` with key `kj` in a
/// stable sort: a smaller key first, equal keys in their original order.
pub open spec fn stable_before(ki: KeyView, i: usize, kj: KeyView, j: usize) -> bool {
    key_lt(ki, kj) || (ki == kj && i < j)
}

/// `p` lists each of `0..n` exactly once.
pub open spec fn is_permutation(p: Seq<usize>, n: nat) -> bool {
    &&& p.len() == n
    &&& forall|k: int| 0 <= k < p.len() ==> (#[trigger] p[k]) < n
    &&& forall|k: int, l: int| 0 <= k < l < p.len() ==> p[k] != p[l]
}

/// Position `j` is among those that `p` lists.
pub open spec fn lists_position(p: Seq<usize>, j: int) -> bool {
    exists|k: int| 0 <= k < p.len() && p[k] == j
}

/// Law: a permutation of `0..n` lists every position of `0..n`.
pub proof fn lemma_permutation_onto(p: Seq<usize>, n: nat)
    requires
        is_permutation(p, n),
    ensures
        forall|j: int| 0 <= j < n ==> #[trigger] lists_position(p, j),
{
    let q = p.map_values(|x: usize| x as int);
    assert(q.no_duplicates()) by {
        assert forall|a: int, b: int| 0 <= a < q.len() && 0 <= b < q.len() && a != b implies q[a] != q[b] by {
            if a < b {
                assert(p[a] != p[b]);
            } else {
                assert(p[b] != p[a]);
            }
        }
    }
    q.unique_seq_to_set();
    let r = vstd::set_lib::set_int_range(0, n as int);
    vstd::set_lib::lemma_int_range(0, n as int);
    assert(q.to_set().subset_of(r)) by {
        assert forall|x: int| q.to_set().contains(x) implies r.contains(x) by {
            let k = choose|k: int| 0 <= k < q.len() && q[k] == x;
            assert(p[k] < n);
        }
    }
    vstd::set_lib::lemma_subset_equality(q.to_set(), r);
    assert forall|j: int| 0 <= j < n implies #[trigger] lists_position(p, j) by {
        assert(r.contains(j));
        assert(q.to_set().contains(j));
        let k = choose|k: int| 0 <= k < q.len() && q[k] == j;
        assert(p[k] == j);
    }
}

/// `p` orders the positions of `keys` as a stable sort does.
pub open spec fn stably_sorted(p: Seq<usize>, keys: Seq<KeyView>) -> bool {
    forall|k: int, l: int|
        0 <= k < l < p.len() ==> stable_before(keys[p[k] as int], p[k], keys[p[l] as int], p[l])
}

pub open spec fn key_views(keys: Seq<SortKey>) -> Seq<KeyView> {
    keys.map_values(|k: SortKey| k@)
}

/// The order in which a stable sort by `keys` puts the positions
/// `0..keys.len()`.
pub fn sort_order(keys: &Vec<SortKey>) -> (p: Vec<usize>)
    ensures
        is_permutation(p@, keys@.len()),
        stably_sorted(p@, key_views(keys@)),
{
    let ghost kv = key_views(keys@);
    let mut out: Vec<usize> = Vec::new();
    let mut i: usize = 0;
    while i < keys.len()
        invariant
            kv == key_views(keys@),
            kv.len() == keys@.len(),
            i <= keys@.len(),
            out@.len() == i,
            forall|k: int| 0 <= k < out@.len() ==> (#[trigger] out@[k]) < i,
            forall|k: int, l: int| 0 <= k < l < out@.len() ==> out@[k] != out@[l],
            stably_sorted(out@, kv),
        decreases keys@.len() - i,
    {
        let mut p: usize = 0;
        while p < out.len() && !key_less(&keys[i], &keys[out[p]])
            invariant
                kv == key_views(keys@),
                kv.len() == keys@.len(),
                i < keys@.len(),
                p <= out@.len(),
                forall|k: int| 0 <= k < out@.len() ==> (#[trigger] out@[k]) < i,
                forall|k: int| 0 <= k < p ==> !key_lt(kv[i as int], #[trigger] kv[out@[k] as int]),
            decreases out@.len() - p,
        {
            assert(kv[i as int] == keys@[i as int]@);
            assert(kv[out@[p as int] as int] == keys@[out@[p as int] as int]@);
            p += 1;
        }
        proof {
            if p < out@.len() {
                assert(kv[i as int] == keys@[i as int]@);
                assert(kv[out@[p as int] as int] == keys@[out@[p as int] as int]@);
                assert(key_lt(kv[i as int], kv[out@[p as int] as int]));
            }
        }
        let ghost old_out = out@;
        out.insert(p, i);
        proof {
            let n = out@;
            assert(n =~= old_out.insert(p as int, i));
            assert forall|k: int| 0 <= k < n.len() implies (#[trigger] n[k]) < i + 1 by {
                if k < p {
                    assert(n[k] == old_out[k]);
                } else if k > p {
                    assert(n[k] == old_out[k - 1]);
                }
            }
            assert forall|k: int, l: int| 0 <= k < l < n.len() implies n[k] != n[l] by {
                if k < p && l < p {
                    assert(n[k] == old_out[k] && n[l] == old_out[l]);
                } else if k < p && l == p {
                    assert(n[k] == old_out[k]);
                } else if k < p && l > p {
                    assert(n[k] == old_out[k] && n[l] == old_out[l - 1]);
                } else if k == p {
                    assert(n[l] == old_out[l - 1]);
                } else {
                    assert(n[k] == old_out[k - 1] && n[l] == old_out[l - 1]);
                }
            }
            assert forall|k: int, l: int| 0 <= k < l < n.len() implies stable_before(
                kv[n[k] as int],
                n[k],
                kv[n[l] as int],
                n[l],
            ) by {
                let ki = kv[i as int];
                if k < p && l < p {
                    assert(n[k] == old_out[k] && n[l] == old_out[l]);
                } else if k < p && l == p {
                    assert(n[k] == old_out[k]);
                    let kk = kv[old_out[k] as int];
                    assert(!key_lt(ki, kk));
                    lemma_key_lt_total(ki, kk);
                } else if k < p && l > p {
                    assert(n[k] == old_out[k] && n[l] == old_out[l - 1]);
                } else if k == p {
                    assert(n[l] == old_out[l - 1]);
                    let kl = kv[old_out[l - 1] as int];
                    let kp = kv[old_out[p as int] as int];
                    assert(key_lt(ki, kp));
                    if l - 1 > p {
                        assert(stable_before(kp, old_out[p as int], kl, old_out[l - 1]));
                        if key_lt(kp, kl) {
                            lemma_key_lt_transitive(ki, kp, kl);
                        }
                    }
                } else {
                    assert(n[k] == old_out[k - 1] && n[l] == old_out[l - 1]);
                }
            }
        }
        i += 1;
    }
    out
}

/// The items in the given order: `out[k]` is `items[order[k]]`.
pub fn apply_order<T>(items: Vec<T>, order: &Vec<usize>) -> (out: Vec<T>)
    requires
        is_permutation(order@, items@.len()),
    ensures
        out@.len() == items@.len(),
        forall|k: int| 0 <= k < out@.len() ==> out@[k] == items@[order@[k] as int],
{
    let n = items.len();
    let ghost orig = items@;
    let mut items = items;
    let mut rev: Vec<Option<T>> = Vec::new();
    while items.len() > 0
        invariant
            items@.len() + rev@.len() == n,
            n == orig.len(),
            items@ == orig.take(items@.len() as int),
            forall|j: int| 0 <= j < rev@.len() ==> rev@[j] == Some(orig[n - 1 - j]),
        decreases items@.len(),
    {
        let ghost before = items@;
        let x = items.pop().unwrap();
        proof {
            assert(x == orig[items@.len() as int]);
            assert(items@ =~= orig.take(items@.len() as int));
        }
        rev.push(Some(x));
    }
    let mut out: Vec<T> = Vec::new();
    let mut k: usize = 0;
    while k < n
        invariant
            n == orig.len(),
            rev@.len() == n,
            is_permutation(order@, n as nat),
            k <= n,
            out@.len() == k,
            forall|j: int| 0 <= j < k ==> out@[j] == orig[order@[j] as int],
            forall|j: int|
                0 <= j < n ==> (rev@[j] is None <==> exists|m: int|
                    0 <= m < k && order@[m] == n - 1 - j),
            forall|j: int| 0 <= j < n && rev@[j] is Some ==> rev@[j] == Some(orig[n - 1 - j]),
        decreases n - k,
    {
        let idx = order[k];
        let slot = n - 1 - idx;
        proof {
            if rev@[slot as int] is None {
                let m = choose|m: int| 0 <= m < k && order@[m] == n - 1 - slot;
                assert(order@[m] == order@[k as int]);
            }
        }
        let ghost before = rev@;
        let x = rev[slot].take();
        proof {
            assert(rev@ == before.update(slot as int, None));
            assert(x == Some(orig[idx as int]));
            assert forall|j: int| 0 <= j < n implies (rev@[j] is None <==> exists|m: int|
                0 <= m < k + 1 && order@[m] == n - 1 - j) by {
                if j == slot {
                    assert(order@[k as int] == n - 1 - j);
                } else {
                    assert(rev@[j] == before[j]);
                    if exists|m: int| 0 <= m < k + 1 && order@[m] == n - 1 - j {
                        let m = choose|m: int| 0 <= m < k + 1 && order@[m] == n - 1 - j;
                        if m == k {
                            assert(false);
                        }
                    }
                }
            }
        }
        out.push(x.unwrap());
        k += 1;
    }
    out
}

} // verus!
