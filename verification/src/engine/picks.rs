//! Reading the numbers that a user types to pick search results, such as
//! `1, 3 5-7`.
use vstd::prelude::*;

use crate::text::{
    all_digits, chars_of, digits_value, is_ascii_digit, is_whitespace, is_ws, parse_unsigned, parse_usize, trim,
    trim_chars, trim_end, trim_start,
};

verus! {

pub open spec fn is_pick_sep(c: char) -> bool {
    is_ws(c) || c == ','
}

/// Splits `s` at separators, left to right: the completed non-empty pieces,
/// and the piece still being read.
pub open spec fn split_state(s: Seq<char>) -> (Seq<Seq<char>>, Seq<char>)
    decreases s.len(),
{
    if s.len() == 0 {
        (seq![], seq![])
    } else {
        let (done, cur) = split_state(s.drop_last());
        if is_pick_sep(s.last()) {
            if cur.len() > 0 {
                (done.push(cur), seq![])
            } else {
                (done, seq![])
            }
        } else {
            (done, cur.push(s.last()))
        }
    }
}

/// The non-empty pieces of `s` between whitespace and commas.
pub open spec fn pick_tokens(s: Seq<char>) -> Seq<Seq<char>> {
    let (done, cur) = split_state(s);
    if cur.len() > 0 {
        done.push(cur)
    } else {
        done
    }
}

/// Picks number `n` (counted from 1) when it names one of `total` items and
/// is not picked yet; picks are kept as 0-based indices.
pub open spec fn push_pick_spec(out: Seq<usize>, n: nat, total: nat) -> Seq<usize> {
    if 1 <= n && n <= total && !out.contains((n - 1) as usize) {
        out.push((n - 1) as usize)
    } else {
        out
    }
}

/// Picks the numbers `lo..=hi` in increasing order.
pub open spec fn push_range(out: Seq<usize>, lo: nat, hi: nat, total: nat) -> Seq<usize>
    decreases hi,
{
    if hi < lo {
        out
    } else if hi == 0 {
        push_pick_spec(out, 0, total)
    } else {
        push_pick_spec(push_range(out, lo, (hi - 1) as nat, total), hi, total)
    }
}

pub open spec fn is_first_dash(t: Seq<char>, k: int) -> bool {
    &&& 0 <= k < t.len()
    &&& t[k] == '-'
    &&& forall|j: int| 0 <= j < k ==> t[j] != '-'
}

/// The position of the first `-` in `t`, or -1.
pub open spec fn first_dash(t: Seq<char>) -> int {
    if exists|k: int| is_first_dash(t, k) {
        choose|k: int| is_first_dash(t, k)
    } else {
        -1
    }
}

pub open spec fn usize_max() -> nat {
    usize::MAX as nat
}

/// What one typed piece picks: `a-b` picks the range between `a` and `b`
/// (either way round), a lone number picks that number, anything else
/// picks nothing.
pub open spec fn apply_pick_token(out: Seq<usize>, tok: Seq<char>, total: nat) -> Seq<usize> {
    let t = trim(tok);
    let k = first_dash(t);
    if k >= 0 {
        match (
            parse_unsigned(trim(t.take(k)), usize_max()),
            parse_unsigned(trim(t.skip(k + 1)), usize_max()),
        ) {
            (Some(a), Some(b)) => if a <= b {
                push_range(out, a, b, total)
            } else {
                push_range(out, b, a, total)
            },
            _ => out,
        }
    } else {
        match parse_unsigned(t, usize_max()) {
            Some(n) => push_pick_spec(out, n, total),
            None => out,
        }
    }
}

pub open spec fn apply_pick_tokens(out: Seq<usize>, toks: Seq<Seq<char>>, total: nat) -> Seq<usize>
    decreases toks.len(),
{
    if toks.len() == 0 {
        out
    } else {
        apply_pick_token(apply_pick_tokens(out, toks.drop_last(), total), toks.last(), total)
    }
}

/// The 0-based indices that the line `line` picks among `total` items.
pub open spec fn picks_of(line: Seq<char>, total: nat) -> Seq<usize> {
    apply_pick_tokens(seq![], pick_tokens(line), total)
}

fn contains_index(v: &Vec<usize>, x: usize) -> (r: bool)
    ensures
        r == v@.contains(x),
{
    let mut i: usize = 0;
    while i < v.len()
        invariant
            i <= v@.len(),
            forall|j: int| 0 <= j < i ==> v@[j] != x,
        decreases v@.len() - i,
    {
        if v[i] == x {
            return true;
        }
        i += 1;
    }
    false
}

/// Picks `number` (counted from 1) when it names one of `total` items and is
/// not picked already.
pub fn push_pick(out: &mut Vec<usize>, number: usize, total: usize)
    ensures
        final(out)@ == push_pick_spec(old(out)@, number as nat, total as nat),
{
    if number >= 1 && number <= total {
        let index = number - 1;
        if !contains_index(out, index) {
            out.push(index);
        }
    }
}

proof fn lemma_push_range_clamp(out: Seq<usize>, lo: nat, hi: nat, total: nat)
    requires
        total < hi,
    ensures
        push_range(out, lo, hi, total) == push_range(out, lo, total, total),
    decreases hi,
{
    if hi >= lo {
        if hi - 1 > total {
            lemma_push_range_clamp(out, lo, (hi - 1) as nat, total);
        }
        if lo > total {
            assert(push_range(out, lo, (hi - 1) as nat, total) == push_range(out, lo, total, total))
                by {
                if hi - 1 > total {
                } else {
                    assert(hi - 1 == total);
                }
            }
        }
    }
}

fn push_pick_range(out: &mut Vec<usize>, lo: usize, hi: usize, total: usize)
    requires
        lo <= hi,
    ensures
        final(out)@ == push_range(old(out)@, lo as nat, hi as nat, total as nat),
{
    let top: usize = if hi <= total {
        hi
    } else {
        total
    };
    proof {
        if hi > total {
            lemma_push_range_clamp(old(out)@, lo as nat, hi as nat, total as nat);
        }
    }
    if top < lo {
        return;
    }
    let ghost start = out@;
    let end: u128 = (top as u128) + 1;
    let mut n: u128 = lo as u128;
    proof {
        if lo > 0 {
            assert(push_range(start, lo as nat, (lo - 1) as nat, total as nat) == start);
        }
    }
    while n < end
        invariant
            lo <= n <= end,
            end == top + 1,
            top <= total,
            lo <= top,
            n == lo ==> out@ == start,
            n > lo ==> out@ == push_range(start, lo as nat, (n - 1) as nat, total as nat),
        decreases end - n,
    {
        push_pick(out, n as usize, total);
        proof {
            if n == lo && n == 0 {
            } else if n == lo {
                assert(push_range(start, lo as nat, (lo - 1) as nat, total as nat) == start);
            }
        }
        n += 1;
    }
}

fn find_first_dash(t: &[char]) -> (r: Option<usize>)
    ensures
        r matches Some(k) ==> first_dash(t@) == k as int && k < t@.len(),
        r is None ==> first_dash(t@) == -1,
{
    let mut i: usize = 0;
    while i < t.len()
        invariant
            i <= t@.len(),
            forall|j: int| 0 <= j < i ==> t@[j] != '-',
        decreases t@.len() - i,
    {
        if t[i] == '-' {
            proof {
                assert(is_first_dash(t@, i as int));
                let k = choose|k: int| is_first_dash(t@, k);
                if k < i {
                } else if k > i {
                    assert(t@[i as int] != '-');
                }
            }
            return Some(i);
        }
        i += 1;
    }
    proof {
        assert(!exists|k: int| is_first_dash(t@, k));
    }
    None
}

fn copy_range(t: &[char], a: usize, b: usize) -> (r: Vec<char>)
    requires
        a <= b <= t@.len(),
    ensures
        r@ == t@.subrange(a as int, b as int),
{
    let mut r: Vec<char> = Vec::new();
    let mut i = a;
    while i < b
        invariant
            a <= i <= b <= t@.len(),
            r@ == t@.subrange(a as int, i as int),
        decreases b - i,
    {
        r.push(t[i]);
        proof {
            assert(t@.subrange(a as int, i + 1) =~= t@.subrange(a as int, i as int).push(t@[i as int]));
        }
        i += 1;
    }
    r
}

fn apply_token(out: &mut Vec<usize>, tok: &[char], total: usize)
    ensures
        final(out)@ == apply_pick_token(old(out)@, tok@, total as nat),
{
    let t = trim_chars(tok);
    match find_first_dash(t.as_slice()) {
        Some(k) => {
            let left = copy_range(t.as_slice(), 0, k);
            let right = copy_range(t.as_slice(), k + 1, t.len());
            proof {
                assert(left@ =~= t@.take(k as int));
                assert(right@ =~= t@.skip(k + 1));
            }
            let lt = trim_chars(left.as_slice());
            let rt = trim_chars(right.as_slice());
            let a = parse_usize(lt.as_slice());
            let b = parse_usize(rt.as_slice());
            match (a, b) {
                (Some(a), Some(b)) => {
                    if a <= b {
                        push_pick_range(out, a, b, total);
                    } else {
                        push_pick_range(out, b, a, total);
                    }
                },
                _ => {},
            }
        },
        None => {
            match parse_usize(t.as_slice()) {
                Some(n) => push_pick(out, n, total),
                None => {},
            }
        },
    }
}

/// The items that a typed line picks among `total` numbered items: the
/// 0-based indices, in the order in which the line first names them. Pieces
/// are separated by whitespace or commas; `a-b` names a range in either
/// direction; numbers outside `1..=total` and pieces that are not numbers
/// are ignored.
pub fn parse_picks(line: &str, total: usize) -> (out: Vec<usize>)
    ensures
        out@ == picks_of(line@, total as nat),
{
    let chars = chars_of(line);
    let mut out: Vec<usize> = Vec::new();
    let mut cur: Vec<char> = Vec::new();
    let ghost s = line@;
    let ghost mut done: Seq<Seq<char>> = seq![];
    let mut i: usize = 0;
    while i < chars.len()
        invariant
            chars@ == s,
            i <= chars@.len(),
            split_state(s.take(i as int)) == (done, cur@),
            out@ == apply_pick_tokens(seq![], done, total as nat),
        decreases chars@.len() - i,
    {
        let c = chars[i];
        proof {
            assert(s.take(i + 1).drop_last() =~= s.take(i as int));
            assert(s.take(i + 1).last() == c);
        }
        if is_whitespace(c) || c == ',' {
            if cur.len() > 0 {
                apply_token(&mut out, cur.as_slice(), total);
                proof {
                    let nd = done.push(cur@);
                    assert(nd.drop_last() =~= done);
                    done = nd;
                }
                cur = Vec::new();
            }
        } else {
            cur.push(c);
        }
        i += 1;
    }
    proof {
        assert(s.take(i as int) =~= s);
    }
    if cur.len() > 0 {
        apply_token(&mut out, cur.as_slice(), total);
        proof {
            assert(done.push(cur@).drop_last() =~= done);
        }
    }
    out
}

pub open spec fn distinct_below(v: Seq<usize>, total: nat) -> bool {
    &&& forall|i: int| 0 <= i < v.len() ==> (#[trigger] v[i]) < total
    &&& forall|i: int, j: int| 0 <= i < j < v.len() ==> v[i] != v[j]
}

proof fn lemma_push_pick_keeps(out: Seq<usize>, n: nat, total: nat)
    requires
        distinct_below(out, total),
    ensures
        distinct_below(push_pick_spec(out, n, total), total),
{
    if 1 <= n && n <= total && !out.contains((n - 1) as usize) {
        let r = out.push((n - 1) as usize);
        assert forall|i: int, j: int| 0 <= i < j < r.len() implies r[i] != r[j] by {
            if j == out.len() {
                assert(out[i] == r[i]);
            }
        }
    }
}

proof fn lemma_push_range_keeps(out: Seq<usize>, lo: nat, hi: nat, total: nat)
    requires
        distinct_below(out, total),
    ensures
        distinct_below(push_range(out, lo, hi, total), total),
    decreases hi,
{
    if hi < lo {
    } else if hi == 0 {
        lemma_push_pick_keeps(out, 0, total);
    } else {
        lemma_push_range_keeps(out, lo, (hi - 1) as nat, total);
        lemma_push_pick_keeps(push_range(out, lo, (hi - 1) as nat, total), hi, total);
    }
}

proof fn lemma_apply_tokens_keeps(toks: Seq<Seq<char>>, total: nat)
    ensures
        distinct_below(apply_pick_tokens(seq![], toks, total), total),
    decreases toks.len(),
{
    if toks.len() > 0 {
        lemma_apply_tokens_keeps(toks.drop_last(), total);
        let prev = apply_pick_tokens(seq![], toks.drop_last(), total);
        let t = trim(toks.last());
        let k = first_dash(t);
        if k >= 0 {
            match (
                parse_unsigned(trim(t.take(k)), usize_max()),
                parse_unsigned(trim(t.skip(k + 1)), usize_max()),
            ) {
                (Some(a), Some(b)) => {
                    if a <= b {
                        lemma_push_range_keeps(prev, a, b, total);
                    } else {
                        lemma_push_range_keeps(prev, b, a, total);
                    }
                },
                _ => {},
            }
        } else {
            match parse_unsigned(t, usize_max()) {
                Some(n) => lemma_push_pick_keeps(prev, n, total),
                None => {},
            }
        }
    }
}

/// Law: whatever the user types, the picks name each item at most once, and
/// only items that exist.
pub proof fn lemma_picks_distinct_and_in_range(line: Seq<char>, total: nat)
    ensures
        distinct_below(picks_of(line, total), total),
{
    lemma_apply_tokens_keeps(pick_tokens(line), total);
}

proof fn lemma_split_unbroken(s: Seq<char>)
    requires
        forall|i: int| 0 <= i < s.len() ==> !is_pick_sep(#[trigger] s[i]),
    ensures
        split_state(s) == (Seq::<Seq<char>>::empty(), s),
    decreases s.len(),
{
    if s.len() > 0 {
        lemma_split_unbroken(s.drop_last());
        assert(!is_pick_sep(s[s.len() - 1]));
        assert(s.drop_last().push(s.last()) =~= s);
    }
}

/// Law: a line that is one number `v` (a run of decimal digits) picks item
/// `v` of `total` (index `v - 1`) when `1 <= v <= total`, and nothing
/// otherwise; a number past the last item picks nothing.
pub proof fn lemma_lone_number_pick(d: Seq<char>, total: nat)
    requires
        d.len() > 0,
        forall|i: int| 0 <= i < d.len() ==> '0' <= #[trigger] d[i] <= '9',
        total <= usize::MAX,
    ensures
        picks_of(d, total) == (if 1 <= digits_value(d) <= total {
            seq![(digits_value(d) - 1) as usize]
        } else {
            Seq::<usize>::empty()
        }),
{
    assert forall|i: int| 0 <= i < d.len() implies !is_pick_sep(#[trigger] d[i]) && !is_ws(d[i]) && d[i]
        != '-' && is_ascii_digit(d[i]) by {
        assert('0' <= d[i] <= '9');
    }
    lemma_split_unbroken(d);
    assert(pick_tokens(d) =~= seq![d]);
    assert(seq![d].drop_last() =~= Seq::<Seq<char>>::empty());
    assert(!is_ws(d[0]));
    assert(trim_start(d) == d);
    assert(!is_ws(d.last()));
    assert(trim_end(d) == d);
    assert(trim(d) == d);
    assert(!(exists|k: int| is_first_dash(d, k)));
    assert(first_dash(d) == -1);
    assert(all_digits(d));
    assert(d[0] != '+');
    assert(apply_pick_tokens(seq![], seq![d], total) == apply_pick_token(
        apply_pick_tokens(seq![], Seq::<Seq<char>>::empty(), total),
        d,
        total,
    ));
    if 1 <= digits_value(d) <= total {
        assert(push_pick_spec(seq![], digits_value(d), total) =~= seq![(digits_value(d) - 1) as usize]);
    }
}

} // verus!
