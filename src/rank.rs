use vstd::prelude::*;

use crate::text::{chars_of, string_of};

verus! {

/// The number of results a query shows at most.
pub const RESULT_CAP: usize = 100;

/// Paths this many separators deep or deeper get no depth bonus.
pub const DEPTH_BONUS_LEVELS: u64 = 5;

/// The number of `/` separators in a path.
pub open spec fn slash_count(p: Seq<char>) -> nat
    decreases p.len(),
{
    if p.len() == 0 {
        0
    } else {
        slash_count(p.drop_last()) + if p.last() == '/' {
            1nat
        } else {
            0nat
        }
    }
}

/// A directory entry is marked by a trailing separator.
pub open spec fn is_dir_path(p: Seq<char>) -> bool {
    p.len() > 0 && p.last() == '/'
}

/// Ten points for each level above [`DEPTH_BONUS_LEVELS`] separators deep.
pub open spec fn depth_bonus(p: Seq<char>) -> nat {
    if slash_count(p) < DEPTH_BONUS_LEVELS {
        (10 * (DEPTH_BONUS_LEVELS - slash_count(p))) as nat
    } else {
        0
    }
}

/// A directory gets one point and then a tenth more (rounded down); every
/// path gets its depth bonus.
pub open spec fn adjusted_score(raw: nat, p: Seq<char>) -> nat {
    (if is_dir_path(p) {
        (raw + 1) * 11 / 10
    } else {
        raw
    }) + depth_bonus(p)
}

/// Lexicographic order on characters (the order of their UTF-8 bytes).
pub open spec fn path_lt(a: Seq<char>, b: Seq<char>) -> bool
    decreases a.len(),
{
    if a.len() == 0 {
        b.len() > 0
    } else if b.len() == 0 {
        false
    } else if a[0] != b[0] {
        a[0] < b[0]
    } else {
        path_lt(a.drop_first(), b.drop_first())
    }
}

/// `a` is listed before `b`: a higher score first, equal scores by path.
pub open spec fn ranks_before(a: (Seq<char>, nat), b: (Seq<char>, nat)) -> bool {
    a.1 > b.1 || (a.1 == b.1 && path_lt(a.0, b.0))
}

/// No element is listed after one that ranks below it.
pub open spec fn sorted_by_rank(s: Seq<(Seq<char>, nat)>) -> bool {
    forall|i: int, j: int| 0 <= i < j < s.len() ==> !ranks_before(#[trigger] s[j], #[trigger] s[i])
}

/// `s` holds the elements of `xs` in rank order.
pub open spec fn is_rank_order_of(s: Seq<(Seq<char>, nat)>, xs: Seq<(Seq<char>, nat)>) -> bool {
    s.to_multiset() == xs.to_multiset() && sorted_by_rank(s)
}

/// Matches with their raw scores, as paths and numbers.
pub open spec fn raw_view(ms: Seq<(String, u32)>) -> Seq<(Seq<char>, nat)> {
    ms.map_values(|m: (String, u32)| (m.0@, m.1 as nat))
}

/// Ranked paths with their adjusted scores, as paths and numbers.
pub open spec fn ranked_view(rs: Seq<(String, u64)>) -> Seq<(Seq<char>, nat)> {
    rs.map_values(|r: (String, u64)| (r.0@, r.1 as nat))
}

pub open spec fn chars_view(rs: Seq<(Vec<char>, u64)>) -> Seq<(Seq<char>, nat)> {
    rs.map_values(|r: (Vec<char>, u64)| (r.0@, r.1 as nat))
}

/// Each match with its score adjusted.
pub open spec fn adjusted_all(ms: Seq<(Seq<char>, nat)>) -> Seq<(Seq<char>, nat)> {
    ms.map_values(|m: (Seq<char>, nat)| (m.0, adjusted_score(m.1, m.0)))
}

/// The number of results shown for `n` matches.
pub open spec fn shown_count(n: nat) -> nat {
    if n < RESULT_CAP {
        n
    } else {
        RESULT_CAP as nat
    }
}

/// The separator count of `cs`.
fn count_slashes(cs: &Vec<char>) -> (r: usize)
    ensures
        r == slash_count(cs@),
{
    let mut n: usize = 0;
    let mut i: usize = 0;
    while i < cs.len()
        invariant
            i <= cs@.len(),
            n == slash_count(cs@.subrange(0, i as int)),
            n <= i,
        decreases cs@.len() - i,
    {
        proof {
            assert(cs@.subrange(0, i as int + 1).drop_last() =~= cs@.subrange(0, i as int));
        }
        if cs[i] == '/' {
            n = n + 1;
        }
        i = i + 1;
    }
    proof {
        assert(cs@.subrange(0, cs@.len() as int) =~= cs@);
    }
    n
}

fn adjust_chars(cs: &Vec<char>, raw: u32) -> (r: u64)
    ensures
        r == adjusted_score(raw as nat, cs@),
{
    let raw = raw as u64;
    let base: u64 = if cs.len() > 0 && cs[cs.len() - 1] == '/' {
        (raw + 1) * 11 / 10
    } else {
        raw
    };
    let slashes = count_slashes(cs);
    let bonus: u64 = if (slashes as u64) < DEPTH_BONUS_LEVELS {
        10 * (DEPTH_BONUS_LEVELS - slashes as u64)
    } else {
        0
    };
    base + bonus
}

/// The score of a match on `path` after the directory and depth bonuses.
pub fn adjust_score(path: &str, raw: u32) -> (r: u64)
    ensures
        r == adjusted_score(raw as nat, path@),
{
    adjust_chars(&chars_of(path), raw)
}

/// Compares two paths character by character.
pub(crate) fn compare_paths(a: &Vec<char>, b: &Vec<char>) -> (r: core::cmp::Ordering)
    ensures
        (r == core::cmp::Ordering::Less) == path_lt(a@, b@),
        (r == core::cmp::Ordering::Greater) == path_lt(b@, a@),
        (r == core::cmp::Ordering::Equal) == (a@ == b@),
{
    let mut i: usize = 0;
    proof {
        assert(a@.skip(0) =~= a@);
        assert(b@.skip(0) =~= b@);
    }
    while i < a.len() && i < b.len()
        invariant
            i <= a@.len(),
            i <= b@.len(),
            a@.subrange(0, i as int) == b@.subrange(0, i as int),
            path_lt(a@, b@) == path_lt(a@.skip(i as int), b@.skip(i as int)),
            path_lt(b@, a@) == path_lt(b@.skip(i as int), a@.skip(i as int)),
        decreases a@.len() - i,
    {
        let ca = a[i];
        let cb = b[i];
        if ca != cb {
            proof {
                assert(a@.skip(i as int)[0] == ca);
                assert(b@.skip(i as int)[0] == cb);
            }
            if ca < cb {
                return core::cmp::Ordering::Less;
            } else {
                return core::cmp::Ordering::Greater;
            }
        }
        proof {
            assert(a@.skip(i as int).drop_first() =~= a@.skip(i as int + 1));
            assert(b@.skip(i as int).drop_first() =~= b@.skip(i as int + 1));
            assert(a@.subrange(0, i as int + 1) =~= a@.subrange(0, i as int).push(ca));
            assert(b@.subrange(0, i as int + 1) =~= b@.subrange(0, i as int).push(cb));
        }
        i = i + 1;
    }
    if i < b.len() {
        core::cmp::Ordering::Less
    } else if i < a.len() {
        core::cmp::Ordering::Greater
    } else {
        proof {
            assert(a@ =~= a@.subrange(0, i as int));
            assert(b@ =~= b@.subrange(0, i as int));
        }
        core::cmp::Ordering::Equal
    }
}

/// Orders two ranked paths: the higher score first, equal scores by path.
fn compare_ranked(a: &(Vec<char>, u64), b: &(Vec<char>, u64)) -> (r: core::cmp::Ordering)
    ensures
        (r == core::cmp::Ordering::Less) == ranks_before((a.0@, a.1 as nat), (b.0@, b.1 as nat)),
        (r == core::cmp::Ordering::Greater) == ranks_before(
            (b.0@, b.1 as nat),
            (a.0@, a.1 as nat),
        ),
{
    if a.1 > b.1 {
        core::cmp::Ordering::Less
    } else if a.1 < b.1 {
        core::cmp::Ordering::Greater
    } else {
        compare_paths(&a.0, &b.0)
    }
}

/// Relies on `slice::sort_by` with `compare_ranked`: the elements are
/// permuted so that the comparison never returns `Greater` for an element
/// and one after it.
#[verifier::external_body]
fn sort_ranked(v: &mut Vec<(Vec<char>, u64)>)
    ensures
        final(v)@.len() == old(v)@.len(),
        chars_view(final(v)@).to_multiset() == chars_view(old(v)@).to_multiset(),
        sorted_by_rank(chars_view(final(v)@)),
{
    v.sort_by(|a, b| compare_ranked(a, b));
}

/// Adjusts every match's score, orders the matches by rank and keeps the
/// first [`RESULT_CAP`] of them.
pub fn rank_matches(matches: &Vec<(String, u32)>) -> (r: Vec<(String, u64)>)
    ensures
        r@.len() == shown_count(matches@.len()),
        exists|s: Seq<(Seq<char>, nat)>|
            is_rank_order_of(s, adjusted_all(raw_view(matches@))) && ranked_view(r@) == s.take(
                r@.len() as int,
            ),
{
    let ghost target = adjusted_all(raw_view(matches@));
    let mut all: Vec<(Vec<char>, u64)> = Vec::new();
    let mut i: usize = 0;
    while i < matches.len()
        invariant
            i <= matches@.len(),
            target == adjusted_all(raw_view(matches@)),
            chars_view(all@) =~= target.take(i as int),
        decreases matches@.len() - i,
    {
        let cs = chars_of(matches[i].0.as_str());
        let score = adjust_chars(&cs, matches[i].1);
        let ghost before = all@;
        all.push((cs, score));
        proof {
            assert(all@ == before.push((cs, score)));
            assert(chars_view(all@) =~= chars_view(before).push((cs@, score as nat)));
            assert(raw_view(matches@)[i as int] == (matches@[i as int].0@, matches@[i as int].1 as nat));
            assert(target[i as int] == (cs@, score as nat));
            assert(target.take(i as int + 1) =~= target.take(i as int).push(target[i as int]));
        }
        i = i + 1;
    }
    proof {
        assert(target.take(i as int) =~= target);
    }
    sort_ranked(&mut all);
    let ghost sorted = chars_view(all@);
    let k: usize = if all.len() < RESULT_CAP {
        all.len()
    } else {
        RESULT_CAP
    };
    let mut out: Vec<(String, u64)> = Vec::new();
    let mut j: usize = 0;
    while j < k
        invariant
            j <= k <= all@.len(),
            sorted == chars_view(all@),
            ranked_view(out@) =~= sorted.take(j as int),
        decreases k - j,
    {
        let name = string_of(all[j].0.as_slice());
        let ghost before = out@;
        out.push((name, all[j].1));
        proof {
            assert(out@ == before.push((name, all@[j as int].1)));
            assert(ranked_view(out@) =~= ranked_view(before).push((name@, all@[j as int].1 as nat)));
            assert(sorted[j as int] == (all@[j as int].0@, all@[j as int].1 as nat));
            assert(sorted.take(j as int + 1) =~= sorted.take(j as int).push(sorted[j as int]));
        }
        j = j + 1;
    }
    proof {
        assert(is_rank_order_of(sorted, target));
    }
    out
}

/// A directory scores more than a file at the same depth with the same raw
/// score.
pub proof fn lemma_directory_outscores_file(raw: nat, dir: Seq<char>, file: Seq<char>)
    requires
        is_dir_path(dir),
        !is_dir_path(file),
        slash_count(dir) == slash_count(file),
    ensures
        adjusted_score(raw, dir) > adjusted_score(raw, file),
{
    assert((raw + 1) * 11 / 10 >= raw + 1) by (nonlinear_arith);
}

/// Marking a path as a directory, by appending the separator, raises its
/// score wherever the depth bonus has already run out.
pub proof fn lemma_marking_directory_raises_score(raw: nat, p: Seq<char>)
    requires
        !is_dir_path(p),
        slash_count(p) >= DEPTH_BONUS_LEVELS,
    ensures
        adjusted_score(raw, p.push('/')) > adjusted_score(raw, p),
{
    assert(p.push('/').drop_last() =~= p);
    assert((raw + 1) * 11 / 10 >= raw + 1) by (nonlinear_arith);
}

/// A deeper path never scores more than a shallower one of the same kind with
/// the same raw score, and from five separators on the depth bonus is zero.
pub proof fn lemma_deeper_scores_no_more(raw: nat, deep: Seq<char>, shallow: Seq<char>)
    requires
        is_dir_path(deep) == is_dir_path(shallow),
        slash_count(deep) >= slash_count(shallow),
    ensures
        adjusted_score(raw, deep) <= adjusted_score(raw, shallow),
        slash_count(deep) >= DEPTH_BONUS_LEVELS ==> depth_bonus(deep) == 0,
{
}

/// Two different paths are ordered one way or the other.
pub proof fn lemma_path_lt_total(a: Seq<char>, b: Seq<char>)
    requires
        a != b,
    ensures
        path_lt(a, b) || path_lt(b, a),
    decreases a.len(),
{
    if a.len() > 0 && b.len() > 0 && a[0] == b[0] {
        if a.drop_first() == b.drop_first() {
            assert(a =~= seq![a[0]] + a.drop_first());
            assert(b =~= seq![b[0]] + b.drop_first());
        }
        lemma_path_lt_total(a.drop_first(), b.drop_first());
    } else if a.len() == 0 && b.len() == 0 {
        assert(a =~= b);
    }
}

/// In rank order, entries with equal scores stand in ascending path order.
pub proof fn lemma_ties_in_path_order(s: Seq<(Seq<char>, nat)>, xs: Seq<(Seq<char>, nat)>)
    requires
        is_rank_order_of(s, xs),
    ensures
        forall|i: int, j: int|
            0 <= i < j < s.len() && (#[trigger] s[i]).1 == (#[trigger] s[j]).1 ==> s[i].0 == s[j].0
                || path_lt(s[i].0, s[j].0),
{
    assert forall|i: int, j: int|
        0 <= i < j < s.len() && (#[trigger] s[i]).1 == (#[trigger] s[j]).1 implies s[i].0
        == s[j].0 || path_lt(s[i].0, s[j].0) by {
        assert(!ranks_before(s[j], s[i]));
        if s[i].0 != s[j].0 {
            lemma_path_lt_total(s[i].0, s[j].0);
        }
    }
}

/// With more than [`RESULT_CAP`] entries, exactly that many are shown; the
/// shown and the dropped entries together are all of them, and no dropped
/// entry ranks before a shown one.
pub proof fn lemma_result_cap(s: Seq<(Seq<char>, nat)>, xs: Seq<(Seq<char>, nat)>)
    requires
        is_rank_order_of(s, xs),
        xs.len() > RESULT_CAP,
    ensures
        shown_count(xs.len()) == RESULT_CAP,
        s.take(RESULT_CAP as int).len() == RESULT_CAP,
        s.take(RESULT_CAP as int).to_multiset().add(s.skip(RESULT_CAP as int).to_multiset())
            == xs.to_multiset(),
        forall|i: int, j: int|
            0 <= i < RESULT_CAP <= j < s.len() ==> !ranks_before(#[trigger] s[j], #[trigger] s[i]),
{
    broadcast use vstd::seq_lib::group_to_multiset_ensures;

    assert(s.len() == xs.len()) by {
        s.to_multiset_ensures();
        xs.to_multiset_ensures();
    }
    let k = RESULT_CAP as int;
    assert(s =~= s.take(k) + s.skip(k));
    vstd::seq_lib::lemma_multiset_commutative(s.take(k), s.skip(k));
}

} // verus!
