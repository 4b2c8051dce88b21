use vstd::prelude::*;
use vstd::string::StrSliceExecFns;

use nucleo_matcher::pattern::{CaseMatching, Normalization, Pattern};
use nucleo_matcher::{Config, Matcher, Utf32String};
use rayon::iter::{IndexedParallelIterator, IntoParallelRefIterator, ParallelIterator};

use crate::rank::raw_view;
use crate::text::chars_of;

verus! {

/// Longer patterns are not handed to the matcher: past this many characters
/// the sum of the per-word scores could exceed `u32`.
pub const MAX_PATTERN_CHARS: usize = 131072;

/// The score that the fuzzy matcher gives `candidate` for `pattern`, or
/// `None` where it does not match. The matcher folds case unless the pattern
/// has upper case, folds diacritics unless the pattern has them, weighs path
/// separators, and matches each space-separated word of the pattern.
pub uninterp spec fn fuzzy_score(pattern: Seq<char>, candidate: Seq<char>) -> Option<u32>;

/// Relies on nucleo_matcher's `Pattern::parse` (smart case, smart
/// normalization) and `Pattern::score` with a `Matcher` configured by
/// `Config::match_paths`. Its assertions hold for haystacks of at most
/// `u32::MAX` characters, and its sum of word scores fits in `u32` for
/// patterns of at most [`MAX_PATTERN_CHARS`] characters.
#[verifier::external_body]
fn nucleo_score(pattern: &str, candidate: &str) -> (r: Option<u32>)
    requires
        pattern@.len() <= MAX_PATTERN_CHARS,
        candidate@.len() <= u32::MAX,
    ensures
        r == fuzzy_score(pattern@, candidate@),
{
    let pattern = Pattern::parse(pattern, CaseMatching::Smart, Normalization::Smart);
    let mut matcher = Matcher::new(Config::DEFAULT.match_paths());
    pattern.score(Utf32String::from(candidate).slice(..), &mut matcher)
}

/// A pattern with no words: empty, or spaces only.
pub open spec fn is_blank(pattern: Seq<char>) -> bool {
    forall|i: int| 0 <= i < pattern.len() ==> pattern[i] == ' '
}

/// The raw score of one listed path: every path scores 0 for a pattern with
/// no words; a path too long for the matcher, or any path for a pattern too
/// long for it, does not match.
pub open spec fn raw_score(pattern: Seq<char>, candidate: Seq<char>) -> Option<u32> {
    if is_blank(pattern) {
        Some(0)
    } else if pattern.len() > MAX_PATTERN_CHARS || candidate.len() > u32::MAX {
        None
    } else {
        fuzzy_score(pattern, candidate)
    }
}

/// Whether the pattern has no words.
pub fn blank_pattern(pattern: &str) -> (r: bool)
    ensures
        r == is_blank(pattern@),
{
    let cs = chars_of(pattern);
    let mut i: usize = 0;
    while i < cs.len()
        invariant
            i <= cs@.len(),
            cs@ == pattern@,
            forall|k: int| 0 <= k < i ==> cs@[k] == ' ',
        decreases cs@.len() - i,
    {
        if cs[i] != ' ' {
            return false;
        }
        i = i + 1;
    }
    true
}

/// Scores one listed path against the pattern.
pub fn score_candidate(pattern: &str, candidate: &str) -> (r: Option<u32>)
    ensures
        r == raw_score(pattern@, candidate@),
{
    let plen = pattern.unicode_len();
    if blank_pattern(pattern) {
        Some(0)
    } else if plen > MAX_PATTERN_CHARS || candidate.unicode_len() as u64 > u32::MAX as u64 {
        None
    } else {
        nucleo_score(pattern, candidate)
    }
}

/// Relies on rayon's `par_iter`, `map` and `collect_into_vec`: the result
/// for each entry is stored at that entry's index; each is computed by
/// `score_candidate`.
#[verifier::external_body]
fn score_all(pattern: &str, entries: &Vec<String>) -> (r: Vec<Option<u32>>)
    ensures
        r@.len() == entries@.len(),
        forall|i: int| 0 <= i < r@.len() ==> r@[i] == raw_score(pattern@, #[trigger] entries@[i]@),
{
    let mut out = Vec::new();
    entries.par_iter().map(|e| score_candidate(pattern, e)).collect_into_vec(&mut out);
    out
}

/// The listed paths as character sequences.
pub open spec fn entries_view(entries: Seq<String>) -> Seq<Seq<char>> {
    entries.map_values(|e: String| e@)
}

/// The entries that the pattern matches, in listing order, with their raw
/// scores.
pub open spec fn matches_of(pattern: Seq<char>, entries: Seq<Seq<char>>) -> Seq<(Seq<char>, nat)>
    decreases entries.len(),
{
    if entries.len() == 0 {
        Seq::empty()
    } else {
        let rest = matches_of(pattern, entries.drop_last());
        match raw_score(pattern, entries.last()) {
            Some(s) => rest.push((entries.last(), s as nat)),
            None => rest,
        }
    }
}

/// Every entry with score 0.
pub open spec fn unscored(entries: Seq<Seq<char>>) -> Seq<(Seq<char>, nat)> {
    entries.map_values(|e: Seq<char>| (e, 0nat))
}

/// Scores every listed path against the pattern and keeps those it matches,
/// in listing order. A pattern with no words (empty or spaces only) keeps
/// every path, with score 0, without calling the matcher.
pub fn match_entries(pattern: &str, entries: &Vec<String>) -> (r: Vec<(String, u32)>)
    ensures
        raw_view(r@) == matches_of(pattern@, entries_view(entries@)),
        is_blank(pattern@) ==> raw_view(r@) == unscored(entries_view(entries@)),
{
    let ghost es = entries_view(entries@);
    let mut out: Vec<(String, u32)> = Vec::new();
    if blank_pattern(pattern) {
        let mut i: usize = 0;
        while i < entries.len()
            invariant
                is_blank(pattern@),
                i <= entries@.len(),
                es == entries_view(entries@),
                raw_view(out@) == matches_of(pattern@, es.take(i as int)),
                raw_view(out@) =~= unscored(es.take(i as int)),
            decreases entries@.len() - i,
        {
            let e = entries[i].clone();
            let ghost before = out@;
            out.push((e, 0));
            proof {
                assert(es.take(i as int + 1).drop_last() =~= es.take(i as int));
                assert(raw_view(out@) =~= raw_view(before).push((e@, 0nat)));
            }
            i = i + 1;
        }
        proof {
            assert(es.take(i as int) =~= es);
        }
    } else {
        let scores = score_all(pattern, entries);
        let mut i: usize = 0;
        while i < entries.len()
            invariant
                i <= entries@.len(),
                scores@.len() == entries@.len(),
                forall|k: int|
                    0 <= k < scores@.len() ==> scores@[k] == raw_score(
                        pattern@,
                        #[trigger] entries@[k]@,
                    ),
                es == entries_view(entries@),
                raw_view(out@) == matches_of(pattern@, es.take(i as int)),
            decreases entries@.len() - i,
        {
            proof {
                assert(es.take(i as int + 1).drop_last() =~= es.take(i as int));
                assert(es[i as int] == entries@[i as int]@);
            }
            match scores[i] {
                Some(s) => {
                    let e = entries[i].clone();
                    let ghost before = out@;
                    out.push((e, s));
                    proof {
                        assert(raw_view(out@) =~= raw_view(before).push((e@, s as nat)));
                    }
                },
                None => {},
            }
            i = i + 1;
        }
        proof {
            assert(es.take(i as int) =~= es);
        }
    }
    out
}

} // verus!
