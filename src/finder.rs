use vstd::prelude::*;

use crate::cache::DirCache;
use crate::items::{
    ResultItem, complete_input, complete_spec, join_path, join_spec, label_of, label_spec,
    parent_input, parent_input_spec, parent_path,
};
use crate::matching::{entries_view, match_entries, matches_of};
use crate::query::{parse_query, parse_spec};
use crate::rank::{adjusted_all, is_rank_order_of, rank_matches, ranked_view, raw_view, shown_count};

verus! {

/// What a result item holds for a ranked path `c`, found by searching
/// `search_dir` (absolute: `abs_dir`) for `pattern`.
pub open spec fn item_spec(
    search_dir: Seq<char>,
    abs_dir: Seq<char>,
    pattern: Seq<char>,
    c: (Seq<char>, nat),
) -> (Seq<char>, Seq<char>, Seq<char>, Seq<char>) {
    (
        label_spec(c.0, c.1),
        complete_spec(search_dir, c.0),
        join_spec(abs_dir, c.0),
        parent_input_spec(parent_path(search_dir), search_dir, pattern),
    )
}

/// `items` are the results for the matches `ms`: the first ones in rank
/// order after adjusting their scores, as many as are shown.
pub open spec fn items_for_matches(
    items: Seq<ResultItem>,
    search_dir: Seq<char>,
    abs_dir: Seq<char>,
    pattern: Seq<char>,
    ms: Seq<(Seq<char>, nat)>,
) -> bool {
    &&& items.len() == shown_count(ms.len())
    &&& exists|s: Seq<(Seq<char>, nat)>|
        {
            &&& is_rank_order_of(s, adjusted_all(ms))
            &&& forall|i: int|
                0 <= i < items.len() ==> (#[trigger] items[i]).view_parts() == item_spec(
                    search_dir,
                    abs_dir,
                    pattern,
                    s[i],
                )
        }
}

/// `items` are the results of searching `entries` for `pattern`.
pub open spec fn items_for_entries(
    items: Seq<ResultItem>,
    search_dir: Seq<char>,
    abs_dir: Seq<char>,
    pattern: Seq<char>,
    entries: Seq<Seq<char>>,
) -> bool {
    items_for_matches(items, search_dir, abs_dir, pattern, matches_of(pattern, entries))
}

/// The finder: a search root and the cache of the last listing.
pub struct Finder {
    pub root: String,
    pub cache: DirCache,
}

impl Finder {
    /// A finder whose queries start from `root`, with an empty cache.
    pub fn new(root: String) -> (r: Finder)
        ensures
            r.root@ == root@,
            r.cache.key() is None,
            r.cache.walk_count() == 0,
    {
        Finder { root, cache: DirCache::new() }
    }

    /// The absolute directory that `search_dir` names.
    pub fn query_dir_to_path(&self, search_dir: &str) -> (r: String)
        ensures
            r@ == join_spec(self.root@, search_dir@),
    {
        join_path(self.root.as_str(), search_dir)
    }

    /// Ranks the matches found in `search_dir` and builds the shown items.
    pub fn paths_to_list(&self, search_dir: &str, ranking: &Vec<(String, u32)>, pattern: &str) -> (r:
        Vec<ResultItem>)
        ensures
            items_for_matches(
                r@,
                search_dir@,
                join_spec(self.root@, search_dir@),
                pattern@,
                raw_view(ranking@),
            ),
    {
        let ranked = rank_matches(ranking);
        let abs_dir = self.query_dir_to_path(search_dir);
        let parent_line = parent_input(search_dir, pattern);
        let ghost s = choose|s: Seq<(Seq<char>, nat)>|
            is_rank_order_of(s, adjusted_all(raw_view(ranking@))) && ranked_view(ranked@) == s.take(
                ranked@.len() as int,
            );
        proof {
            assert(is_rank_order_of(s, adjusted_all(raw_view(ranking@))));
            s.to_multiset_ensures();
            adjusted_all(raw_view(ranking@)).to_multiset_ensures();
        }
        let mut out: Vec<ResultItem> = Vec::new();
        let mut i: usize = 0;
        while i < ranked.len()
            invariant
                i <= ranked@.len() <= s.len(),
                ranked_view(ranked@) == s.take(ranked@.len() as int),
                abs_dir@ == join_spec(self.root@, search_dir@),
                parent_line@ == parent_input_spec(parent_path(search_dir@), search_dir@, pattern@),
                out@.len() == i,
                forall|k: int|
                    0 <= k < i ==> (#[trigger] out@[k]).view_parts() == item_spec(
                        search_dir@,
                        abs_dir@,
                        pattern@,
                        s[k],
                    ),
            decreases ranked@.len() - i,
        {
            let path = ranked[i].0.as_str();
            let score = ranked[i].1;
            proof {
                assert(ranked_view(ranked@)[i as int] == s.take(ranked@.len() as int)[i as int]);
            }
            let item = ResultItem {
                label: label_of(path, score),
                complete_input: complete_input(search_dir, path),
                open_path: join_path(abs_dir.as_str(), path),
                parent_input: parent_line.clone(),
            };
            out.push(item);
            i = i + 1;
        }
        out
    }

    /// Searches `search_dir` for `pattern`: takes the directory's listing
    /// from the cache when it holds that directory with this recursion flag,
    /// else from `walk` (which then replaces the cached listing), and builds
    /// the shown items. A failed walk is returned as the error.
    pub fn find_in_children<E, F>(
        &mut self,
        search_dir: &str,
        pattern: &str,
        recursive: bool,
        walk: F,
    ) -> (r: Result<Vec<ResultItem>, E>) where F: FnOnce(&str, bool) -> Result<Vec<String>, E>
        requires
            forall|d: &str, rec: bool| walk.requires((d, rec)),
        ensures
            final(self).root == old(self).root,
            ({
                let abs = join_spec(old(self).root@, search_dir@);
                &&& old(self).cache.holds(abs, recursive) ==> {
                    &&& r is Ok
                    &&& items_for_entries(
                        r->Ok_0@,
                        search_dir@,
                        abs,
                        pattern@,
                        old(self).cache.entries(),
                    )
                    &&& final(self).cache.key() == old(self).cache.key()
                    &&& final(self).cache.entries() == old(self).cache.entries()
                    &&& final(self).cache.walk_count() == old(self).cache.walk_count()
                }
                &&& !old(self).cache.holds(abs, recursive) ==> {
                    &&& final(self).cache.walk_count() == old(self).cache.walk_count() + 1
                    &&& exists|d: &str, out: Result<Vec<String>, E>|
                        {
                            &&& d@ == abs
                            &&& #[trigger] walk.ensures((d, recursive), out)
                            &&& (out is Err <==> r is Err)
                            &&& out is Err ==> r->Err_0 == out->Err_0
                            &&& out is Ok ==> {
                                &&& items_for_entries(
                                    r->Ok_0@,
                                    search_dir@,
                                    abs,
                                    pattern@,
                                    entries_view(out->Ok_0@),
                                )
                                &&& final(self).cache.holds(abs, recursive)
                                &&& final(self).cache.entries() == entries_view(out->Ok_0@)
                            }
                            &&& out is Err ==> {
                                &&& final(self).cache.key() == old(self).cache.key()
                                &&& final(self).cache.entries() == old(self).cache.entries()
                            }
                        }
                }
            }),
    {
        let abs = self.query_dir_to_path(search_dir);
        let listed = self.cache.get_or_populate(abs.as_str(), recursive, walk);
        match listed {
            Ok(entries) => {
                let ranking = match_entries(pattern, &*entries);
                Ok(self.paths_to_list(search_dir, &ranking, pattern))
            },
            Err(e) => Err(e),
        }
    }

    /// Answers the text typed into the finder with the shown items. A query
    /// that starts with `/` searches under the filesystem root, any other
    /// under `root`. A failed walk of the searched directory yields no items.
    pub fn query<E, F>(&mut self, input: &str, walk: F) -> (r: Vec<ResultItem>) where
        F: FnOnce(&str, bool) -> Result<Vec<String>, E>,

        requires
            forall|d: &str, rec: bool| walk.requires((d, rec)),
        ensures
            final(self).root == old(self).root,
            ({
                let q = parse_spec(input@);
                let abs = join_spec(old(self).root@, q.0);
                &&& old(self).cache.holds(abs, q.2) ==> {
                    &&& items_for_entries(r@, q.0, abs, q.1, old(self).cache.entries())
                    &&& final(self).cache.key() == old(self).cache.key()
                    &&& final(self).cache.entries() == old(self).cache.entries()
                    &&& final(self).cache.walk_count() == old(self).cache.walk_count()
                }
                &&& !old(self).cache.holds(abs, q.2) ==> {
                    &&& final(self).cache.walk_count() == old(self).cache.walk_count() + 1
                    &&& exists|d: &str, out: Result<Vec<String>, E>|
                        {
                            &&& d@ == abs
                            &&& #[trigger] walk.ensures((d, q.2), out)
                            &&& out is Err ==> r@.len() == 0
                            &&& out is Ok ==> {
                                &&& items_for_entries(r@, q.0, abs, q.1, entries_view(out->Ok_0@))
                                &&& final(self).cache.holds(abs, q.2)
                                &&& final(self).cache.entries() == entries_view(out->Ok_0@)
                            }
                            &&& out is Err ==> {
                                &&& final(self).cache.key() == old(self).cache.key()
                                &&& final(self).cache.entries() == old(self).cache.entries()
                            }
                        }
                }
            }),
    {
        let parsed = parse_query(input);
        let found = self.find_in_children(
            parsed.search_dir.as_str(),
            parsed.pattern.as_str(),
            parsed.recursive,
            walk,
        );
        match found {
            Ok(items) => items,
            Err(_) => Vec::new(),
        }
    }
}

} // verus!
