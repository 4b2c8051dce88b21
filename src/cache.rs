use vstd::prelude::*;

use std::sync::Arc;

use crate::matching::entries_view;
use crate::rank::compare_paths;
use crate::text::chars_of;

verus! {

/// One walk of a directory: its paths relative to the directory, with a
/// trailing `/` on directories.
pub struct DirectoryListing {
    pub directory: String,
    pub recursive: bool,
    pub entries: Arc<Vec<String>>,
}

/// A single-slot cache of the last directory listing, keyed by the
/// directory and whether it was walked recursively.
///
/// A listing serves only queries with exactly its key; any other key walks
/// again and replaces the slot.
pub struct DirCache {
    slot: Option<DirectoryListing>,
    walks: Ghost<nat>,
}

/// Relies on `Arc::clone`: a new handle to the same listing.
#[verifier::external_body]
fn share(entries: &Arc<Vec<String>>) -> (r: Arc<Vec<String>>)
    ensures
        r == *entries,
{
    Arc::clone(entries)
}

impl DirCache {
    /// The key of the cached listing, if any.
    pub closed spec fn key(&self) -> Option<(Seq<char>, bool)> {
        match &self.slot {
            Some(l) => Some((l.directory@, l.recursive)),
            None => None,
        }
    }

    /// The paths of the cached listing.
    pub closed spec fn entries(&self) -> Seq<Seq<char>> {
        match &self.slot {
            Some(l) => entries_view(l.entries@),
            None => Seq::empty(),
        }
    }

    /// How many walks this cache has asked for.
    pub closed spec fn walk_count(&self) -> nat {
        self.walks@
    }

    /// The cached listing serves a query on `dir` with this recursion flag.
    pub open spec fn holds(&self, dir: Seq<char>, recursive: bool) -> bool {
        self.key() == Some((dir, recursive))
    }

    /// An empty cache.
    pub fn new() -> (r: DirCache)
        ensures
            r.key() is None,
            r.walk_count() == 0,
    {
        DirCache { slot: None, walks: Ghost(0) }
    }

    /// The listing of `dir`: the cached one when its key is `(dir,
    /// recursive)`, else the one `walk` returns, which then replaces the
    /// cached listing. A failed walk leaves the cache as it was.
    pub fn get_or_populate<E, F>(&mut self, dir: &str, recursive: bool, walk: F) -> (r: Result<
        Arc<Vec<String>>,
        E,
    >) where F: FnOnce(&str, bool) -> Result<Vec<String>, E>
        requires
            walk.requires((dir, recursive)),
        ensures
            old(self).holds(dir@, recursive) ==> {
                &&& r is Ok
                &&& entries_view((*r->Ok_0)@) == old(self).entries()
                &&& final(self).key() == old(self).key()
                &&& final(self).entries() == old(self).entries()
                &&& final(self).walk_count() == old(self).walk_count()
            },
            !old(self).holds(dir@, recursive) ==> {
                &&& final(self).walk_count() == old(self).walk_count() + 1
                &&& exists|out: Result<Vec<String>, E>|
                    {
                        &&& #[trigger] walk.ensures((dir, recursive), out)
                        &&& (out is Err <==> r is Err)
                        &&& out is Ok ==> *r->Ok_0 == out->Ok_0
                        &&& out is Err ==> r->Err_0 == out->Err_0
                    }
                &&& r is Ok ==> final(self).holds(dir@, recursive) && final(self).entries()
                    == entries_view((*r->Ok_0)@)
                &&& r is Err ==> final(self).key() == old(self).key() && final(self).entries()
                    == old(self).entries()
            },
    {
        if let Some(listing) = &self.slot {
            let same_dir = matches!(
                compare_paths(&chars_of(listing.directory.as_str()), &chars_of(dir)),
                core::cmp::Ordering::Equal
            );
            if listing.recursive == recursive && same_dir {
                return Ok(share(&listing.entries));
            }
        }
        self.walks = Ghost(self.walks@ + 1);
        let out = walk(dir, recursive);
        let ghost walked = out;
        match out {
            Ok(found) => {
                let entries = Arc::new(found);
                self.slot = Some(
                    DirectoryListing {
                        directory: dir.to_owned(),
                        recursive,
                        entries: share(&entries),
                    },
                );
                let r = Ok(entries);
                proof {
                    assert(walk.ensures((dir, recursive), walked));
                }
                r
            },
            Err(e) => {
                let r = Err(e);
                proof {
                    assert(walk.ensures((dir, recursive), walked));
                }
                r
            },
        }
    }
}

} // verus!
