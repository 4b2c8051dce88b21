use vstd::prelude::*;

use crate::text::{chars_of, copy_range, push_all, string_of};

verus! {

/// A query split into the directory it is scoped to, the pattern that is
/// matched against that directory's entries, and whether the directory is
/// walked recursively.
#[derive(Debug)]
pub struct ParsedQuery {
    pub search_dir: String,
    pub pattern: String,
    pub recursive: bool,
}

impl ParsedQuery {
    pub open spec fn view_parts(&self) -> (Seq<char>, Seq<char>, bool) {
        (self.search_dir@, self.pattern@, self.recursive)
    }
}

/// The first index at or after `i` where `"/ "` starts in `q`.
pub open spec fn slash_space_from(q: Seq<char>, i: int) -> Option<int>
    decreases q.len() - i,
{
    if i < 0 || i + 1 >= q.len() {
        None
    } else if q[i] == '/' && q[i + 1] == ' ' {
        Some(i)
    } else {
        slash_space_from(q, i + 1)
    }
}

/// The last index below `n` where `q` holds a `/`.
pub open spec fn last_slash_below(q: Seq<char>, n: int) -> Option<int>
    decreases n,
{
    if n <= 0 {
        None
    } else if q[n - 1] == '/' {
        Some(n - 1)
    } else {
        last_slash_below(q, n - 1)
    }
}

/// How a query (its root marker already stripped) splits into search
/// directory, pattern and recursion flag.
pub open spec fn split_spec(q: Seq<char>) -> (Seq<char>, Seq<char>, bool) {
    match slash_space_from(q, 0) {
        Some(i) => (q.subrange(0, i).push('/'), q.subrange(i + 2, q.len() as int), true),
        None => if q.len() > 0 && q[0] == ' ' {
            (Seq::empty(), q.drop_first(), true)
        } else {
            match last_slash_below(q, q.len() as int) {
                Some(j) => (q.subrange(0, j).push('/'), q.subrange(j + 1, q.len() as int), false),
                None => (Seq::empty(), q, false),
            }
        },
    }
}

/// The position of the first `"/ "` in `cs`.
fn find_slash_space(cs: &Vec<char>) -> (r: Option<usize>)
    ensures
        r matches Some(i) ==> i + 1 < cs@.len(),
        r matches Some(i) ==> slash_space_from(cs@, 0) == Some(i as int),
        r is None ==> slash_space_from(cs@, 0) is None,
{
    let mut i: usize = 0;
    while cs.len() > 0 && i < cs.len() - 1
        invariant
            i <= cs@.len(),
            slash_space_from(cs@, 0) == slash_space_from(cs@, i as int),
        decreases cs@.len() - i,
    {
        if cs[i] == '/' && cs[i + 1] == ' ' {
            return Some(i);
        }
        i = i + 1;
    }
    None
}

/// The position of the last `/` in `cs`.
fn find_last_slash(cs: &Vec<char>) -> (r: Option<usize>)
    ensures
        r matches Some(j) ==> j < cs@.len(),
        r matches Some(j) ==> last_slash_below(cs@, cs@.len() as int) == Some(j as int),
        r is None ==> last_slash_below(cs@, cs@.len() as int) is None,
{
    let mut n: usize = cs.len();
    while n > 0
        invariant
            n <= cs@.len(),
            last_slash_below(cs@, cs@.len() as int) == last_slash_below(cs@, n as int),
        decreases n,
    {
        if cs[n - 1] == '/' {
            return Some(n - 1);
        }
        n = n - 1;
    }
    None
}

/// Splits a query whose root marker (a leading `/`) is already stripped.
///
/// `"a/b/ pat"` searches `a/b/` recursively for `pat`; `" pat"` searches the
/// root recursively; anything else splits at its last `/` and searches that
/// directory's immediate children.
pub fn split_query(q: &str) -> (r: ParsedQuery)
    ensures
        r.view_parts() == split_spec(q@),
{
    let cs = chars_of(q);
    let n = cs.len();
    match find_slash_space(&cs) {
        Some(i) => {
            let mut dir = copy_range(&cs, 0, i);
            dir.push('/');
            let pat = copy_range(&cs, i + 2, n);
            proof {
                assert(dir@ =~= cs@.subrange(0, i as int).push('/'));
            }
            ParsedQuery { search_dir: string_of(&dir), pattern: string_of(&pat), recursive: true }
        },
        None => {
            if n > 0 && cs[0] == ' ' {
                let pat = copy_range(&cs, 1, n);
                proof {
                    assert(pat@ =~= cs@.drop_first());
                }
                ParsedQuery {
                    search_dir: String::new(),
                    pattern: string_of(&pat),
                    recursive: true,
                }
            } else {
                match find_last_slash(&cs) {
                    Some(j) => {
                        let mut dir = copy_range(&cs, 0, j);
                        dir.push('/');
                        let pat = copy_range(&cs, j + 1, n);
                        proof {
                            assert(dir@ =~= cs@.subrange(0, j as int).push('/'));
                        }
                        ParsedQuery {
                            search_dir: string_of(&dir),
                            pattern: string_of(&pat),
                            recursive: false,
                        }
                    },
                    None => ParsedQuery {
                        search_dir: String::new(),
                        pattern: string_of(&cs),
                        recursive: false,
                    },
                }
            }
        },
    }
}

/// How the text typed into the finder parses. A leading `/` marks a query
/// relative to the filesystem root: it is stripped, the rest is split, and
/// the search directory gets the `/` back in front, so that joining it onto
/// the home directory yields a path under the filesystem root. Without it the
/// search directory is relative to the home directory.
pub open spec fn parse_spec(input: Seq<char>) -> (Seq<char>, Seq<char>, bool) {
    if input.len() > 0 && input[0] == '/' {
        let parts = split_spec(input.drop_first());
        (seq!['/'] + parts.0, parts.1, parts.2)
    } else {
        split_spec(input)
    }
}

/// Parses the text typed into the finder.
pub fn parse_query(input: &str) -> (r: ParsedQuery)
    ensures
        r.view_parts() == parse_spec(input@),
{
    let cs = chars_of(input);
    if cs.len() > 0 && cs[0] == '/' {
        let rest = copy_range(&cs, 1, cs.len());
        proof {
            assert(rest@ =~= input@.drop_first());
        }
        let parts = split_query(string_of(&rest).as_str());
        let mut dir: Vec<char> = Vec::new();
        dir.push('/');
        push_all(&mut dir, chars_of(parts.search_dir.as_str()).as_slice());
        proof {
            assert(dir@ =~= seq!['/'] + parts.search_dir@);
        }
        ParsedQuery { search_dir: string_of(&dir), pattern: parts.pattern, recursive: parts.recursive }
    } else {
        split_query(input)
    }
}

} // verus!
