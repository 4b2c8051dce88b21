use vstd::prelude::*;

use std::path::Path;

use crate::query::last_slash_below;
use crate::text::{chars_of, copy_range, push_all, string_of};

verus! {

/// One shown result: its label, and what each follow-up action does.
///
/// `complete_input` is the input line that drills into the entry's
/// directory; `open_path` is the absolute path handed to the opener;
/// `parent_input` is the input line that moves to the parent of the searched
/// directory and keeps the typed pattern.
#[derive(Debug)]
pub struct ResultItem {
    pub label: String,
    pub complete_input: String,
    pub open_path: String,
    pub parent_input: String,
}

impl ResultItem {
    pub open spec fn view_parts(&self) -> (Seq<char>, Seq<char>, Seq<char>, Seq<char>) {
        (self.label@, self.complete_input@, self.open_path@, self.parent_input@)
    }
}

/// `rel` joined onto `base` as a path: an absolute `rel` replaces `base`;
/// otherwise a separator is put between them unless `base` is empty or
/// already ends in one.
pub open spec fn join_spec(base: Seq<char>, rel: Seq<char>) -> Seq<char> {
    if rel.len() > 0 && rel[0] == '/' {
        rel
    } else if base.len() == 0 || base.last() == '/' {
        base + rel
    } else {
        base.push('/') + rel
    }
}

/// Joins `rel` onto `base` as `Path::join` does for Unix paths.
pub fn join_path(base: &str, rel: &str) -> (r: String)
    ensures
        r@ == join_spec(base@, rel@),
{
    let b = chars_of(base);
    let c = chars_of(rel);
    if c.len() > 0 && c[0] == '/' {
        string_of(&c)
    } else {
        let mut out = b;
        if out.len() > 0 && out[out.len() - 1] != '/' {
            out.push('/');
        }
        push_all(&mut out, &c);
        string_of(&out)
    }
}

/// The decimal digit `d`.
pub open spec fn digit_char(d: nat) -> char {
    seq!['0', '1', '2', '3', '4', '5', '6', '7', '8', '9'][d as int]
}

/// The decimal representation of `n`, without leading zeros.
pub open spec fn decimal(n: nat) -> Seq<char>
    decreases n,
{
    if n < 10 {
        seq![digit_char(n)]
    } else {
        decimal(n / 10).push(digit_char(n % 10))
    }
}

fn push_decimal(out: &mut Vec<char>, n: u64)
    ensures
        final(out)@ == old(out)@ + decimal(n as nat),
    decreases n,
{
    let digits: [char; 10] = ['0', '1', '2', '3', '4', '5', '6', '7', '8', '9'];
    if n >= 10 {
        push_decimal(out, n / 10);
    }
    let d = (n % 10) as usize;
    out.push(digits[d]);
    proof {
        assert(digits@ =~= seq!['0', '1', '2', '3', '4', '5', '6', '7', '8', '9']);
        assert(final(out)@ =~= old(out)@ + decimal(n as nat));
    }
}

/// The text between a path and its score in a label.
pub open spec fn label_gap() -> Seq<char> {
    seq![' ', ' ', ' ', ' ', '(']
}

/// A result's label: the path, four spaces, and the score in parentheses.
pub open spec fn label_spec(path: Seq<char>, score: nat) -> Seq<char> {
    path + label_gap() + decimal(score) + seq![')']
}

/// The label shown for `path` with `score`.
pub fn label_of(path: &str, score: u64) -> (r: String)
    ensures
        r@ == label_spec(path@, score as nat),
{
    let mut out = chars_of(path);
    out.push(' ');
    out.push(' ');
    out.push(' ');
    out.push(' ');
    out.push('(');
    push_decimal(&mut out, score);
    out.push(')');
    proof {
        assert(out@ =~= label_spec(path@, score as nat));
    }
    string_of(&out)
}

/// The directory part of a path: everything through its last separator, or
/// nothing if it has none.
pub open spec fn dir_part(p: Seq<char>) -> Seq<char> {
    match last_slash_below(p, p.len() as int) {
        Some(j) => p.subrange(0, j + 1),
        None => Seq::empty(),
    }
}

/// The input line that drills into the directory of `path`, found under
/// `search_dir`. It keeps the search directory as typed, so a directory
/// under the filesystem root keeps its leading `/`.
pub open spec fn complete_spec(search_dir: Seq<char>, path: Seq<char>) -> Seq<char> {
    search_dir + dir_part(path)
}

/// The input line for the "complete" action on `path`.
pub fn complete_input(search_dir: &str, path: &str) -> (r: String)
    ensures
        r@ == complete_spec(search_dir@, path@),
{
    let p = chars_of(path);
    let mut n: usize = p.len();
    while n > 0 && p[n - 1] != '/'
        invariant
            n <= p@.len(),
            last_slash_below(p@, p@.len() as int) == last_slash_below(p@, n as int),
        decreases n,
    {
        n = n - 1;
    }
    let mut out = chars_of(search_dir);
    let part = copy_range(&p, 0, n);
    push_all(&mut out, &part);
    proof {
        assert(part@ =~= dir_part(p@));
        assert(out@ =~= complete_spec(search_dir@, path@));
    }
    string_of(&out)
}

/// The parent of a path, as `Path::parent` gives it: `None` for the root
/// and for the empty path.
pub uninterp spec fn parent_path(p: Seq<char>) -> Option<Seq<char>>;

/// Relies on `Path::parent`. The parent of a path given as a `str` is a
/// prefix of it, so it converts back to a `String` losslessly.
#[verifier::external_body]
fn parent_of(dir: &str) -> (r: Option<String>)
    ensures
        r matches Some(p) ==> parent_path(dir@) == Some(p@),
        r is None ==> parent_path(dir@) is None,
{
    Path::new(dir).parent().map(|p| p.to_string_lossy().into_owned())
}

/// The input line that moves to `parent` (or stays in `search_dir` where it
/// has no parent) and searches it recursively for the same pattern: a
/// trailing separator is added unless the directory is empty or the root.
pub open spec fn parent_input_spec(
    parent: Option<Seq<char>>,
    search_dir: Seq<char>,
    pattern: Seq<char>,
) -> Seq<char> {
    let d = match parent {
        Some(p) => p,
        None => search_dir,
    };
    let with_suffix = if d.len() == 0 || d == seq!['/'] {
        d
    } else {
        d.push('/')
    };
    with_suffix + seq![' '] + pattern
}

/// The input line for the "parent directory" action, given the parent that
/// `Path::parent` found for `search_dir`.
pub fn parent_input_from(parent: Option<&str>, search_dir: &str, pattern: &str) -> (r: String)
    ensures
        r@ == parent_input_spec(
            match parent {
                Some(p) => Some(p@),
                None => None,
            },
            search_dir@,
            pattern@,
        ),
{
    let d = match parent {
        Some(p) => chars_of(p),
        None => chars_of(search_dir),
    };
    let mut out: Vec<char> = Vec::new();
    push_all(&mut out, &d);
    let is_root = d.len() == 1 && d[0] == '/';
    if d.len() > 0 && !is_root {
        out.push('/');
    }
    out.push(' ');
    push_all(&mut out, chars_of(pattern).as_slice());
    proof {
        if d@.len() == 1 && d@[0] == '/' {
            assert(d@ =~= seq!['/']);
        }
        assert(out@ =~= parent_input_spec(
            match parent {
                Some(p) => Some(p@),
                None => None,
            },
            search_dir@,
            pattern@,
        ));
    }
    string_of(&out)
}

/// The input line for the "parent directory" action.
pub fn parent_input(search_dir: &str, pattern: &str) -> (r: String)
    ensures
        r@ == parent_input_spec(parent_path(search_dir@), search_dir@, pattern@),
{
    let parent = parent_of(search_dir);
    match &parent {
        Some(p) => parent_input_from(Some(p.as_str()), search_dir, pattern),
        None => parent_input_from(None, search_dir, pattern),
    }
}

} // verus!
