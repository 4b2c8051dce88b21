use vstd::prelude::*;

use crate::text::{chars_of, push_all, string_of};

verus! {

/// Characters that are dropped from a search term before it is put into SQL.
pub open spec fn is_sql_quote(c: char) -> bool {
    c == '\'' || c == '"' || c == ';'
}

/// The search term without quotes and semicolons.
pub open spec fn sanitized(q: Seq<char>) -> Seq<char>
    decreases q.len(),
{
    if q.len() == 0 {
        Seq::empty()
    } else if is_sql_quote(q.last()) {
        sanitized(q.drop_last())
    } else {
        sanitized(q.drop_last()).push(q.last())
    }
}

/// The query for the names in a docset index that contain the (sanitized)
/// search term, at most thirty of them.
pub fn sql_query(query: &str) -> (r: String)
    ensures
        r@ == "SELECT DISTINCT name FROM searchIndex WHERE name LIKE '%"@ + sanitized(query@)
            + "%' LIMIT 0,30;"@,
{
    let q = chars_of(query);
    let mut out = chars_of("SELECT DISTINCT name FROM searchIndex WHERE name LIKE '%");
    let ghost head = out@;
    let mut i: usize = 0;
    while i < q.len()
        invariant
            i <= q@.len(),
            out@ == head + sanitized(q@.subrange(0, i as int)),
        decreases q@.len() - i,
    {
        proof {
            assert(q@.subrange(0, i as int + 1).drop_last() =~= q@.subrange(0, i as int));
        }
        let c = q[i];
        if !(c == '\'' || c == '"' || c == ';') {
            out.push(c);
        }
        proof {
            assert(out@ =~= head + sanitized(q@.subrange(0, i as int + 1)));
        }
        i = i + 1;
    }
    proof {
        assert(q@.subrange(0, i as int) =~= query@);
    }
    let tail = chars_of("%' LIMIT 0,30;");
    push_all(&mut out, &tail);
    string_of(&out)
}

} // verus!
