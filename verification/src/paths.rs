//! File paths as text, with '/' between components, as on Unix.
use vstd::prelude::*;
use vstd::string::StrSliceExecFns;

verus! {

/// `base` extended by `part`, as `PathBuf::push` does it: an absolute
/// `part` replaces `base`; otherwise a '/' goes between them unless `base`
/// is empty or already ends with one.
pub open spec fn spec_join(base: Seq<char>, part: Seq<char>) -> Seq<char> {
    if part.len() > 0 && part[0] == '/' {
        part
    } else if base.len() > 0 && base.last() != '/' {
        base + seq!['/'] + part
    } else {
        base + part
    }
}

/// Extends the path `base` by `part`.
pub fn join_path(base: &str, part: &str) -> (r: String)
    ensures
        r@ == spec_join(base@, part@),
{
    let part_len = part.unicode_len();
    if part_len > 0 && part.get_char(0) == '/' {
        return String::from_str(part);
    }
    let base_len = base.unicode_len();
    let mut r = String::from_str(base);
    if base_len > 0 && base.get_char(base_len - 1) != '/' {
        r.append("/");
        proof {
            reveal_strlit("/");
        }
    }
    r.append(part);
    r
}

/// The text after the last '/' of `p`.
pub open spec fn final_segment(p: Seq<char>) -> Seq<char>
    decreases p.len(),
{
    if p.len() == 0 || p.last() == '/' {
        seq![]
    } else {
        final_segment(p.drop_last()).push(p.last())
    }
}

/// The last component of the path `p`, as `Path::file_name` gives it: '/'
/// at the end and "." components are passed over; a path that ends in ".."
/// or has no other component has none.
pub open spec fn spec_file_name(p: Seq<char>) -> Option<Seq<char>>
    decreases p.len(),
{
    if p.len() == 0 {
        None
    } else if p.last() == '/' {
        spec_file_name(p.drop_last())
    } else {
        let seg = final_segment(p);
        if seg == seq!['.'] {
            spec_file_name(p.subrange(0, p.len() - 1))
        } else if seg == seq!['.', '.'] {
            None
        } else {
            Some(seg)
        }
    }
}

/// The final segment of a path whose last `n` characters hold no '/' and
/// come right after one, or after the start.
proof fn lemma_final_segment_is(p: Seq<char>, start: int)
    requires
        0 <= start <= p.len(),
        forall|i: int| start <= i < p.len() ==> #[trigger] p[i] != '/',
        start > 0 ==> p[start - 1] == '/',
    ensures
        final_segment(p) == p.subrange(start, p.len() as int),
    decreases p.len(),
{
    if p.len() == start {
        if p.len() > 0 {
            assert(p.last() == '/');
        }
        assert(p.subrange(start, p.len() as int) =~= seq![]);
    } else {
        lemma_final_segment_is(p.drop_last(), start);
        assert(p.drop_last().subrange(start, p.len() - 1).push(p.last()) =~= p.subrange(
            start,
            p.len() as int,
        ));
    }
}

/// The last component of the path `p`, or nothing: `Path::file_name`.
pub fn file_name(p: &str) -> (r: Option<String>)
    ensures
        match r {
            Some(name) => spec_file_name(p@) == Some(name@),
            None => spec_file_name(p@) is None,
        },
{
    let len = p.unicode_len();
    let mut end: usize = len;
    assert(p@.subrange(0, len as int) =~= p@);
    while end > 0
        invariant
            end <= len,
            len == p@.len(),
            spec_file_name(p@.subrange(0, end as int)) == spec_file_name(p@),
        decreases end,
    {
        let ghost q = p@.subrange(0, end as int);
        if p.get_char(end - 1) == '/' {
            assert(q.drop_last() =~= p@.subrange(0, end - 1));
            end = end - 1;
        } else {
            let mut start: usize = end - 1;
            while start > 0 && p.get_char(start - 1) != '/'
                invariant
                    start < end <= len,
                    len == p@.len(),
                    forall|i: int| start <= i < end ==> #[trigger] p@[i] != '/',
                decreases start,
            {
                start = start - 1;
            }
            proof {
                assert forall|i: int| start <= i < q.len() implies #[trigger] q[i] != '/' by {
                    assert(q[i] == p@[i]);
                }
                lemma_final_segment_is(q, start as int);
            }
            let seg = p.substring_char(start, end);
            assert(seg@ == final_segment(q));
            if end - start == 1 && seg.get_char(0) == '.' {
                assert(seg@ =~= seq!['.']);
                assert(q.subrange(0, q.len() - 1) =~= p@.subrange(0, start as int));
                end = start;
            } else if end - start == 2 && seg.get_char(0) == '.' && seg.get_char(1) == '.' {
                assert(seg@ =~= seq!['.', '.']);
                return None;
            } else {
                assert(seg@ != seq!['.']);
                assert(seg@ != seq!['.', '.']);
                return Some(String::from_str(seg));
            }
        }
    }
    assert(p@.subrange(0, 0) =~= Seq::<char>::empty());
    None
}

} // verus!
