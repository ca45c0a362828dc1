//! The log of a submission: one command per line, in the order of the tasks.
//! The scheduler's tasks read their commands from it by line number.

use crate::split::{lemma_split_len, lines, split, split_lines, views, Separator};
use crate::text::{from_chars, to_chars};
use vstd::prelude::*;

verus! {

/// The text of the log: every command followed by a line feed.
pub open spec fn job_log(jobs: Seq<Seq<char>>) -> Seq<char>
    decreases jobs.len(),
{
    if jobs.len() == 0 {
        Seq::empty()
    } else {
        job_log(jobs.drop_last()) + jobs.last() + seq!['\n']
    }
}

/// Whether no command of `jobs` holds a line feed.
pub open spec fn single_lines(jobs: Seq<Seq<char>>) -> bool {
    forall|i: int, k: int| 0 <= i < jobs.len() && 0 <= k < jobs[i].len() ==> jobs[i][k] != '\n'
}

/// Text without a separator, put behind a text, goes on the last piece.
pub proof fn lemma_split_append(s: Seq<char>, more: Seq<char>, sep: Separator)
    requires
        forall|k: int| 0 <= k < more.len() ==> !sep.holds(more[k]),
    ensures
        split(s, sep).len() >= 1,
        split(s + more, sep) == split(s, sep).drop_last().push(split(s, sep).last() + more),
    decreases more.len(),
{
    lemma_split_len(s, sep);
    let pieces = split(s, sep);
    if more.len() == 0 {
        assert(s + more =~= s);
        assert(pieces.last() + more =~= pieces.last());
        assert(pieces.drop_last().push(pieces.last()) =~= pieces);
    } else {
        let head = more.drop_last();
        lemma_split_append(s, head, sep);
        assert((s + more).drop_last() =~= s + head);
        assert((pieces.last() + head).push(more.last()) =~= pieces.last() + more);
        let before = split(s + head, sep);
        assert(before.drop_last() =~= pieces.drop_last());
    }
}

/// A log of commands that hold no line feed splits into the commands and one
/// empty piece after the last line feed.
pub proof fn lemma_job_log_pieces(jobs: Seq<Seq<char>>)
    requires
        single_lines(jobs),
    ensures
        split(job_log(jobs), Separator::Newline) == jobs.push(Seq::<char>::empty()),
    decreases jobs.len(),
{
    let sep = Separator::Newline;
    if jobs.len() == 0 {
        assert(split(job_log(jobs), sep) =~= jobs.push(Seq::<char>::empty()));
    } else {
        let rest = jobs.drop_last();
        let top = jobs.last();
        assert(single_lines(rest)) by {
            assert forall|i: int, k: int|
                0 <= i < rest.len() && 0 <= k < rest[i].len() implies rest[i][k] != '\n' by {
                assert(rest[i] == jobs[i]);
            }
        }
        lemma_job_log_pieces(rest);
        assert forall|k: int| 0 <= k < top.len() implies !sep.holds(top[k]) by {
            assert(jobs[jobs.len() - 1][k] != '\n');
        }
        lemma_split_append(job_log(rest), top, sep);
        let body = job_log(rest) + top;
        assert(split(body, sep) =~= rest.push(top)) by {
            assert(Seq::<char>::empty() + top =~= top);
        }
        assert(job_log(jobs) =~= body.push('\n'));
        assert(body.push('\n').drop_last() =~= body);
        assert(rest.push(top) =~= jobs);
    }
}

/// Read back line by line, the log of commands that hold no line feed gives
/// exactly those commands, in their order.
pub proof fn lemma_job_log_round_trip(jobs: Seq<Seq<char>>)
    requires
        single_lines(jobs),
    ensures
        lines(job_log(jobs)) == jobs,
        lines(job_log(jobs)).len() == jobs.len(),
{
    lemma_job_log_pieces(jobs);
    assert(jobs.push(Seq::<char>::empty()).drop_last() =~= jobs);
}

/// The commands of a log, in the order of the tasks: its lines.
pub fn read_job_log(text: &str) -> (jobs: Vec<String>)
    ensures
        jobs.deep_view() == lines(text@),
{
    let chars = to_chars(text);
    let found = split_lines(&chars);
    let mut jobs: Vec<String> = Vec::new();
    let mut i: usize = 0;
    while i < found.len()
        invariant
            i <= found.len(),
            jobs.len() == i,
            forall|k: int| 0 <= k < i ==> #[trigger] jobs[k]@ == found[k]@,
        decreases found.len() - i,
    {
        jobs.push(from_chars(&found[i]));
        i = i + 1;
    }
    proof {
        assert(jobs.deep_view() =~= views(found@));
    }
    jobs
}

/// The number of lines of a log: the number of commands that it reads back
/// as.
pub fn count_lines(text: &str) -> (count: usize)
    ensures
        count == lines(text@).len(),
{
    let chars = to_chars(text);
    let found = split_lines(&chars);
    found.len()
}

} // verus!
