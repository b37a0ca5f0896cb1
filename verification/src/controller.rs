//! The run-loop decisions: which events qualify, when a batch triggers a
//! rerun of the test command, and when the loop shuts down.
//!
//! The loop itself alternates outside work (blocking on the watch service,
//! spawning the test command) with these decisions; everything the loop
//! decides is a pure function of the shutdown flag and the outcome of the
//! last wait, and is verified here.

use vstd::prelude::*;

use crate::events::ChangeEvent;
use crate::file_watch::WatchError;

verus! {

/// The source-file suffix that triggers a rerun.
pub open spec fn spec_source_suffix() -> Seq<char> {
    seq!['.', 'r', 's']
}

/// Whether `name` ends with the source-file suffix.
pub open spec fn spec_has_source_suffix(name: Seq<char>) -> bool {
    name.len() >= 3 && name.subrange(name.len() - 3, name.len() as int) == spec_source_suffix()
}

/// Whether one event triggers a rerun: it must not be a directory-level
/// event and its subject name must end with the source-file suffix.
pub open spec fn spec_qualifies(e: ChangeEvent) -> bool {
    !e.is_dir && spec_has_source_suffix(e.name@)
}

/// Whether a batch contains at least one qualifying event.
pub open spec fn spec_batch_qualifies(batch: Seq<ChangeEvent>) -> bool {
    exists|i: int| 0 <= i < batch.len() && spec_qualifies(batch[i])
}

/// Decides whether a subject name ends with the source-file suffix.
pub fn has_source_suffix(name: &str) -> (r: bool)
    ensures
        r == spec_has_source_suffix(name@),
{
    let n = name.unicode_len();
    if n < 3 {
        return false;
    }
    let c0 = name.get_char(n - 3);
    let c1 = name.get_char(n - 2);
    let c2 = name.get_char(n - 1);
    let r = c0 == '.' && c1 == 'r' && c2 == 's';
    proof {
        let tail = name@.subrange(name@.len() - 3, name@.len() as int);
        assert(tail[0] == name@[name@.len() - 3]);
        assert(tail[1] == name@[name@.len() - 2]);
        assert(tail[2] == name@[name@.len() - 1]);
        if r {
            assert(tail =~= spec_source_suffix());
        }
    }
    r
}

/// Decides whether one event triggers a rerun.
pub fn qualifies(e: &ChangeEvent) -> (r: bool)
    ensures
        r == spec_qualifies(*e),
{
    !e.is_dir && has_source_suffix(e.name.as_str())
}

/// Finds the first qualifying event in a batch, scanning in arrival order
/// and stopping at the first match, so one batch yields at most one rerun
/// however many qualifying events it holds.
pub fn first_qualifying(batch: &Vec<ChangeEvent>) -> (r: Option<usize>)
    ensures
        match r {
            Some(i) => {
                &&& i < batch@.len()
                &&& spec_qualifies(batch@[i as int])
                &&& forall|j: int| 0 <= j < i ==> !spec_qualifies(batch@[j])
            },
            None => forall|j: int| 0 <= j < batch@.len() ==> !spec_qualifies(batch@[j]),
        },
{
    let mut idx: usize = 0;
    while idx < batch.len()
        invariant
            idx <= batch@.len(),
            forall|j: int| 0 <= j < idx ==> !spec_qualifies(batch@[j]),
        decreases batch@.len() - idx,
    {
        if qualifies(&batch[idx]) {
            return Some(idx);
        }
        idx += 1;
    }
    None
}

/// Decides, at the top of each loop iteration and before any further
/// blocking wait, whether the loop goes on: it does exactly when the
/// shutdown flag has not been observed, so a flag set before a wait call
/// returned stops the loop without another wait being issued.
pub fn should_continue(shutdown_observed: bool) -> (r: bool)
    ensures
        r == !shutdown_observed,
{
    !shutdown_observed
}

/// Decides whether the outcome of one wait call triggers a rerun: it does
/// exactly when the wait succeeded and its batch holds at least one
/// qualifying event.  A failed wait — in particular one interrupted by a
/// signal — counts as an empty batch, and a batch with no qualifying event
/// launches nothing.
pub fn should_rerun(outcome: &Result<Vec<ChangeEvent>, WatchError>) -> (r: bool)
    ensures
        r == (outcome matches Ok(batch) && spec_batch_qualifies(batch@)),
{
    match outcome {
        Err(_) => false,
        Ok(batch) => first_qualifying(batch).is_some(),
    }
}

} // verus!
