//! The files and globs that a task reads and writes.

use crate::collections::{set_contains, set_insert, set_members, set_remove, strs, StrSet};
use crate::task::{ExpandedResult, Task};
use vstd::prelude::*;

verus! {

/// Adds every string of `items` to `set`.
pub fn insert_all(set: &mut StrSet, items: &Vec<String>)
    ensures
        set_members(*final(set)) == set_members(*old(set)).union(strs(items@).to_set()),
{
    let mut i: usize = 0;
    assert(strs(items@).take(0).to_set() =~= Set::empty());
    assert(set_members(*set) =~= set_members(*old(set)).union(strs(items@).take(0).to_set()));
    while i < items.len()
        invariant
            0 <= i <= items.len(),
            set_members(*set) == set_members(*old(set)).union(
                strs(items@).take(i as int).to_set(),
            ),
        decreases items.len() - i,
    {
        set_insert(set, items[i].clone());
        proof {
            let done = strs(items@).take(i as int);
            let now = strs(items@).take(i + 1);
            assert(now =~= done.push(items[i as int]@));
            assert forall|x: Seq<char>| now.to_set().contains(x) <==> done.to_set().insert(
                items[i as int]@,
            ).contains(x) by {
                if done.contains(x) {
                    let j = choose|j: int| 0 <= j < done.len() && done[j] == x;
                    assert(now[j] == x);
                }
                if x == items[i as int]@ {
                    assert(now[i as int] == x);
                }
            }
            assert(now.to_set() =~= done.to_set().insert(items[i as int]@));
            assert(set_members(*set) =~= set_members(*old(set)).union(now.to_set()));
        }
        i += 1;
    }
    assert(strs(items@).take(items.len() as int) =~= strs(items@));
}

/// Moves every string of `items` into `to`, and out of `from` where `from` holds
/// it.
pub fn move_all(from: &mut StrSet, to: &mut StrSet, items: &Vec<String>)
    ensures
        set_members(*final(from)) == set_members(*old(from)).difference(strs(items@).to_set()),
        set_members(*final(to)) == set_members(*old(to)).union(strs(items@).to_set()),
{
    let mut i: usize = 0;
    assert(strs(items@).take(0).to_set() =~= Set::empty());
    assert(set_members(*from) =~= set_members(*old(from)).difference(
        strs(items@).take(0).to_set(),
    ));
    assert(set_members(*to) =~= set_members(*old(to)).union(strs(items@).take(0).to_set()));
    while i < items.len()
        invariant
            0 <= i <= items.len(),
            set_members(*from) == set_members(*old(from)).difference(
                strs(items@).take(i as int).to_set(),
            ),
            set_members(*to) == set_members(*old(to)).union(strs(items@).take(i as int).to_set()),
        decreases items.len() - i,
    {
        let item = &items[i];
        if set_contains(from, item.as_str()) {
            set_remove(from, item.as_str());
        }
        set_insert(to, item.clone());
        proof {
            let done = strs(items@).take(i as int);
            let now = strs(items@).take(i + 1);
            assert(now =~= done.push(item@));
            assert forall|x: Seq<char>| now.to_set().contains(x) <==> done.to_set().insert(
                item@,
            ).contains(x) by {
                if done.contains(x) {
                    let j = choose|j: int| 0 <= j < done.len() && done[j] == x;
                    assert(now[j] == x);
                }
                if x == item@ {
                    assert(now[i as int] == x);
                }
            }
            assert(now.to_set() =~= done.to_set().insert(item@));
            assert(set_members(*from) =~= set_members(*old(from)).difference(now.to_set()));
            assert(set_members(*to) =~= set_members(*old(to)).union(now.to_set()));
        }
        i += 1;
    }
    assert(strs(items@).take(items.len() as int) =~= strs(items@));
}

/// Whether `after` is `before` with the expanded inputs `found` added: the
/// environment variables, the files and the globs each to their set, and nothing
/// else changed.
pub open spec fn inputs_added(before: Task, found: ExpandedResult, after: Task) -> bool {
    &&& set_members(after.input_env) == set_members(before.input_env).union(
        strs(found.env@).to_set(),
    )
    &&& set_members(after.input_files) == set_members(before.input_files).union(
        strs(found.files@).to_set(),
    )
    &&& set_members(after.input_globs) == set_members(before.input_globs).union(
        strs(found.globs@).to_set(),
    )
    &&& after == (Task {
        input_env: after.input_env,
        input_files: after.input_files,
        input_globs: after.input_globs,
        ..before
    })
}

/// Adds the expanded inputs `found` to the task.
pub fn add_inputs(task: &mut Task, found: &ExpandedResult)
    ensures
        inputs_added(*old(task), *found, *final(task)),
{
    insert_all(&mut task.input_env, &found.env);
    insert_all(&mut task.input_files, &found.files);
    insert_all(&mut task.input_globs, &found.globs);
}

/// Whether `after` is `before` with the expanded outputs `found` set against the
/// inputs: each file is an output and no longer an input, each glob is an output
/// glob and no longer an input glob, and nothing else changed. A file is not
/// held against the input globs.
pub open spec fn outputs_reconciled(before: Task, found: ExpandedResult, after: Task) -> bool {
    &&& set_members(after.input_files) == set_members(before.input_files).difference(
        strs(found.files@).to_set(),
    )
    &&& set_members(after.output_files) == set_members(before.output_files).union(
        strs(found.files@).to_set(),
    )
    &&& set_members(after.input_globs) == set_members(before.input_globs).difference(
        strs(found.globs@).to_set(),
    )
    &&& set_members(after.output_globs) == set_members(before.output_globs).union(
        strs(found.globs@).to_set(),
    )
    &&& after == (Task {
        input_files: after.input_files,
        output_files: after.output_files,
        input_globs: after.input_globs,
        output_globs: after.output_globs,
        ..before
    })
}

/// Whether the task's inputs and outputs share neither a file nor a glob.
pub open spec fn inputs_apart_from_outputs(task: Task) -> bool {
    &&& set_members(task.input_files).disjoint(set_members(task.output_files))
    &&& set_members(task.input_globs).disjoint(set_members(task.output_globs))
}

/// Sets the expanded outputs `found` against the task's inputs: files first, then
/// globs.
pub fn reconcile_outputs(task: &mut Task, found: &ExpandedResult)
    ensures
        outputs_reconciled(*old(task), *found, *final(task)),
{
    move_all(&mut task.input_files, &mut task.output_files, &found.files);
    move_all(&mut task.input_globs, &mut task.output_globs, &found.globs);
}

/// Once outputs are set against inputs, no expanded output is an input,
/// whatever the inputs held before; and if inputs and outputs shared nothing
/// before, they share nothing after.
pub proof fn lemma_outputs_leave_inputs(before: Task, found: ExpandedResult, after: Task)
    requires
        outputs_reconciled(before, found, after),
    ensures
        set_members(after.input_files).disjoint(strs(found.files@).to_set()),
        set_members(after.input_globs).disjoint(strs(found.globs@).to_set()),
        inputs_apart_from_outputs(before) ==> inputs_apart_from_outputs(after),
{
}

} // verus!
