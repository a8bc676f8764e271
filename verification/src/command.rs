//! The command, script and arguments of a task, once their tokens are resolved.

use crate::collections::{map_entries, strs};
use crate::substitute::{substitute_env_var, substituted};
use crate::task::Task;
use vstd::prelude::*;

verus! {

/// `text` with the variables of the task's environment substituted.
pub open spec fn in_task_env(task: Task, text: Seq<char>) -> Seq<char> {
    substituted(Seq::empty(), text, map_entries(task.env))
}

/// Whether `after` is `before` with the command `resolved`, substituted against
/// the task's environment, and nothing else changed.
pub open spec fn command_set(before: Task, resolved: Seq<char>, after: Task) -> bool {
    &&& after.command@ == in_task_env(before, resolved)
    &&& after == (Task { command: after.command, ..before })
}

/// Sets the task's command to `resolved` with the variables of the task's
/// environment substituted.
pub fn set_command(task: &mut Task, resolved: &str)
    ensures
        command_set(*old(task), resolved@, *final(task)),
{
    assert(""@ =~= Seq::<char>::empty()) by {
        reveal_strlit("");
    }
    task.command = substitute_env_var("", resolved, &task.env);
}

/// Whether `after` is `before` with the script `resolved`, substituted against
/// the task's environment, and nothing else changed.
pub open spec fn script_set(before: Task, resolved: Seq<char>, after: Task) -> bool {
    &&& after.script is Some
    &&& after.script->Some_0@ == in_task_env(before, resolved)
    &&& after == (Task { script: after.script, ..before })
}

/// Sets the task's script to `resolved` with the variables of the task's
/// environment substituted.
pub fn set_script(task: &mut Task, resolved: &str)
    ensures
        script_set(*old(task), resolved@, *final(task)),
{
    assert(""@ =~= Seq::<char>::empty()) by {
        reveal_strlit("");
    }
    task.script = Some(substitute_env_var("", resolved, &task.env));
}

/// Whether `after` is `before` with the arguments `resolved`, each substituted
/// against the task's environment, and nothing else changed.
pub open spec fn args_set(before: Task, resolved: Seq<Seq<char>>, after: Task) -> bool {
    &&& strs(after.args@) == resolved.map_values(|arg: Seq<char>| in_task_env(before, arg))
    &&& after == (Task { args: after.args, ..before })
}

/// Sets the task's arguments to `resolved`, each with the variables of the
/// task's environment substituted.
pub fn set_args(task: &mut Task, resolved: &Vec<String>)
    ensures
        args_set(*old(task), strs(resolved@), *final(task)),
{
    assert(""@ =~= Seq::<char>::empty()) by {
        reveal_strlit("");
    }
    let mut args: Vec<String> = Vec::new();
    let mut i: usize = 0;
    while i < resolved.len()
        invariant
            0 <= i <= resolved.len(),
            *task == *old(task),
            ""@ == Seq::<char>::empty(),
            args.len() == i,
            forall|j: int|
                0 <= j < i ==> (#[trigger] args[j])@ == in_task_env(*task, resolved[j]@),
        decreases resolved.len() - i,
    {
        args.push(substitute_env_var("", resolved[i].as_str(), &task.env));
        i += 1;
    }
    assert(strs(args@) =~= strs(resolved@).map_values(|arg: Seq<char>| in_task_env(*task, arg)));
    task.args = args;
}

} // verus!
