//! The whole expansion of a task: its steps, one after the other.

use crate::env_file::EnvFile;
use crate::error::TasksExpanderError;
use crate::expander::{TasksExpander, TokenExpander};
use crate::task::{Project, Task};
use vstd::prelude::*;

verus! {

impl<
    'graph,
    'query,
    Q: Fn(String) -> Result<Vec<&'query Project>, String>,
    T: TokenExpander,
> TasksExpander<'graph, Q, T> {
    /// Whether the `k`-th step of the expansion takes `before` to `after` with the
    /// result `r`. The steps are, in order: the command, the script, the
    /// arguments, the dependencies, the environment, the inputs and the outputs.
    /// A task without a script passes the second step unchanged.
    pub open spec fn step(
        &self,
        k: int,
        before: Task,
        files: Seq<EnvFile>,
        after: Task,
        r: Result<(), TasksExpanderError>,
    ) -> bool {
        if k == 0 {
            self.command_expanded(before, after, r)
        } else if k == 1 {
            if before.script is Some {
                self.script_expanded(before, after, r)
            } else {
                r is Ok && after == before
            }
        } else if k == 2 {
            self.args_expanded(before, after, r)
        } else if k == 3 {
            self.deps_expanded(before, after, r)
        } else if k == 4 {
            self.env_expanded(before, files, after, r)
        } else if k == 5 {
            self.inputs_expanded(before, after, r)
        } else {
            self.outputs_expanded(before, after, r)
        }
    }

    /// Whether the expansion ran as `states` and `done` say: `states[k]` is the
    /// task before the `k`-th step, the first `done` steps succeeded, and either
    /// all seven steps are done and `after` is what the last one left, or the
    /// next step failed with `r` and left `after`.
    pub open spec fn ran(
        &self,
        states: Seq<Task>,
        done: int,
        before: Task,
        files: Seq<EnvFile>,
        after: Task,
        r: Result<(), TasksExpanderError>,
    ) -> bool {
        &&& states.len() == 8
        &&& states[0] == before
        &&& 0 <= done <= 7
        &&& forall|k: int|
            0 <= k < done ==> #[trigger] self.step(k, states[k], files, states[k + 1], Ok(()))
        &&& if done == 7 {
            r is Ok && after == states[7]
        } else {
            r is Err && self.step(done, states[done], files, after, r)
        }
    }

    /// Whether `after` is `before` expanded, as `r` reports: the steps ran in
    /// order, each on what the one before it left, up to the first that failed.
    pub open spec fn expanded(
        &self,
        before: Task,
        files: Seq<EnvFile>,
        after: Task,
        r: Result<(), TasksExpanderError>,
    ) -> bool {
        exists|states: Seq<Task>, done: int| #[trigger]
            self.ran(states, done, before, files, after, r)
    }

    /// Expands the task: its command, its script if it has one, its arguments,
    /// its dependencies, its environment, its inputs and its outputs, in this
    /// order. The first step that fails ends the expansion with its error; what
    /// the steps before it did stays. `files` lists the files at
    /// [`Self::env_file_paths`] as they were found, as for [`Self::expand_env`].
    pub fn expand(&self, task: &mut Task, files: Vec<EnvFile>) -> (r: Result<
        (),
        TasksExpanderError,
    >)
        requires
            self.query_ready(),
        ensures
            self.expanded(*old(task), files@, *final(task), r),
    {
        let ghost all = files@;
        let ghost t0 = *task;
        let r = self.expand_command(task);
        if r.is_err() {
            proof {
                let states = Seq::new(8, |i: int| t0);
                assert(self.ran(states, 0, t0, all, *task, r));
            }
            return r;
        }
        let ghost t1 = *task;
        let r = if task.script.is_some() {
            self.expand_script(task)
        } else {
            Ok(())
        };
        if r.is_err() {
            proof {
                let states = Seq::new(8, |i: int| if i == 0 { t0 } else { t1 });
                assert(self.ran(states, 1, t0, all, *task, r));
            }
            return r;
        }
        let ghost t2 = *task;
        let r = self.expand_args(task);
        if r.is_err() {
            proof {
                let states = Seq::new(
                    8,
                    |i: int|
                        if i == 0 {
                            t0
                        } else if i == 1 {
                            t1
                        } else {
                            t2
                        },
                );
                assert(self.ran(states, 2, t0, all, *task, r));
            }
            return r;
        }
        let ghost t3 = *task;
        let r = self.expand_deps(task);
        if r.is_err() {
            proof {
                let states = seq![t0, t1, t2, t3, t3, t3, t3, t3];
                assert(self.ran(states, 3, t0, all, *task, r));
            }
            return r;
        }
        let ghost t4 = *task;
        let r = self.expand_env(task, files);
        if r.is_err() {
            proof {
                let states = seq![t0, t1, t2, t3, t4, t4, t4, t4];
                assert(self.ran(states, 4, t0, all, *task, r));
            }
            return r;
        }
        let ghost t5 = *task;
        let r = self.expand_inputs(task);
        if r.is_err() {
            proof {
                let states = seq![t0, t1, t2, t3, t4, t5, t5, t5];
                assert(self.ran(states, 5, t0, all, *task, r));
            }
            return r;
        }
        let ghost t6 = *task;
        let r = self.expand_outputs(task);
        if r.is_err() {
            proof {
                let states = seq![t0, t1, t2, t3, t4, t5, t6, t6];
                assert(self.ran(states, 6, t0, all, *task, r));
            }
            return r;
        }
        proof {
            let states = seq![t0, t1, t2, t3, t4, t5, t6, *task];
            assert(self.ran(states, 7, t0, all, *task, r));
        }
        r
    }
}

} // verus!
