//! Running the machine.

use vstd::prelude::*;
use crate::runtime::machine::eval::{
    on_arguments, on_assign, on_binary, on_choose, on_concat, on_eval, on_get_field, on_logical,
    on_number_check, on_set_target, on_set_value, on_unary,
};
use crate::runtime::machine::exec::{
    on_boundary, on_branch, on_call, on_define, on_discard, on_exec, on_loop, on_print,
    on_print_text, on_return, on_statements,
};
use crate::runtime::machine::frames::{lemma_frame_restored, lemma_run_keeps_outer, outer};
use crate::runtime::machine::{
    asks, goes, outcome, Action, Machine, SpecAction, SpecMachine, Stepped, Task,
};
use crate::runtime::value::{SpecValue, Value};

verus! {

/// One step of the machine: the next task is taken off and done. With no
/// task left, the program has ended well.
pub open spec fn spec_step<'a>(m: SpecMachine<'a>) -> Stepped<'a> {
    if m.tasks.len() == 0 {
        asks(m, SpecAction::Finished(Ok(())))
    } else {
        let m0 = SpecMachine { tasks: m.tasks.drop_last(), ..m };
        match m.tasks.last() {
            Task::Exec(s) => on_exec(m0, s),
            Task::Statements(list, i) => on_statements(m0, list, i),
            Task::Eval(e) => on_eval(m0, e),
            Task::Discard => on_discard(m0),
            Task::Print => on_print(m0),
            Task::PrintText => on_print_text(m0),
            Task::Define(var) => on_define(m0, var),
            Task::Branch(i) => on_branch(m0, i),
            Task::Loop(w) => on_loop(m0, w),
            Task::Restore(frame) => goes(m0.with_frame(frame)),
            Task::Return(span) => on_return(m0, span),
            Task::Boundary(restore, instance) => on_boundary(m0, restore, instance),
            Task::NumberCheck(e) => on_number_check(m0, e),
            Task::Binary(b) => on_binary(m0, b),
            Task::Logical(b) => on_logical(m0, b),
            Task::Concat => on_concat(m0, false),
            Task::ConcatReversed => on_concat(m0, true),
            Task::Unary(u) => on_unary(m0, u),
            Task::Choose(t) => on_choose(m0, t),
            Task::Assign(a) => on_assign(m0, a),
            Task::Arguments(c, i) => on_arguments(m0, c, i),
            Task::Call(c) => on_call(m0, c),
            Task::GetField(g) => on_get_field(m0, g),
            Task::SetTarget(s) => on_set_target(m0, s),
            Task::SetValue(s) => on_set_value(m0, s),
        }
    }
}

/// At most `fuel` steps of the machine: up to the first action, or `Yield`
/// when the steps are used up.
pub open spec fn spec_run<'a>(m: SpecMachine<'a>, fuel: nat) -> (SpecMachine<'a>, SpecAction)
    decreases fuel,
{
    if fuel == 0 {
        (m, SpecAction::Yield)
    } else {
        match spec_step(m) {
            (m2, Some(a)) => (m2, a),
            (m2, None) => spec_run(m2, (fuel - 1) as nat),
        }
    }
}

/// The machine after the host has handed `given` back.
pub open spec fn handed<'a>(m: SpecMachine<'a>, given: Option<SpecValue>) -> SpecMachine<'a> {
    match given {
        Some(v) => m.with_value(v),
        None => m,
    }
}

impl<'a> Machine<'a> {
    /// Does the next task. Gives the action that the machine stops with, or
    /// `None` if it can go on.
    pub fn step(&mut self) -> (r: Option<Action>)
        ensures
            (final(self)@, outcome(r)) == spec_step(old(self)@),
    {
        let ghost before = self@;
        let task = match self.tasks.pop() {
            None => {
                return Some(Action::Finished(Ok(())));
            },
            Some(t) => t,
        };
        assert(self@ == (SpecMachine { tasks: before.tasks.drop_last(), ..before }));
        match task {
            Task::Exec(s) => self.exec(s),
            Task::Statements(list, i) => self.statements(list, i),
            Task::Eval(e) => self.eval(e),
            Task::Discard => self.discard(),
            Task::Print => self.print(),
            Task::PrintText => self.print_text(),
            Task::Define(var) => self.define(var),
            Task::Branch(i) => self.branch(i),
            Task::Loop(w) => self.repeat(w),
            Task::Restore(frame) => {
                self.frame = frame;
                None
            },
            Task::Return(span) => self.leave(span),
            Task::Boundary(restore, instance) => self.boundary(restore, instance),
            Task::NumberCheck(e) => self.number_check(e),
            Task::Binary(b) => self.binary(b),
            Task::Logical(b) => self.logical(b),
            Task::Concat => self.concat(false),
            Task::ConcatReversed => self.concat(true),
            Task::Unary(u) => self.unary(u),
            Task::Choose(t) => self.pick(t),
            Task::Assign(a) => self.assign(a),
            Task::Arguments(c, i) => self.arguments(c, i),
            Task::Call(c) => self.call(c),
            Task::GetField(g) => self.get_field(g),
            Task::SetTarget(s) => self.set_target(s),
            Task::SetValue(s) => self.set_value(s),
        }
    }

    /// Runs the machine for at most `fuel` steps, after taking what the host
    /// hands back for the last action: the value that the action asked for,
    /// or nothing if it asked for none. Gives the next action.
    ///
    /// When the program has ended, well or with an error, no task is left,
    /// and the frame that was current outside of every block and call under
    /// way is the current frame again.
    #[verifier::loop_isolation(false)]
    pub fn run(&mut self, given: Option<Value>, fuel: u64) -> (r: Action)
        ensures
            (final(self)@, r@) == spec_run(
                handed(
                    old(self)@,
                    match given {
                        Some(v) => Some(v@),
                        None => None,
                    },
                ),
                fuel as nat,
            ),
            outer(final(self)@) == outer(old(self)@),
            r@ is Finished ==> final(self)@.frame == outer(old(self)@) && final(self)@.tasks.len()
                == 0,
    {
        match given {
            Some(v) => {
                self.push_value(v);
            },
            None => {},
        }
        let ghost start = self@;
        proof {
            lemma_run_keeps_outer(start, fuel as nat);
            lemma_frame_restored(start, fuel as nat);
        }
        let mut left = fuel;
        while left > 0
            invariant
                spec_run(start, fuel as nat) == spec_run(self@, left as nat),
            decreases left,
        {
            match self.step() {
                Some(action) => {
                    return action;
                },
                None => {},
            }
            left = left - 1;
        }
        Action::Yield
    }
}

} // verus!
