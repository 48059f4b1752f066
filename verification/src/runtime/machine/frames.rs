//! The frame that is current outside of every block and call under way
//! stays the same while the machine runs, so that it is the current frame
//! again when the program has ended, well or with an error.

use vstd::prelude::*;
use crate::ast::expr::{Assign, BinaryExpr, Expr, FnCall, Get, SetField, Ternary, UnaryExpr};
use crate::ast::ident::Variable;
use crate::ast::stmt::{If, Statement, While};
use crate::runtime::error::SpecRuntimeError;
use crate::runtime::machine::eval::{
    on_arguments, on_assign, on_binary, on_choose, on_concat, on_eval, on_get_field, on_logical,
    on_number_check, on_set_target, on_set_value, on_unary,
};
use crate::runtime::machine::exec::{
    boundary_at, on_boundary, on_branch, on_call, on_define, on_discard, on_exec, on_loop,
    on_print, on_print_text, on_return, on_statements,
};
use crate::runtime::machine::run::{spec_run, spec_step};
use crate::runtime::machine::{fails, outer_frame, SpecAction, SpecMachine, Task};
use crate::runtime::value::FrameId;
use crate::span::Span;

verus! {

/// The frame that is current outside of every block and call that the
/// machine has yet to leave.
pub open spec fn outer<'a>(m: SpecMachine<'a>) -> Option<FrameId> {
    outer_frame(m.tasks, 0, m.frame)
}

/// The frame that a task makes current again, if it ends a block or a call.
pub open spec fn held<'a>(t: Task<'a>, frame: Option<FrameId>) -> Option<FrameId> {
    match t {
        Task::Restore(f) => f,
        Task::Boundary(f, _) => f,
        _ => frame,
    }
}

/// With one more task to do first, the outer frame is that of the tasks
/// before, where the current frame is the one that the new task holds, if
/// it holds one.
pub proof fn lemma_outer_from<'a>(tasks: Seq<Task<'a>>, t: Task<'a>, frame: Option<FrameId>, i: int)
    requires
        0 <= i <= tasks.len(),
    ensures
        outer_frame(tasks.push(t), i, frame) == outer_frame(tasks, i, held(t, frame)),
    decreases tasks.len() - i,
{
    let more = tasks.push(t);
    if i < tasks.len() {
        assert(more[i] == tasks[i]);
        lemma_outer_from(tasks, t, frame, i + 1);
    } else {
        assert(more[i] == t);
        assert(outer_frame(more, i + 1, frame) == frame);
        assert(outer_frame(tasks, i, held(t, frame)) == held(t, frame));
    }
}

/// With one more task to do first, the outer frame is that of the tasks
/// before, where the current frame is the one that the new task holds, if
/// it holds one.
pub broadcast proof fn lemma_outer_push<'a>(tasks: Seq<Task<'a>>, t: Task<'a>, frame: Option<FrameId>)
    ensures
        #[trigger] outer_frame(tasks.push(t), 0, frame) == outer_frame(tasks, 0, held(t, frame)),
{
    lemma_outer_from(tasks, t, frame, 0);
}

/// With no task, the outer frame is the current one.
pub broadcast proof fn lemma_outer_empty<'a>(frame: Option<FrameId>)
    ensures
        #[trigger] outer_frame(Seq::<Task<'a>>::empty(), 0, frame) == frame,
{
}

/// The tasks below the boundary of a call have the outer frame of all the
/// tasks, where the current frame is the one that the boundary holds.
pub proof fn lemma_outer_take<'a>(tasks: Seq<Task<'a>>, k: int, frame: Option<FrameId>, i: int)
    requires
        0 <= i <= k < tasks.len(),
        tasks[k] is Boundary || tasks[k] is Restore,
    ensures
        outer_frame(tasks, i, frame) == outer_frame(tasks.take(k), i, held(tasks[k], frame)),
    decreases k - i,
{
    if i < k {
        assert(tasks.take(k)[i] == tasks[i]);
        lemma_outer_take(tasks, k, frame, i + 1);
    }
}

/// Ending the program with an error keeps the outer frame, which is then
/// the current one.
pub proof fn lemma_fails<'a>(m: SpecMachine<'a>, e: SpecRuntimeError)
    ensures
        outer(fails(m, e).0) == outer(m),
        fails(m, e).0.frame == outer(m),
{
}

/// The step keeps the outer frame, and leaves nothing to do if it ends the
/// program.
pub proof fn lemma_on_eval<'a>(m: SpecMachine<'a>, e: &'a Expr)
    ensures
        outer(on_eval(m, e).0) == outer(m),
        on_eval(m, e).1 matches Some(SpecAction::Finished(_)) ==> on_eval(m, e).0.tasks.len() == 0,
{
    reveal(on_eval);
    broadcast use lemma_outer_push, lemma_outer_empty;
}

/// The step keeps the outer frame, and leaves nothing to do if it ends the
/// program.
pub proof fn lemma_on_unary<'a>(m: SpecMachine<'a>, u: &'a UnaryExpr)
    ensures
        outer(on_unary(m, u).0) == outer(m),
        on_unary(m, u).1 matches Some(SpecAction::Finished(_)) ==> on_unary(m, u).0.tasks.len() == 0,
{
    reveal(on_unary);
    broadcast use lemma_outer_push, lemma_outer_empty;
}

/// The step keeps the outer frame, and leaves nothing to do if it ends the
/// program.
pub proof fn lemma_on_number_check<'a>(m: SpecMachine<'a>, e: &'a Expr)
    ensures
        outer(on_number_check(m, e).0) == outer(m),
        on_number_check(m, e).1 matches Some(SpecAction::Finished(_)) ==> on_number_check(m, e).0.tasks.len() == 0,
{
    reveal(on_number_check);
    broadcast use lemma_outer_push, lemma_outer_empty;
}

/// The step keeps the outer frame, and leaves nothing to do if it ends the
/// program.
pub proof fn lemma_on_binary<'a>(m: SpecMachine<'a>, b: &'a BinaryExpr)
    ensures
        outer(on_binary(m, b).0) == outer(m),
        on_binary(m, b).1 matches Some(SpecAction::Finished(_)) ==> on_binary(m, b).0.tasks.len() == 0,
{
    reveal(on_binary);
    broadcast use lemma_outer_push, lemma_outer_empty;
}

/// The step keeps the outer frame, and leaves nothing to do if it ends the
/// program.
pub proof fn lemma_on_concat<'a>(m: SpecMachine<'a>, reversed: bool)
    ensures
        outer(on_concat(m, reversed).0) == outer(m),
        on_concat(m, reversed).1 matches Some(SpecAction::Finished(_)) ==> on_concat(m, reversed).0.tasks.len() == 0,
{
    reveal(on_concat);
    broadcast use lemma_outer_push, lemma_outer_empty;
}

/// The step keeps the outer frame, and leaves nothing to do if it ends the
/// program.
pub proof fn lemma_on_logical<'a>(m: SpecMachine<'a>, b: &'a BinaryExpr)
    ensures
        outer(on_logical(m, b).0) == outer(m),
        on_logical(m, b).1 matches Some(SpecAction::Finished(_)) ==> on_logical(m, b).0.tasks.len() == 0,
{
    reveal(on_logical);
    broadcast use lemma_outer_push, lemma_outer_empty;
}

/// The step keeps the outer frame, and leaves nothing to do if it ends the
/// program.
pub proof fn lemma_on_choose<'a>(m: SpecMachine<'a>, t: &'a Ternary)
    ensures
        outer(on_choose(m, t).0) == outer(m),
        on_choose(m, t).1 matches Some(SpecAction::Finished(_)) ==> on_choose(m, t).0.tasks.len() == 0,
{
    reveal(on_choose);
    broadcast use lemma_outer_push, lemma_outer_empty;
}

/// The step keeps the outer frame, and leaves nothing to do if it ends the
/// program.
pub proof fn lemma_on_assign<'a>(m: SpecMachine<'a>, a: &'a Assign)
    ensures
        outer(on_assign(m, a).0) == outer(m),
        on_assign(m, a).1 matches Some(SpecAction::Finished(_)) ==> on_assign(m, a).0.tasks.len() == 0,
{
    reveal(on_assign);
    broadcast use lemma_outer_push, lemma_outer_empty;
}

/// The step keeps the outer frame, and leaves nothing to do if it ends the
/// program.
pub proof fn lemma_on_arguments<'a>(m: SpecMachine<'a>, c: &'a FnCall, i: usize)
    ensures
        outer(on_arguments(m, c, i).0) == outer(m),
        on_arguments(m, c, i).1 matches Some(SpecAction::Finished(_)) ==> on_arguments(m, c, i).0.tasks.len() == 0,
{
    reveal(on_arguments);
    broadcast use lemma_outer_push, lemma_outer_empty;
}

/// The step keeps the outer frame, and leaves nothing to do if it ends the
/// program.
pub proof fn lemma_on_get_field<'a>(m: SpecMachine<'a>, g: &'a Get)
    ensures
        outer(on_get_field(m, g).0) == outer(m),
        on_get_field(m, g).1 matches Some(SpecAction::Finished(_)) ==> on_get_field(m, g).0.tasks.len() == 0,
{
    reveal(on_get_field);
    broadcast use lemma_outer_push, lemma_outer_empty;
}

/// The step keeps the outer frame, and leaves nothing to do if it ends the
/// program.
pub proof fn lemma_on_set_target<'a>(m: SpecMachine<'a>, s: &'a SetField)
    ensures
        outer(on_set_target(m, s).0) == outer(m),
        on_set_target(m, s).1 matches Some(SpecAction::Finished(_)) ==> on_set_target(m, s).0.tasks.len() == 0,
{
    reveal(on_set_target);
    broadcast use lemma_outer_push, lemma_outer_empty;
}

/// The step keeps the outer frame, and leaves nothing to do if it ends the
/// program.
pub proof fn lemma_on_set_value<'a>(m: SpecMachine<'a>, s: &'a SetField)
    ensures
        outer(on_set_value(m, s).0) == outer(m),
        on_set_value(m, s).1 matches Some(SpecAction::Finished(_)) ==> on_set_value(m, s).0.tasks.len() == 0,
{
    reveal(on_set_value);
    broadcast use lemma_outer_push, lemma_outer_empty;
}

/// The step keeps the outer frame, and leaves nothing to do if it ends the
/// program.
pub proof fn lemma_on_exec<'a>(m: SpecMachine<'a>, s: &'a Statement)
    ensures
        outer(on_exec(m, s).0) == outer(m),
        on_exec(m, s).1 matches Some(SpecAction::Finished(_)) ==> on_exec(m, s).0.tasks.len() == 0,
{
    reveal(on_exec);
    broadcast use lemma_outer_push, lemma_outer_empty;
}

/// The step keeps the outer frame, and leaves nothing to do if it ends the
/// program.
pub proof fn lemma_on_statements<'a>(m: SpecMachine<'a>, list: &'a Vec<Statement>, i: usize)
    ensures
        outer(on_statements(m, list, i).0) == outer(m),
        on_statements(m, list, i).1 matches Some(SpecAction::Finished(_)) ==> on_statements(m, list, i).0.tasks.len() == 0,
{
    reveal(on_statements);
    broadcast use lemma_outer_push, lemma_outer_empty;
}

/// The step keeps the outer frame, and leaves nothing to do if it ends the
/// program.
pub proof fn lemma_on_define<'a>(m: SpecMachine<'a>, var: &'a Variable)
    ensures
        outer(on_define(m, var).0) == outer(m),
        on_define(m, var).1 matches Some(SpecAction::Finished(_)) ==> on_define(m, var).0.tasks.len() == 0,
{
    reveal(on_define);
    broadcast use lemma_outer_push, lemma_outer_empty;
}

/// The step keeps the outer frame, and leaves nothing to do if it ends the
/// program.
pub proof fn lemma_on_discard<'a>(m: SpecMachine<'a>)
    ensures
        outer(on_discard(m).0) == outer(m),
        on_discard(m).1 matches Some(SpecAction::Finished(_)) ==> on_discard(m).0.tasks.len() == 0,
{
    reveal(on_discard);
    broadcast use lemma_outer_push, lemma_outer_empty;
}

/// The step keeps the outer frame, and leaves nothing to do if it ends the
/// program.
pub proof fn lemma_on_print<'a>(m: SpecMachine<'a>)
    ensures
        outer(on_print(m).0) == outer(m),
        on_print(m).1 matches Some(SpecAction::Finished(_)) ==> on_print(m).0.tasks.len() == 0,
{
    reveal(on_print);
    broadcast use lemma_outer_push, lemma_outer_empty;
}

/// The step keeps the outer frame, and leaves nothing to do if it ends the
/// program.
pub proof fn lemma_on_print_text<'a>(m: SpecMachine<'a>)
    ensures
        outer(on_print_text(m).0) == outer(m),
        on_print_text(m).1 matches Some(SpecAction::Finished(_)) ==> on_print_text(m).0.tasks.len() == 0,
{
    reveal(on_print_text);
    broadcast use lemma_outer_push, lemma_outer_empty;
}

/// The step keeps the outer frame, and leaves nothing to do if it ends the
/// program.
pub proof fn lemma_on_branch<'a>(m: SpecMachine<'a>, i: &'a If)
    ensures
        outer(on_branch(m, i).0) == outer(m),
        on_branch(m, i).1 matches Some(SpecAction::Finished(_)) ==> on_branch(m, i).0.tasks.len() == 0,
{
    reveal(on_branch);
    broadcast use lemma_outer_push, lemma_outer_empty;
}

/// The step keeps the outer frame, and leaves nothing to do if it ends the
/// program.
pub proof fn lemma_on_loop<'a>(m: SpecMachine<'a>, w: &'a While)
    ensures
        outer(on_loop(m, w).0) == outer(m),
        on_loop(m, w).1 matches Some(SpecAction::Finished(_)) ==> on_loop(m, w).0.tasks.len() == 0,
{
    reveal(on_loop);
    broadcast use lemma_outer_push, lemma_outer_empty;
}

/// The step keeps the outer frame, and leaves nothing to do if it ends the
/// program.
pub proof fn lemma_on_return<'a>(m: SpecMachine<'a>, span: Span)
    ensures
        outer(on_return(m, span).0) == outer(m),
        on_return(m, span).1 matches Some(SpecAction::Finished(_)) ==> on_return(m, span).0.tasks.len() == 0,
{
    reveal(on_return);
    broadcast use lemma_outer_push, lemma_outer_empty;
    match boundary_at(m.tasks, m.tasks.len()) {
        Some(k) => {
            lemma_boundary_at(m.tasks, m.tasks.len());
            lemma_outer_take(m.tasks, k as int, m.frame, 0);
        },
        None => {},
    }
}

/// The place that is given for the last boundary holds a boundary.
pub proof fn lemma_boundary_at<'a>(tasks: Seq<Task<'a>>, n: nat)
    requires
        n <= tasks.len(),
    ensures
        boundary_at(tasks, n) matches Some(k) ==> k < n && tasks[k as int] is Boundary,
    decreases n,
{
    if n > 0 && !(tasks[n - 1] is Boundary) {
        lemma_boundary_at(tasks, (n - 1) as nat);
    }
}

/// The step keeps the outer frame, and leaves nothing to do if it ends the
/// program.
pub proof fn lemma_on_call<'a>(m: SpecMachine<'a>, c: &'a FnCall)
    ensures
        outer(on_call(m, c).0) == outer(m),
        on_call(m, c).1 matches Some(SpecAction::Finished(_)) ==> on_call(m, c).0.tasks.len() == 0,
{
    reveal(on_call);
    broadcast use lemma_outer_push, lemma_outer_empty;
}

/// A step keeps the outer frame, and leaves no task if it ends the program.
pub proof fn lemma_step_keeps_outer<'a>(m: SpecMachine<'a>)
    ensures
        outer(spec_step(m).0) == outer(m),
        spec_step(m).1 matches Some(SpecAction::Finished(_)) ==> spec_step(m).0.tasks.len() == 0,
{
    if m.tasks.len() > 0 {
        let m0 = SpecMachine { tasks: m.tasks.drop_last(), ..m };
        let t = m.tasks.last();
        assert(m.tasks =~= m0.tasks.push(t));
        lemma_outer_from(m0.tasks, t, m.frame, 0);
        match t {
            Task::Exec(s) => lemma_on_exec(m0, s),
            Task::Statements(list, i) => lemma_on_statements(m0, list, i),
            Task::Eval(e) => lemma_on_eval(m0, e),
            Task::Discard => lemma_on_discard(m0),
            Task::Print => lemma_on_print(m0),
            Task::PrintText => lemma_on_print_text(m0),
            Task::Define(var) => lemma_on_define(m0, var),
            Task::Branch(i) => lemma_on_branch(m0, i),
            Task::Loop(w) => lemma_on_loop(m0, w),
            Task::Restore(frame) => {},
            Task::Return(span) => lemma_on_return(m0, span),
            Task::Boundary(restore, instance) => {
                reveal(on_boundary);
            },
            Task::NumberCheck(e) => lemma_on_number_check(m0, e),
            Task::Binary(b) => lemma_on_binary(m0, b),
            Task::Logical(b) => lemma_on_logical(m0, b),
            Task::Concat => lemma_on_concat(m0, false),
            Task::ConcatReversed => lemma_on_concat(m0, true),
            Task::Unary(u) => lemma_on_unary(m0, u),
            Task::Choose(t) => lemma_on_choose(m0, t),
            Task::Assign(a) => lemma_on_assign(m0, a),
            Task::Arguments(c, i) => lemma_on_arguments(m0, c, i),
            Task::Call(c) => lemma_on_call(m0, c),
            Task::GetField(g) => lemma_on_get_field(m0, g),
            Task::SetTarget(s) => lemma_on_set_target(m0, s),
            Task::SetValue(s) => lemma_on_set_value(m0, s),
        }
    }
}

/// A run keeps the outer frame.
pub proof fn lemma_run_keeps_outer<'a>(m: SpecMachine<'a>, fuel: nat)
    ensures
        outer(spec_run(m, fuel).0) == outer(m),
    decreases fuel,
{
    if fuel > 0 {
        lemma_step_keeps_outer(m);
        match spec_step(m) {
            (m2, Some(a)) => {},
            (m2, None) => {
                lemma_run_keeps_outer(m2, (fuel - 1) as nat);
            },
        }
    }
}

/// When a run has ended the program, well or with an error, the frame that
/// was current outside of every block and call under way before the run is
/// the current frame: every block and every call has been left, and each
/// has made the frame current again that was current where it was entered.
pub proof fn lemma_frame_restored<'a>(m: SpecMachine<'a>, fuel: nat)
    ensures
        spec_run(m, fuel).1 is Finished ==> spec_run(m, fuel).0.frame == outer(m)
            && spec_run(m, fuel).0.tasks.len() == 0,
    decreases fuel,
{
    lemma_run_keeps_outer(m, fuel);
    lemma_finished_is_done(m, fuel);
}

/// A run that has ended the program has left no task.
pub proof fn lemma_finished_is_done<'a>(m: SpecMachine<'a>, fuel: nat)
    ensures
        spec_run(m, fuel).1 is Finished ==> spec_run(m, fuel).0.tasks.len() == 0,
    decreases fuel,
{
    if fuel > 0 {
        match spec_step(m) {
            (m2, Some(a)) => {
                lemma_step_keeps_outer(m);
            },
            (m2, None) => {
                lemma_finished_is_done(m2, (fuel - 1) as nat);
            },
        }
    }
}

} // verus!
