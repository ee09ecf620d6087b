//! How the two ways to evaluate a predicate relate: running the compiled
//! predicate on the stack machine, and walking the tree.

use vstd::prelude::*;
use crate::expr::{BoolExprView, ValueExprView};
use crate::opcode::OpCodeView;
use crate::value::ValueView;
use crate::vm::{lemma_run_concat, lemma_run_push, outcome, run, ProgramError, Run};

verus! {

/// The truth value that the outcome of a run stands for, if it is one.
pub open spec fn boolean_or_absent(result: Result<Option<ValueView>, ProgramError>) -> Option<
    bool,
> {
    match result {
        Ok(Some(value)) => value.as_boolean(),
        _ => None,
    }
}

/// The value that stands for a truth value that may be absent.
pub open spec fn boolean_value(truth: Option<bool>) -> Option<ValueView> {
    match truth {
        Some(b) => Some(ValueView::Bool(b)),
        None => None,
    }
}

impl BoolExprView {
    /// Whether both operands of every `And` and `Or` in the predicate have a
    /// result for `row`, so that no operand is ever skipped over an absence.
    pub open spec fn operands_defined(self, row: Map<Seq<char>, ValueView>) -> bool
        decreases self,
    {
        match self {
            BoolExprView::Not(p) => p.operands_defined(row),
            BoolExprView::And(l, r) | BoolExprView::Or(l, r) => {
                &&& l.eval(row) is Some
                &&& r.eval(row) is Some
                &&& l.operands_defined(row)
                &&& r.operands_defined(row)
            },
            _ => true,
        }
    }
}

/// The program of an expression pushes the expression's value on whatever
/// stack it starts from, and stops the run where the expression has none.
pub proof fn lemma_compiled_expression(
    expr: ValueExprView,
    stack: Seq<ValueView>,
    row: Map<Seq<char>, ValueView>,
)
    ensures
        run(expr.compile(), stack, row) == match expr.eval(row) {
            Some(value) => Run::Stack(stack.push(value)),
            None => Run::Absent,
        },
    decreases expr,
{
    match expr {
        ValueExprView::Field(name) => {
            lemma_run_push(Seq::empty(), OpCodeView::PushField(name), stack, row);
        },
        ValueExprView::Value(value) => {
            lemma_run_push(Seq::empty(), OpCodeView::PushValue(value), stack, row);
        },
        ValueExprView::Transform(transform, inner) => {
            lemma_compiled_expression(*inner, stack, row);
            lemma_run_push(inner.compile(), transform.opcode(), stack, row);
            if let Some(value) = inner.eval(row) {
                assert(stack.push(value).drop_last() =~= stack);
            }
        },
    }
}

/// The program of two expressions and a comparison pushes what the
/// comparison makes of their values, the left one as its left operand.
proof fn lemma_compiled_comparison(
    left: ValueExprView,
    right: ValueExprView,
    op: OpCodeView,
    stack: Seq<ValueView>,
    row: Map<Seq<char>, ValueView>,
)
    requires
        op.operands() == 2,
    ensures
        run((left.compile() + right.compile()).push(op), stack, row) == match (
            left.eval(row),
            right.eval(row),
        ) {
            (Some(a), Some(b)) => match op.binary(a, b) {
                Some(value) => Run::Stack(stack.push(value)),
                None => Run::Absent,
            },
            _ => Run::Absent,
        },
{
    lemma_compiled_expression(left, stack, row);
    lemma_run_concat(left.compile(), right.compile(), stack, row);
    lemma_run_push(left.compile() + right.compile(), op, stack, row);
    if let Some(a) = left.eval(row) {
        lemma_compiled_expression(right, stack.push(a), row);
        if let Some(b) = right.eval(row) {
            assert(stack.push(a).push(b).drop_last().drop_last() =~= stack);
        }
    }
}

/// The program of a predicate pushes the predicate's truth value on whatever
/// stack it starts from, where every operand has a result, and stops the run
/// where one has none: it computes `eval_strict`.
pub proof fn lemma_compiled_predicate(
    pred: BoolExprView,
    stack: Seq<ValueView>,
    row: Map<Seq<char>, ValueView>,
)
    ensures
        run(pred.compile(), stack, row) == match pred.eval_strict(row) {
            Some(b) => Run::Stack(stack.push(ValueView::Bool(b))),
            None => Run::Absent,
        },
    decreases pred,
{
    match pred {
        BoolExprView::Eq(l, r) => lemma_compiled_comparison(l, r, OpCodeView::Eq, stack, row),
        BoolExprView::Neq(l, r) => lemma_compiled_comparison(l, r, OpCodeView::Neq, stack, row),
        BoolExprView::Lt(l, r) => lemma_compiled_comparison(l, r, OpCodeView::Lt, stack, row),
        BoolExprView::Gt(l, r) => lemma_compiled_comparison(l, r, OpCodeView::Gt, stack, row),
        BoolExprView::Not(p) => {
            lemma_compiled_predicate(*p, stack, row);
            lemma_run_push(p.compile(), OpCodeView::Not, stack, row);
            if let Some(b) = p.eval_strict(row) {
                assert(stack.push(ValueView::Bool(b)).drop_last() =~= stack);
            }
        },
        BoolExprView::And(l, r) => {
            lemma_compiled_predicate(*l, stack, row);
            if let Some(a) = l.eval_strict(row) {
                lemma_compiled_predicate(*r, stack.push(ValueView::Bool(a)), row);
            }
            lemma_compiled_connective(*l, *r, OpCodeView::And, stack, row);
        },
        BoolExprView::Or(l, r) => {
            lemma_compiled_predicate(*l, stack, row);
            if let Some(a) = l.eval_strict(row) {
                lemma_compiled_predicate(*r, stack.push(ValueView::Bool(a)), row);
            }
            lemma_compiled_connective(*l, *r, OpCodeView::Or, stack, row);
        },
    }
}

/// The run that a predicate's program must give from `stack`.
spec fn predicate_run(
    pred: BoolExprView,
    stack: Seq<ValueView>,
    row: Map<Seq<char>, ValueView>,
) -> Run {
    match pred.eval_strict(row) {
        Some(b) => Run::Stack(stack.push(ValueView::Bool(b))),
        None => Run::Absent,
    }
}

/// The program of two predicates and a connective pushes what the connective
/// makes of their truth values, and stops where either has none, given that
/// the programs of the two predicates do so.
proof fn lemma_compiled_connective(
    left: BoolExprView,
    right: BoolExprView,
    op: OpCodeView,
    stack: Seq<ValueView>,
    row: Map<Seq<char>, ValueView>,
)
    requires
        op == OpCodeView::And || op == OpCodeView::Or,
        run(left.compile(), stack, row) == predicate_run(left, stack, row),
        left.eval_strict(row) matches Some(a) ==> run(
            right.compile(),
            stack.push(ValueView::Bool(a)),
            row,
        ) == predicate_run(right, stack.push(ValueView::Bool(a)), row),
    ensures
        run((left.compile() + right.compile()).push(op), stack, row) == match (
            left.eval_strict(row),
            right.eval_strict(row),
        ) {
            (Some(a), Some(b)) => Run::Stack(
                stack.push(ValueView::Bool(if op == OpCodeView::And { a && b } else { a || b })),
            ),
            _ => Run::Absent,
        },
{
    lemma_run_concat(left.compile(), right.compile(), stack, row);
    lemma_run_push(left.compile() + right.compile(), op, stack, row);
    if let (Some(a), Some(b)) = (left.eval_strict(row), right.eval_strict(row)) {
        let full = stack.push(ValueView::Bool(a)).push(ValueView::Bool(b));
        assert(full.drop_last().drop_last() =~= stack);
    }
}

/// The stack machine computes `eval_strict`: the program of a predicate,
/// run on an empty stack, gives the predicate's truth value where every
/// operand has a result, and nothing where one has none. It is never
/// malformed.
pub proof fn lemma_machine_evaluates_every_operand(
    pred: BoolExprView,
    row: Map<Seq<char>, ValueView>,
)
    ensures
        outcome(pred.compile(), row) == Ok::<Option<ValueView>, ProgramError>(
            boolean_value(pred.eval_strict(row)),
        ),
        boolean_or_absent(outcome(pred.compile(), row)) == pred.eval_strict(row),
{
    lemma_compiled_predicate(pred, Seq::empty(), row);
}

/// Where the stack machine has a result, the tree walk has the same one:
/// looking at every operand can lose a result, and cannot change it.
pub proof fn lemma_tree_walk_extends_machine(pred: BoolExprView, row: Map<Seq<char>, ValueView>)
    ensures
        pred.eval_strict(row) is Some ==> pred.eval(row) == pred.eval_strict(row),
        pred.eval(row) is None ==> pred.eval_strict(row) is None,
    decreases pred,
{
    match pred {
        BoolExprView::Not(p) => {
            lemma_tree_walk_extends_machine(*p, row);
        },
        BoolExprView::And(l, r) | BoolExprView::Or(l, r) => {
            lemma_tree_walk_extends_machine(*l, row);
            lemma_tree_walk_extends_machine(*r, row);
        },
        _ => {},
    }
}

/// The two ways to evaluate a predicate agree: where both operands of every
/// `And` and `Or` have a result, running the compiled predicate gives what
/// the tree walk gives, present or absent.
pub proof fn lemma_machine_agrees_with_tree_walk(
    pred: BoolExprView,
    row: Map<Seq<char>, ValueView>,
)
    requires
        pred.operands_defined(row),
    ensures
        boolean_or_absent(outcome(pred.compile(), row)) == pred.eval(row),
{
    lemma_machine_evaluates_every_operand(pred, row);
    lemma_operands_defined(pred, row);
}

/// Where both operands of every `And` and `Or` have a result, it makes no
/// difference whether an operand is skipped.
proof fn lemma_operands_defined(pred: BoolExprView, row: Map<Seq<char>, ValueView>)
    requires
        pred.operands_defined(row),
    ensures
        pred.eval_strict(row) == pred.eval(row),
    decreases pred,
{
    match pred {
        BoolExprView::Not(p) => {
            lemma_operands_defined(*p, row);
        },
        BoolExprView::And(l, r) | BoolExprView::Or(l, r) => {
            lemma_operands_defined(*l, row);
            lemma_operands_defined(*r, row);
        },
        _ => {},
    }
}

/// Where the two ways differ: the stack machine has run both operands by
/// the time it comes to an `And` or `Or`, so a right operand without a
/// result leaves the compiled predicate without one, though the tree walk
/// stops at the left operand and has one.
pub proof fn lemma_machine_cannot_short_circuit(
    left: BoolExprView,
    right: BoolExprView,
    row: Map<Seq<char>, ValueView>,
)
    requires
        right.eval_strict(row) is None,
    ensures
        outcome(BoolExprView::And(Box::new(left), Box::new(right)).compile(), row) == Ok::<
            Option<ValueView>,
            ProgramError,
        >(None),
        outcome(BoolExprView::Or(Box::new(left), Box::new(right)).compile(), row) == Ok::<
            Option<ValueView>,
            ProgramError,
        >(None),
        left.eval(row) == Some(false) ==> BoolExprView::And(Box::new(left), Box::new(right)).eval(
            row,
        ) == Some(false),
        left.eval(row) == Some(true) ==> BoolExprView::Or(Box::new(left), Box::new(right)).eval(
            row,
        ) == Some(true),
{
    lemma_machine_evaluates_every_operand(
        BoolExprView::And(Box::new(left), Box::new(right)),
        row,
    );
    lemma_machine_evaluates_every_operand(BoolExprView::Or(Box::new(left), Box::new(right)), row);
}

/// Compiling and evaluating depend on nothing but their arguments: equal
/// predicates compile to equal programs, and equal predicates and records
/// give equal results, by the tree walk and by the stack machine.
pub proof fn lemma_deterministic(
    pred: BoolExprView,
    again: BoolExprView,
    row: Map<Seq<char>, ValueView>,
    same_row: Map<Seq<char>, ValueView>,
)
    requires
        pred == again,
        row == same_row,
    ensures
        pred.compile() == again.compile(),
        pred.eval(row) == again.eval(same_row),
        outcome(pred.compile(), row) == outcome(again.compile(), same_row),
{
}

} // verus!
