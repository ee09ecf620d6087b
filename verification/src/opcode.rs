//! The stack machine's opcodes, and the compiler from trees to programs.

use vstd::prelude::*;
use crate::expr::{BoolExpr, BoolExprView, ValueExpr, ValueExprView};
use crate::transform::StringTransform;
use crate::value::{Value, ValueView};

verus! {

/// One instruction of the stack machine.
///
/// A binary opcode finds its right operand on top of the stack and its left
/// operand below it.
#[derive(Debug)]
pub enum OpCode {
    Eq,
    Neq,
    Lt,
    Gt,
    Not,
    And,
    Or,
    PushField(String),
    PushValue(Value),
    UpperCase,
    LowerCase,
}

/// What an [`OpCode`] stands for.
pub enum OpCodeView {
    Eq,
    Neq,
    Lt,
    Gt,
    Not,
    And,
    Or,
    PushField(Seq<char>),
    PushValue(ValueView),
    UpperCase,
    LowerCase,
}

impl View for OpCode {
    type V = OpCodeView;

    open spec fn view(&self) -> OpCodeView {
        match self {
            OpCode::Eq => OpCodeView::Eq,
            OpCode::Neq => OpCodeView::Neq,
            OpCode::Lt => OpCodeView::Lt,
            OpCode::Gt => OpCodeView::Gt,
            OpCode::Not => OpCodeView::Not,
            OpCode::And => OpCodeView::And,
            OpCode::Or => OpCodeView::Or,
            OpCode::PushField(name) => OpCodeView::PushField(name@),
            OpCode::PushValue(value) => OpCodeView::PushValue(value@),
            OpCode::UpperCase => OpCodeView::UpperCase,
            OpCode::LowerCase => OpCodeView::LowerCase,
        }
    }
}

/// The program that a sequence of opcodes stands for.
pub open spec fn program_view(code: Seq<OpCode>) -> Seq<OpCodeView> {
    code.map_values(|op: OpCode| op@)
}

impl StringTransform {
    /// The opcode that applies the transform to the top of the stack.
    pub open spec fn opcode(self) -> OpCodeView {
        match self {
            StringTransform::UpperCase => OpCodeView::UpperCase,
            StringTransform::LowerCase => OpCodeView::LowerCase,
        }
    }
}

impl ValueExprView {
    /// The program of the expression: its operand's program, then its own
    /// opcode. It leaves the expression's value on top of the stack.
    pub open spec fn compile(self) -> Seq<OpCodeView>
        decreases self,
    {
        match self {
            ValueExprView::Field(name) => seq![OpCodeView::PushField(name)],
            ValueExprView::Value(value) => seq![OpCodeView::PushValue(value)],
            ValueExprView::Transform(transform, inner) => inner.compile().push(transform.opcode()),
        }
    }
}

impl BoolExprView {
    /// The program of the predicate: the left operand's program, the right
    /// operand's, then the predicate's own opcode. It has no branches.
    pub open spec fn compile(self) -> Seq<OpCodeView>
        decreases self,
    {
        match self {
            BoolExprView::Eq(l, r) => (l.compile() + r.compile()).push(OpCodeView::Eq),
            BoolExprView::Neq(l, r) => (l.compile() + r.compile()).push(OpCodeView::Neq),
            BoolExprView::Lt(l, r) => (l.compile() + r.compile()).push(OpCodeView::Lt),
            BoolExprView::Gt(l, r) => (l.compile() + r.compile()).push(OpCodeView::Gt),
            BoolExprView::Not(p) => p.compile().push(OpCodeView::Not),
            BoolExprView::And(l, r) => (l.compile() + r.compile()).push(OpCodeView::And),
            BoolExprView::Or(l, r) => (l.compile() + r.compile()).push(OpCodeView::Or),
        }
    }
}

/// The program of an expression has one opcode for each node of the tree.
pub proof fn lemma_expression_program_length(expr: ValueExprView)
    ensures
        expr.compile().len() == expr.node_count(),
    decreases expr,
{
    match expr {
        ValueExprView::Transform(_, inner) => {
            lemma_expression_program_length(*inner);
        },
        _ => {},
    }
}

/// The program of a predicate has one opcode for each node of the tree.
pub proof fn lemma_predicate_program_length(pred: BoolExprView)
    ensures
        pred.compile().len() == pred.node_count(),
    decreases pred,
{
    match pred {
        BoolExprView::Not(p) => {
            lemma_predicate_program_length(*p);
        },
        BoolExprView::And(l, r) | BoolExprView::Or(l, r) => {
            lemma_predicate_program_length(*l);
            lemma_predicate_program_length(*r);
        },
        BoolExprView::Eq(l, r)
        | BoolExprView::Neq(l, r)
        | BoolExprView::Lt(l, r)
        | BoolExprView::Gt(l, r) => {
            lemma_expression_program_length(l);
            lemma_expression_program_length(r);
        },
    }
}

/// Appends the program `right`, then the opcode `last`, to `code`.
fn emit(code: &mut Vec<OpCode>, right: Vec<OpCode>, last: OpCode)
    ensures
        program_view(final(code)@) == (program_view(old(code)@) + program_view(right@)).push(
            last@,
        ),
{
    let mut right = right;
    let ghost appended = right@;
    code.append(&mut right);
    code.push(last);
    assert(program_view(code@) =~= (program_view(old(code)@) + program_view(appended)).push(
        last@,
    ));
}

impl ValueExpr {
    /// Compiles the expression into a program for the stack machine: one
    /// opcode for each node of the tree.
    pub fn to_opcode(&self) -> (result: Vec<OpCode>)
        ensures
            program_view(result@) == self@.compile(),
            result.len() == self@.node_count(),
        decreases self,
    {
        let mut result = vec![];
        match self {
            ValueExpr::Field(field) => {
                result.push(OpCode::PushField(field.clone()));
            },
            ValueExpr::Value(value) => {
                result.push(OpCode::PushValue(value.clone()));
            },
            ValueExpr::Transform(StringTransform::UpperCase, expr) => {
                emit(&mut result, expr.to_opcode(), OpCode::UpperCase);
            },
            ValueExpr::Transform(StringTransform::LowerCase, expr) => {
                emit(&mut result, expr.to_opcode(), OpCode::LowerCase);
            },
        }
        proof {
            lemma_expression_program_length(self@);
        }
        result
    }
}

impl BoolExpr {
    /// Compiles the predicate into a program for the stack machine: one
    /// opcode for each node of the tree.
    pub fn to_opcode(&self) -> (result: Vec<OpCode>)
        ensures
            program_view(result@) == self@.compile(),
            result.len() == self@.node_count(),
        decreases self,
    {
        let mut result = vec![];
        match self {
            BoolExpr::Eq(lh, rh) => {
                result = lh.to_opcode();
                emit(&mut result, rh.to_opcode(), OpCode::Eq);
            },
            BoolExpr::Neq(lh, rh) => {
                result = lh.to_opcode();
                emit(&mut result, rh.to_opcode(), OpCode::Neq);
            },
            BoolExpr::Not(expr) => {
                emit(&mut result, expr.to_opcode(), OpCode::Not);
            },
            BoolExpr::And(lh, rh) => {
                result = lh.to_opcode();
                emit(&mut result, rh.to_opcode(), OpCode::And);
            },
            BoolExpr::Or(lh, rh) => {
                result = lh.to_opcode();
                emit(&mut result, rh.to_opcode(), OpCode::Or);
            },
            BoolExpr::Lt(lh, rh) => {
                result = lh.to_opcode();
                emit(&mut result, rh.to_opcode(), OpCode::Lt);
            },
            BoolExpr::Gt(lh, rh) => {
                result = lh.to_opcode();
                emit(&mut result, rh.to_opcode(), OpCode::Gt);
            },
        }
        proof {
            lemma_predicate_program_length(self@);
        }
        result
    }
}

} // verus!
