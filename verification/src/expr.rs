//! Expressions and predicates, and their direct evaluation against a record.

use vstd::prelude::*;
use crate::record::Record;
use crate::transform::StringTransform;
use crate::value::{Value, ValueView, option_view};

verus! {

/// An expression that gives a value for a record.
#[derive(Debug)]
pub enum ValueExpr {
    /// The value of the named field.
    Field(String),
    /// A constant.
    Value(Value),
    /// A transform applied to the value of the inner expression.
    Transform(StringTransform, Box<ValueExpr>),
}

/// A predicate on records.
#[derive(Debug)]
pub enum BoolExpr {
    Eq(ValueExpr, ValueExpr),
    Neq(ValueExpr, ValueExpr),
    Lt(ValueExpr, ValueExpr),
    Gt(ValueExpr, ValueExpr),
    Not(Box<BoolExpr>),
    And(Box<BoolExpr>, Box<BoolExpr>),
    Or(Box<BoolExpr>, Box<BoolExpr>),
}

/// What a [`ValueExpr`] stands for.
pub enum ValueExprView {
    Field(Seq<char>),
    Value(ValueView),
    Transform(StringTransform, Box<ValueExprView>),
}

/// What a [`BoolExpr`] stands for.
pub enum BoolExprView {
    Eq(ValueExprView, ValueExprView),
    Neq(ValueExprView, ValueExprView),
    Lt(ValueExprView, ValueExprView),
    Gt(ValueExprView, ValueExprView),
    Not(Box<BoolExprView>),
    And(Box<BoolExprView>, Box<BoolExprView>),
    Or(Box<BoolExprView>, Box<BoolExprView>),
}

impl View for ValueExpr {
    type V = ValueExprView;

    open spec fn view(&self) -> ValueExprView
        decreases self,
    {
        match self {
            ValueExpr::Field(name) => ValueExprView::Field(name@),
            ValueExpr::Value(value) => ValueExprView::Value(value@),
            ValueExpr::Transform(transform, inner) => ValueExprView::Transform(
                *transform,
                Box::new((**inner).view()),
            ),
        }
    }
}

impl View for BoolExpr {
    type V = BoolExprView;

    open spec fn view(&self) -> BoolExprView
        decreases self,
    {
        match self {
            BoolExpr::Eq(l, r) => BoolExprView::Eq(l@, r@),
            BoolExpr::Neq(l, r) => BoolExprView::Neq(l@, r@),
            BoolExpr::Lt(l, r) => BoolExprView::Lt(l@, r@),
            BoolExpr::Gt(l, r) => BoolExprView::Gt(l@, r@),
            BoolExpr::Not(p) => BoolExprView::Not(Box::new((**p).view())),
            BoolExpr::And(l, r) => BoolExprView::And(
                Box::new((**l).view()),
                Box::new((**r).view()),
            ),
            BoolExpr::Or(l, r) => BoolExprView::Or(
                Box::new((**l).view()),
                Box::new((**r).view()),
            ),
        }
    }
}

/// Whether `left` is below `right`: both must coerce to integers.
pub open spec fn less_than(left: ValueView, right: ValueView) -> Option<bool> {
    match (left.as_integer(), right.as_integer()) {
        (Some(l), Some(r)) => Some(l < r),
        _ => None,
    }
}

impl ValueExprView {
    /// The value of the expression for `row`, or `None` where it has none:
    /// a field that the record lacks, or a transform of what is not a string.
    pub open spec fn eval(self, row: Map<Seq<char>, ValueView>) -> Option<ValueView>
        decreases self,
    {
        match self {
            ValueExprView::Field(name) => if row.contains_key(name) {
                Some(row[name])
            } else {
                None
            },
            ValueExprView::Value(value) => Some(value),
            ValueExprView::Transform(transform, inner) => match inner.eval(row) {
                Some(value) => transform.transformed(value),
                None => None,
            },
        }
    }

    /// The number of nodes of the tree.
    pub open spec fn node_count(self) -> nat
        decreases self,
    {
        match self {
            ValueExprView::Field(_) => 1,
            ValueExprView::Value(_) => 1,
            ValueExprView::Transform(_, inner) => 1 + inner.node_count(),
        }
    }
}

impl BoolExprView {
    /// The truth of the predicate for `row`, or `None` where it has none.
    ///
    /// A comparison has none where an operand has no value, and an ordering
    /// also where an operand is no integer. `And` and `Or` go from left to
    /// right and stop at the operand that decides: the right one is then not
    /// looked at, and cannot make the result absent.
    pub open spec fn eval(self, row: Map<Seq<char>, ValueView>) -> Option<bool>
        decreases self,
    {
        match self {
            BoolExprView::Eq(l, r) => match (l.eval(row), r.eval(row)) {
                (Some(a), Some(b)) => Some(a.equals(b)),
                _ => None,
            },
            BoolExprView::Neq(l, r) => match (l.eval(row), r.eval(row)) {
                (Some(a), Some(b)) => Some(!a.equals(b)),
                _ => None,
            },
            BoolExprView::Lt(l, r) => match (l.eval(row), r.eval(row)) {
                (Some(a), Some(b)) => less_than(a, b),
                _ => None,
            },
            BoolExprView::Gt(l, r) => match (l.eval(row), r.eval(row)) {
                (Some(a), Some(b)) => less_than(b, a),
                _ => None,
            },
            BoolExprView::Not(p) => match p.eval(row) {
                Some(b) => Some(!b),
                None => None,
            },
            BoolExprView::And(l, r) => match l.eval(row) {
                Some(true) => r.eval(row),
                Some(false) => Some(false),
                None => None,
            },
            BoolExprView::Or(l, r) => match l.eval(row) {
                Some(true) => Some(true),
                Some(false) => r.eval(row),
                None => None,
            },
        }
    }

    /// The truth of the predicate for `row` where every operand is looked at:
    /// as `eval`, but `And` and `Or` have no result unless both operands have one.
    pub open spec fn eval_strict(self, row: Map<Seq<char>, ValueView>) -> Option<bool>
        decreases self,
    {
        match self {
            BoolExprView::Not(p) => match p.eval_strict(row) {
                Some(b) => Some(!b),
                None => None,
            },
            BoolExprView::And(l, r) => match (l.eval_strict(row), r.eval_strict(row)) {
                (Some(a), Some(b)) => Some(a && b),
                _ => None,
            },
            BoolExprView::Or(l, r) => match (l.eval_strict(row), r.eval_strict(row)) {
                (Some(a), Some(b)) => Some(a || b),
                _ => None,
            },
            _ => self.eval(row),
        }
    }

    /// The number of nodes of the tree, those of its expressions included.
    pub open spec fn node_count(self) -> nat
        decreases self,
    {
        match self {
            BoolExprView::Eq(l, r) => 1 + l.node_count() + r.node_count(),
            BoolExprView::Neq(l, r) => 1 + l.node_count() + r.node_count(),
            BoolExprView::Lt(l, r) => 1 + l.node_count() + r.node_count(),
            BoolExprView::Gt(l, r) => 1 + l.node_count() + r.node_count(),
            BoolExprView::Not(p) => 1 + p.node_count(),
            BoolExprView::And(l, r) => 1 + l.node_count() + r.node_count(),
            BoolExprView::Or(l, r) => 1 + l.node_count() + r.node_count(),
        }
    }
}

impl ValueExpr {
    /// Evaluates the expression against `row`.
    pub fn evaluate(&self, row: &Record<Value>) -> (result: Option<Value>)
        ensures
            option_view(result) == self@.eval(row@),
        decreases self,
    {
        match self {
            ValueExpr::Field(field) => match row.get(field.as_str()) {
                Some(value) => Some(value.clone()),
                None => None,
            },
            ValueExpr::Value(value) => Some(value.clone()),
            ValueExpr::Transform(transform, expr) => transform.evaluate(expr.evaluate(row)?),
        }
    }
}

impl BoolExpr {
    /// Evaluates the predicate against `row`, from left to right.
    pub fn evaluate(&self, row: &Record<Value>) -> (result: Option<bool>)
        ensures
            result == self@.eval(row@),
        decreases self,
    {
        match self {
            BoolExpr::Eq(lh, rh) => {
                let left = lh.evaluate(row)?;
                let right = rh.evaluate(row)?;
                Some(left == right)
            },
            BoolExpr::Neq(lh, rh) => {
                let left = lh.evaluate(row)?;
                let right = rh.evaluate(row)?;
                Some(left != right)
            },
            BoolExpr::Not(expr) => Some(!expr.evaluate(row)?),
            BoolExpr::And(lh, rh) => Some(lh.evaluate(row)? && rh.evaluate(row)?),
            BoolExpr::Or(lh, rh) => Some(lh.evaluate(row)? || rh.evaluate(row)?),
            BoolExpr::Lt(lh, rh) => {
                let fst = lh.evaluate(row)?.as_i64()?;
                let snd = rh.evaluate(row)?.as_i64()?;
                Some(fst < snd)
            },
            BoolExpr::Gt(lh, rh) => {
                let fst = lh.evaluate(row)?.as_i64()?;
                let snd = rh.evaluate(row)?.as_i64()?;
                Some(fst > snd)
            },
        }
    }
}

/// `And` stops at a false left operand and `Or` at a true one: the result
/// is then that of the left operand, whatever the right operand is, also
/// where the right operand has no result.
pub proof fn lemma_short_circuit(
    left: BoolExprView,
    right: BoolExprView,
    row: Map<Seq<char>, ValueView>,
)
    ensures
        left.eval(row) == Some(false) ==> BoolExprView::And(Box::new(left), Box::new(right)).eval(
            row,
        ) == Some(false),
        left.eval(row) == Some(true) ==> BoolExprView::Or(Box::new(left), Box::new(right)).eval(
            row,
        ) == Some(true),
{
}

/// Absence propagates: a predicate has no result where an operand that it
/// looks at has none. A comparison looks at both its operands, `Not` at its
/// one, `And` and `Or` always at the left one.
pub proof fn lemma_absence_propagates(
    left: ValueExprView,
    right: ValueExprView,
    pred: BoolExprView,
    other: BoolExprView,
    row: Map<Seq<char>, ValueView>,
)
    ensures
        left.eval(row) is None || right.eval(row) is None ==> {
            &&& BoolExprView::Eq(left, right).eval(row) is None
            &&& BoolExprView::Neq(left, right).eval(row) is None
            &&& BoolExprView::Lt(left, right).eval(row) is None
            &&& BoolExprView::Gt(left, right).eval(row) is None
        },
        pred.eval(row) is None ==> {
            &&& BoolExprView::Not(Box::new(pred)).eval(row) is None
            &&& BoolExprView::And(Box::new(pred), Box::new(other)).eval(row) is None
            &&& BoolExprView::Or(Box::new(pred), Box::new(other)).eval(row) is None
        },
        left.eval(row) is None ==> {
            &&& ValueExprView::Transform(StringTransform::UpperCase, Box::new(left)).eval(row)
                is None
            &&& ValueExprView::Transform(StringTransform::LowerCase, Box::new(left)).eval(row)
                is None
        },
{
}

/// Orderings are those of the integers: where both operands coerce to
/// integers, `Lt` holds where the left one is below the right one, and `Gt`
/// where it is above; where an operand does not coerce, neither has a result.
pub proof fn lemma_ordering(
    left: ValueExprView,
    right: ValueExprView,
    row: Map<Seq<char>, ValueView>,
)
    requires
        left.eval(row) is Some,
        right.eval(row) is Some,
    ensures
        ({
            let l = left.eval(row)->0.as_integer();
            let r = right.eval(row)->0.as_integer();
            if l is Some && r is Some {
                &&& BoolExprView::Lt(left, right).eval(row) == Some(l->0 < r->0)
                &&& BoolExprView::Gt(left, right).eval(row) == Some(l->0 > r->0)
            } else {
                &&& BoolExprView::Lt(left, right).eval(row) is None
                &&& BoolExprView::Gt(left, right).eval(row) is None
            }
        }),
{
}

} // verus!
