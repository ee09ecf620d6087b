//! The engine for rows of text, where every field holds a string and a
//! predicate is simply true or false of a row.

use vstd::prelude::*;
use crate::record::Record;
use crate::transform::{lowercase, uppercase};

verus! {

/// A transform of one string into another.
#[derive(Clone, Copy, Debug, PartialEq, Eq)]
pub enum StringTransform {
    UpperCase,
    LowerCase,
}

/// An expression that gives a string for a row.
#[derive(Debug)]
pub enum StringExpr {
    /// The text of the named field.
    Field(String),
    /// A constant.
    Literal(String),
    /// A transform applied to the text of the inner expression.
    Transform(StringTransform, Box<StringExpr>),
}

/// A predicate on rows.
#[derive(Debug)]
pub enum BoolExpr {
    Eq(StringExpr, StringExpr),
    Neq(StringExpr, StringExpr),
    Not(Box<BoolExpr>),
    And(Box<BoolExpr>, Box<BoolExpr>),
}

/// What a [`StringExpr`] stands for.
pub enum StringExprView {
    Field(Seq<char>),
    Literal(Seq<char>),
    Transform(StringTransform, Box<StringExprView>),
}

/// What a [`BoolExpr`] stands for.
pub enum BoolExprView {
    Eq(StringExprView, StringExprView),
    Neq(StringExprView, StringExprView),
    Not(Box<BoolExprView>),
    And(Box<BoolExprView>, Box<BoolExprView>),
}

impl View for StringExpr {
    type V = StringExprView;

    open spec fn view(&self) -> StringExprView
        decreases self,
    {
        match self {
            StringExpr::Field(name) => StringExprView::Field(name@),
            StringExpr::Literal(text) => StringExprView::Literal(text@),
            StringExpr::Transform(transform, inner) => StringExprView::Transform(
                *transform,
                Box::new((**inner).view()),
            ),
        }
    }
}

impl View for BoolExpr {
    type V = BoolExprView;

    open spec fn view(&self) -> BoolExprView
        decreases self,
    {
        match self {
            BoolExpr::Eq(l, r) => BoolExprView::Eq(l@, r@),
            BoolExpr::Neq(l, r) => BoolExprView::Neq(l@, r@),
            BoolExpr::Not(p) => BoolExprView::Not(Box::new((**p).view())),
            BoolExpr::And(l, r) => BoolExprView::And(
                Box::new((**l).view()),
                Box::new((**r).view()),
            ),
        }
    }
}

/// The characters of a text that may be absent.
pub open spec fn option_text(text: Option<String>) -> Option<Seq<char>> {
    match text {
        Some(s) => Some(s@),
        None => None,
    }
}

impl StringTransform {
    /// The text that the transform makes of `text`.
    pub open spec fn apply(self, text: Seq<char>) -> Seq<char> {
        match self {
            StringTransform::UpperCase => uppercase(text),
            StringTransform::LowerCase => lowercase(text),
        }
    }

    /// Applies the transform to a string.
    pub fn evaluate(&self, input: String) -> (result: String)
        ensures
            result@ == self.apply(input@),
    {
        match self {
            StringTransform::UpperCase => input.as_str().to_uppercase(),
            StringTransform::LowerCase => input.as_str().to_lowercase(),
        }
    }
}

impl StringExprView {
    /// The text of the expression for `row`, or `None` where a field that it
    /// reads is not in the row.
    pub open spec fn eval(self, row: Map<Seq<char>, Seq<char>>) -> Option<Seq<char>>
        decreases self,
    {
        match self {
            StringExprView::Field(name) => if row.contains_key(name) {
                Some(row[name])
            } else {
                None
            },
            StringExprView::Literal(text) => Some(text),
            StringExprView::Transform(transform, inner) => match inner.eval(row) {
                Some(text) => Some(transform.apply(text)),
                None => None,
            },
        }
    }
}

impl BoolExprView {
    /// Whether the predicate holds of `row`. Two expressions are equal where
    /// both have the same text, and also where neither has any.
    pub open spec fn eval(self, row: Map<Seq<char>, Seq<char>>) -> bool
        decreases self,
    {
        match self {
            BoolExprView::Eq(l, r) => l.eval(row) == r.eval(row),
            BoolExprView::Neq(l, r) => l.eval(row) != r.eval(row),
            BoolExprView::Not(p) => !p.eval(row),
            BoolExprView::And(l, r) => l.eval(row) && r.eval(row),
        }
    }
}

/// Whether two texts that may be absent are the same.
fn same_text(left: &Option<String>, right: &Option<String>) -> (result: bool)
    ensures
        result == (option_text(*left) == option_text(*right)),
{
    match (left, right) {
        (Some(l), Some(r)) => *l == *r,
        (None, None) => true,
        _ => false,
    }
}

impl StringExpr {
    /// Evaluates the expression against `row`.
    pub fn evaluate(&self, row: &Record<String>) -> (result: Option<String>)
        ensures
            option_text(result) == self@.eval(row@),
        decreases self,
    {
        match self {
            StringExpr::Field(field) => match row.get(field.as_str()) {
                Some(text) => Some(text.clone()),
                None => None,
            },
            StringExpr::Literal(literal) => Some(literal.clone()),
            StringExpr::Transform(transform, expr) => Some(
                transform.evaluate(expr.evaluate(row)?),
            ),
        }
    }
}

impl BoolExpr {
    /// Evaluates the predicate against `row`.
    pub fn evaluate(&self, row: &Record<String>) -> (result: bool)
        ensures
            result == self@.eval(row@),
        decreases self,
    {
        match self {
            BoolExpr::Eq(lh, rh) => same_text(&lh.evaluate(row), &rh.evaluate(row)),
            BoolExpr::Neq(lh, rh) => !same_text(&lh.evaluate(row), &rh.evaluate(row)),
            BoolExpr::Not(expr) => !expr.evaluate(row),
            BoolExpr::And(lh, rh) => lh.evaluate(row) && rh.evaluate(row),
        }
    }
}

} // verus!
