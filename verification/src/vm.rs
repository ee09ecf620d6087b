//! The stack machine that runs compiled programs.

use vstd::prelude::*;
use crate::opcode::{OpCode, OpCodeView, program_view};
use crate::record::Record;
use crate::transform::StringTransform;
use crate::value::{Value, ValueView, option_view};
use crate::expr::less_than;

verus! {

/// Why a program is malformed: no compiled predicate is.
#[derive(Clone, Copy, Debug, PartialEq, Eq)]
pub enum ProgramError {
    /// An opcode found fewer values on the stack than it pops.
    StackUnderflow,
    /// The program ended with no value on the stack, or with more than one.
    UnbalancedStack,
}

/// Where a run stands after some opcodes.
pub enum Run {
    /// Every opcode so far had a result; the stack holds these values, the
    /// last one on top.
    Stack(Seq<ValueView>),
    /// An opcode had no result for its operands, and the run stopped there.
    Absent,
    /// An opcode found too few operands, and the run stopped there.
    Underflow,
}

/// The views of the values on a stack.
pub open spec fn values_view(stack: Seq<Value>) -> Seq<ValueView> {
    stack.map_values(|v: Value| v@)
}

impl OpCodeView {
    /// The number of values that the opcode pops.
    pub open spec fn operands(self) -> nat {
        match self {
            OpCodeView::PushField(_) | OpCodeView::PushValue(_) => 0,
            OpCodeView::Not | OpCodeView::UpperCase | OpCodeView::LowerCase => 1,
            _ => 2,
        }
    }

    /// What an opcode with one operand makes of it, or `None` where the
    /// operand is of the wrong kind.
    pub open spec fn unary(self, operand: ValueView) -> Option<ValueView> {
        match self {
            OpCodeView::Not => match operand.as_boolean() {
                Some(b) => Some(ValueView::Bool(!b)),
                None => None,
            },
            OpCodeView::UpperCase => StringTransform::UpperCase.transformed(operand),
            OpCodeView::LowerCase => StringTransform::LowerCase.transformed(operand),
            _ => None,
        }
    }

    /// What an opcode with two operands makes of them, or `None` where an
    /// operand is of the wrong kind.
    pub open spec fn binary(self, left: ValueView, right: ValueView) -> Option<ValueView> {
        match self {
            OpCodeView::Eq => Some(ValueView::Bool(left.equals(right))),
            OpCodeView::Neq => Some(ValueView::Bool(!left.equals(right))),
            OpCodeView::Lt => match less_than(left, right) {
                Some(b) => Some(ValueView::Bool(b)),
                None => None,
            },
            OpCodeView::Gt => match less_than(right, left) {
                Some(b) => Some(ValueView::Bool(b)),
                None => None,
            },
            OpCodeView::And => match (left.as_boolean(), right.as_boolean()) {
                (Some(a), Some(b)) => Some(ValueView::Bool(a && b)),
                _ => None,
            },
            OpCodeView::Or => match (left.as_boolean(), right.as_boolean()) {
                (Some(a), Some(b)) => Some(ValueView::Bool(a || b)),
                _ => None,
            },
            _ => None,
        }
    }

    /// One opcode on `stack`: its operands are popped, the right one first,
    /// and its result is pushed.
    pub open spec fn step(self, stack: Seq<ValueView>, row: Map<Seq<char>, ValueView>) -> Run {
        if stack.len() < self.operands() {
            Run::Underflow
        } else {
            match self {
                OpCodeView::PushField(name) => if row.contains_key(name) {
                    Run::Stack(stack.push(row[name]))
                } else {
                    Run::Absent
                },
                OpCodeView::PushValue(value) => Run::Stack(stack.push(value)),
                OpCodeView::Not | OpCodeView::UpperCase | OpCodeView::LowerCase => match self.unary(
                    stack.last(),
                ) {
                    Some(value) => Run::Stack(stack.drop_last().push(value)),
                    None => Run::Absent,
                },
                _ => match self.binary(stack[stack.len() - 2], stack.last()) {
                    Some(value) => Run::Stack(stack.drop_last().drop_last().push(value)),
                    None => Run::Absent,
                },
            }
        }
    }
}

/// The opcodes of `code` in turn, from `stack`, up to the first that stops the run.
pub open spec fn run(
    code: Seq<OpCodeView>,
    stack: Seq<ValueView>,
    row: Map<Seq<char>, ValueView>,
) -> Run
    decreases code.len(),
{
    if code.len() == 0 {
        Run::Stack(stack)
    } else {
        match code[0].step(stack, row) {
            Run::Stack(next) => run(code.skip(1), next, row),
            stopped => stopped,
        }
    }
}

/// What running `code` on an empty stack gives for `row`: the one value left
/// on the stack; nothing, where an opcode had no result; or the reason why
/// the program is malformed.
pub open spec fn outcome(code: Seq<OpCodeView>, row: Map<Seq<char>, ValueView>) -> Result<
    Option<ValueView>,
    ProgramError,
> {
    match run(code, Seq::empty(), row) {
        Run::Stack(stack) => if stack.len() == 1 {
            Ok(Some(stack[0]))
        } else {
            Err(ProgramError::UnbalancedStack)
        },
        Run::Absent => Ok(None),
        Run::Underflow => Err(ProgramError::StackUnderflow),
    }
}

/// The view of what `execute` returns.
pub open spec fn outcome_view(result: Result<Option<Value>, ProgramError>) -> Result<
    Option<ValueView>,
    ProgramError,
> {
    match result {
        Ok(value) => Ok(option_view(value)),
        Err(error) => Err(error),
    }
}

/// Why a run stops before the end of its program.
enum Halt {
    Absent,
    Underflow,
}

/// Pops the top of a stack that is not empty.
fn pop(stack: &mut Vec<Value>) -> (top: Value)
    requires
        old(stack).len() > 0,
    ensures
        top@ == values_view(old(stack)@).last(),
        values_view(final(stack)@) == values_view(old(stack)@).drop_last(),
        final(stack).len() == old(stack).len() - 1,
{
    stack.pop().unwrap()
}

/// Pushes the result of an opcode, or stops the run where it had none.
fn push(stack: &mut Vec<Value>, value: Option<Value>) -> (result: Result<(), Halt>)
    ensures
        match value {
            Some(v) => result is Ok && values_view(final(stack)@) == values_view(old(stack)@).push(
                v@,
            ),
            None => result matches Err(Halt::Absent),
        },
{
    match value {
        Some(v) => {
            stack.push(v);
            Ok(())
        },
        None => Err(Halt::Absent),
    }
}

/// The value of a field that the record may lack.
fn lookup(row: &Record<Value>, field: &str) -> (result: Option<Value>)
    ensures
        option_view(result) == if row@.contains_key(field@) {
            Some(row@[field@])
        } else {
            None
        },
{
    match row.get(field) {
        Some(value) => Some(value.clone()),
        None => None,
    }
}

/// Whether `left` is below `right`, both taken as integers.
fn below(left: &Value, right: &Value) -> (result: Option<Value>)
    ensures
        option_view(result) == OpCodeView::Lt.binary(left@, right@),
{
    let l: i64 = left.as_i64()?;
    let r: i64 = right.as_i64()?;
    Some(Value::Bool(l < r))
}

/// What an opcode with one operand makes of it.
fn unary(op: &OpCode, operand: Value) -> (result: Option<Value>)
    ensures
        option_view(result) == op@.unary(operand@),
{
    match op {
        OpCode::Not => Some(Value::Bool(!operand.as_bool()?)),
        OpCode::UpperCase => StringTransform::UpperCase.evaluate(operand),
        OpCode::LowerCase => StringTransform::LowerCase.evaluate(operand),
        _ => None,
    }
}

/// What an opcode with two operands makes of them.
fn binary(op: &OpCode, left: Value, right: Value) -> (result: Option<Value>)
    ensures
        option_view(result) == op@.binary(left@, right@),
{
    match op {
        OpCode::Eq => Some(Value::Bool(left == right)),
        OpCode::Neq => Some(Value::Bool(left != right)),
        OpCode::Lt => below(&left, &right),
        OpCode::Gt => below(&right, &left),
        OpCode::And => {
            let l = left.as_bool()?;
            let r = right.as_bool()?;
            Some(Value::Bool(l && r))
        },
        OpCode::Or => {
            let l = left.as_bool()?;
            let r = right.as_bool()?;
            Some(Value::Bool(l || r))
        },
        _ => None,
    }
}

/// Runs one opcode on the stack.
fn step(op: &OpCode, stack: &mut Vec<Value>, row: &Record<Value>) -> (result: Result<(), Halt>)
    ensures
        match op@.step(values_view(old(stack)@), row@) {
            Run::Stack(next) => result is Ok && values_view(final(stack)@) == next,
            Run::Absent => result matches Err(Halt::Absent),
            Run::Underflow => result matches Err(Halt::Underflow),
        },
{
    match op {
        OpCode::PushField(field) => push(stack, lookup(row, field.as_str())),
        OpCode::PushValue(value) => push(stack, Some(value.clone())),
        OpCode::Not | OpCode::UpperCase | OpCode::LowerCase => {
            if stack.len() < 1 {
                return Err(Halt::Underflow);
            }
            let operand = pop(stack);
            push(stack, unary(op, operand))
        },
        _ => {
            if stack.len() < 2 {
                return Err(Halt::Underflow);
            }
            // The right operand was pushed last, and comes off first.
            let right = pop(stack);
            let left = pop(stack);
            push(stack, binary(op, left, right))
        },
    }
}

/// Runs `code` against `row` on an empty stack and returns the one value
/// that it leaves there.
///
/// The result is `Ok(None)` where an opcode has no result: a field that the
/// record lacks, or an operand of the wrong kind. It is an error where the
/// program is malformed: an opcode finds too few operands, or the program
/// ends with a stack that does not hold exactly one value.
pub fn execute(code: &[OpCode], row: &Record<Value>) -> (result: Result<
    Option<Value>,
    ProgramError,
>)
    ensures
        outcome_view(result) == outcome(program_view(code@), row@),
{
    let ghost program = program_view(code@);
    let mut stack: Vec<Value> = Vec::with_capacity(20);
    let mut pc: usize = 0;
    assert(program.skip(0) =~= program);
    assert(values_view(stack@) =~= Seq::empty());
    while pc < code.len()
        invariant
            pc <= code.len(),
            program == program_view(code@),
            run(program, Seq::empty(), row@) == run(
                program.skip(pc as int),
                values_view(stack@),
                row@,
            ),
        decreases code.len() - pc,
    {
        assert(program.skip(pc as int).skip(1) =~= program.skip(pc + 1));
        match step(&code[pc], &mut stack, row) {
            Ok(()) => {},
            Err(Halt::Absent) => {
                return Ok(None);
            },
            Err(Halt::Underflow) => {
                return Err(ProgramError::StackUnderflow);
            },
        }
        pc += 1;
    }
    if stack.len() == 1 {
        Ok(Some(pop(&mut stack)))
    } else {
        Err(ProgramError::UnbalancedStack)
    }
}

/// Runs `code` against `row` and returns the value that it leaves, or
/// `None` where it leaves none or the program is malformed.
pub fn evaluate(code: &[OpCode], row: &Record<Value>) -> (result: Option<Value>)
    ensures
        option_view(result) == match outcome(program_view(code@), row@) {
            Ok(value) => value,
            Err(_) => None,
        },
{
    match execute(code, row) {
        Ok(value) => value,
        Err(_) => None,
    }
}

/// Running two programs one after the other is running the first, and then
/// the second from the stack that the first left; a run that the first
/// stops stays stopped.
pub proof fn lemma_run_concat(
    first: Seq<OpCodeView>,
    second: Seq<OpCodeView>,
    stack: Seq<ValueView>,
    row: Map<Seq<char>, ValueView>,
)
    ensures
        run(first + second, stack, row) == match run(first, stack, row) {
            Run::Stack(next) => run(second, next, row),
            stopped => stopped,
        },
    decreases first.len(),
{
    if first.len() > 0 {
        assert((first + second).skip(1) =~= first.skip(1) + second);
        if let Run::Stack(next) = first[0].step(stack, row) {
            lemma_run_concat(first.skip(1), second, next, row);
        }
    }
}

/// Running a program with one more opcode at its end is running the
/// program, and then that opcode on the stack that it left.
pub proof fn lemma_run_push(
    code: Seq<OpCodeView>,
    last: OpCodeView,
    stack: Seq<ValueView>,
    row: Map<Seq<char>, ValueView>,
)
    ensures
        run(code.push(last), stack, row) == match run(code, stack, row) {
            Run::Stack(next) => last.step(next, row),
            stopped => stopped,
        },
{
    let one = seq![last];
    assert(code.push(last) =~= code + one);
    lemma_run_concat(code, one, stack, row);
    assert forall|next: Seq<ValueView>| run(one, next, row) == last.step(next, row) by {
        reveal_with_fuel(run, 2);
    }
}

/// A dangling opcode makes a program malformed: where a program leaves
/// fewer values than the opcode after it pops, the run ends in a stack
/// underflow, and in no value.
pub proof fn lemma_dangling_opcode(
    code: Seq<OpCodeView>,
    last: OpCodeView,
    row: Map<Seq<char>, ValueView>,
)
    requires
        run(code, Seq::empty(), row) matches Run::Stack(stack) && stack.len() < last.operands(),
    ensures
        outcome(code.push(last), row) == Err::<Option<ValueView>, ProgramError>(
            ProgramError::StackUnderflow,
        ),
{
    lemma_run_push(code, last, Seq::empty(), row);
}

} // verus!
