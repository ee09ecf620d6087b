use whalesearch::{
    evaluate, execute, BoolExpr, Number, OpCode, ProgramError, Record, StringTransform, Value,
    ValueExpr,
};

fn field(name: &str) -> ValueExpr {
    ValueExpr::Field(name.to_string())
}

fn text(s: &str) -> Value {
    Value::String(s.to_string())
}

fn integer(n: i64) -> Value {
    Value::Number(Number::Int(n))
}

fn literal(value: Value) -> ValueExpr {
    ValueExpr::Value(value)
}

fn upper(inner: ValueExpr) -> ValueExpr {
    ValueExpr::Transform(StringTransform::UpperCase, Box::new(inner))
}

fn lower(inner: ValueExpr) -> ValueExpr {
    ValueExpr::Transform(StringTransform::LowerCase, Box::new(inner))
}

fn push(value: Value) -> OpCode {
    OpCode::PushValue(value)
}

fn push_field(name: &str) -> OpCode {
    OpCode::PushField(name.to_string())
}

fn yes() -> BoolExpr {
    BoolExpr::Eq(literal(integer(1)), literal(integer(1)))
}

fn no() -> BoolExpr {
    BoolExpr::Eq(literal(integer(1)), literal(integer(2)))
}

fn absent() -> BoolExpr {
    BoolExpr::Eq(field("missing"), literal(integer(1)))
}

fn and(l: BoolExpr, r: BoolExpr) -> BoolExpr {
    BoolExpr::And(Box::new(l), Box::new(r))
}

fn or(l: BoolExpr, r: BoolExpr) -> BoolExpr {
    BoolExpr::Or(Box::new(l), Box::new(r))
}

fn not(p: BoolExpr) -> BoolExpr {
    BoolExpr::Not(Box::new(p))
}

fn whale() -> Record<Value> {
    let mut row = Record::new();
    row.insert("name".to_string(), text("Moby"));
    row.insert("size".to_string(), integer(30));
    row.insert("extinct".to_string(), Value::Bool(false));
    row.insert("range".to_string(), text("Antarctic"));
    row
}

/// The truth value that a run stands for, if it is one.
fn truth(result: Result<Option<Value>, ProgramError>) -> Option<bool> {
    match result {
        Ok(Some(value)) => value.as_bool(),
        _ => None,
    }
}

#[test]
fn push_value_leaves_the_value() {
    let row = Record::new();
    assert_eq!(execute(&[push(integer(7))], &row), Ok(Some(integer(7))));
    assert_eq!(execute(&[push(Value::Null)], &row), Ok(Some(Value::Null)));
    assert_eq!(evaluate(&[push(text("x"))], &row), Some(text("x")));
}

#[test]
fn push_field_leaves_the_value_of_the_field() {
    let row = whale();
    assert_eq!(execute(&[push_field("name")], &row), Ok(Some(text("Moby"))));
    assert_eq!(evaluate(&[push_field("size")], &row), Some(integer(30)));
}

#[test]
fn push_field_that_the_record_lacks_is_absent() {
    let row = whale();
    assert_eq!(execute(&[push_field("missing")], &row), Ok(None));
    assert_eq!(evaluate(&[push_field("missing")], &row), None);
    assert_eq!(execute(&[push_field("missing"), push(integer(1)), OpCode::Eq], &row), Ok(None));
}

#[test]
fn case_opcodes_transform_a_string() {
    let row = Record::new();
    assert_eq!(execute(&[push(text("Moby")), OpCode::UpperCase], &row), Ok(Some(text("MOBY"))));
    assert_eq!(execute(&[push(text("Moby")), OpCode::LowerCase], &row), Ok(Some(text("moby"))));
}

#[test]
fn case_opcodes_on_what_is_not_a_string_are_absent() {
    let row = Record::new();
    assert_eq!(execute(&[push(integer(1)), OpCode::UpperCase], &row), Ok(None));
    assert_eq!(execute(&[push(Value::Null), OpCode::LowerCase], &row), Ok(None));
    assert_eq!(execute(&[push(Value::Bool(true)), OpCode::UpperCase], &row), Ok(None));
}

#[test]
fn eq_opcode_compares_values() {
    let row = Record::new();
    let run = |l: Value, r: Value| execute(&[push(l), push(r), OpCode::Eq], &row);
    assert_eq!(run(integer(1), integer(1)), Ok(Some(Value::Bool(true))));
    assert_eq!(run(integer(1), integer(2)), Ok(Some(Value::Bool(false))));
    assert_eq!(run(integer(1), text("1")), Ok(Some(Value::Bool(false))));
    assert_eq!(run(text("a"), text("a")), Ok(Some(Value::Bool(true))));
    assert_eq!(run(Value::Null, Value::Null), Ok(Some(Value::Bool(true))));
}

#[test]
fn neq_opcode_is_the_negation_of_eq() {
    let row = Record::new();
    let pairs = || vec![
        (integer(1), integer(1)),
        (integer(1), integer(2)),
        (integer(1), text("1")),
        (text("a"), text("a")),
        (text("a"), text("b")),
        (Value::Null, Value::Null),
        (Value::Bool(true), Value::Bool(false)),
    ];
    for (l, r) in pairs() {
        let eq = truth(execute(&[push(l.clone()), push(r.clone()), OpCode::Eq], &row));
        let neq = truth(execute(&[push(l), push(r), OpCode::Neq], &row));
        assert!(eq.is_some());
        assert_eq!(neq, eq.map(|b| !b));
    }
    assert_eq!(
        execute(&[push(integer(1)), push(integer(2)), OpCode::Neq], &row),
        Ok(Some(Value::Bool(true)))
    );
    assert_eq!(
        execute(&[push(integer(1)), push(integer(1)), OpCode::Neq], &row),
        Ok(Some(Value::Bool(false)))
    );
}

#[test]
fn ordering_opcodes_take_the_left_operand_from_below() {
    let row = Record::new();
    let lt = [push(integer(3)), push(integer(5)), OpCode::Lt];
    let gt = [push(integer(3)), push(integer(5)), OpCode::Gt];
    assert_eq!(execute(&lt, &row), Ok(Some(Value::Bool(true))));
    assert_eq!(execute(&gt, &row), Ok(Some(Value::Bool(false))));
    let lt = [push(integer(5)), push(integer(3)), OpCode::Lt];
    let gt = [push(integer(5)), push(integer(3)), OpCode::Gt];
    assert_eq!(execute(&lt, &row), Ok(Some(Value::Bool(false))));
    assert_eq!(execute(&gt, &row), Ok(Some(Value::Bool(true))));
    let lt = [push(integer(4)), push(integer(4)), OpCode::Lt];
    let gt = [push(integer(4)), push(integer(4)), OpCode::Gt];
    assert_eq!(execute(&lt, &row), Ok(Some(Value::Bool(false))));
    assert_eq!(execute(&gt, &row), Ok(Some(Value::Bool(false))));
}

#[test]
fn ordering_opcodes_need_integers() {
    let row = Record::new();
    assert_eq!(execute(&[push(text("a")), push(integer(1)), OpCode::Lt], &row), Ok(None));
    assert_eq!(execute(&[push(integer(1)), push(text("a")), OpCode::Lt], &row), Ok(None));
    assert_eq!(execute(&[push(Value::Null), push(integer(1)), OpCode::Gt], &row), Ok(None));
    let half = Value::Number(Number::Float(0.5f64.to_bits()));
    assert_eq!(execute(&[push(integer(1)), push(half), OpCode::Gt], &row), Ok(None));
}

#[test]
fn not_opcode_negates_a_boolean() {
    let row = Record::new();
    let code = [push(Value::Bool(true)), OpCode::Not];
    assert_eq!(execute(&code, &row), Ok(Some(Value::Bool(false))));
    let code = [push(Value::Bool(false)), OpCode::Not];
    assert_eq!(execute(&code, &row), Ok(Some(Value::Bool(true))));
    assert_eq!(execute(&[push(integer(0)), OpCode::Not], &row), Ok(None));
    assert_eq!(execute(&[push(Value::Null), OpCode::Not], &row), Ok(None));
}

#[test]
fn and_or_opcodes_combine_booleans() {
    let row = Record::new();
    let run = |l: bool, r: bool, op: OpCode| {
        execute(&[push(Value::Bool(l)), push(Value::Bool(r)), op], &row)
    };
    assert_eq!(run(true, true, OpCode::And), Ok(Some(Value::Bool(true))));
    assert_eq!(run(true, false, OpCode::And), Ok(Some(Value::Bool(false))));
    assert_eq!(run(false, true, OpCode::And), Ok(Some(Value::Bool(false))));
    assert_eq!(run(false, false, OpCode::And), Ok(Some(Value::Bool(false))));
    assert_eq!(run(true, true, OpCode::Or), Ok(Some(Value::Bool(true))));
    assert_eq!(run(true, false, OpCode::Or), Ok(Some(Value::Bool(true))));
    assert_eq!(run(false, true, OpCode::Or), Ok(Some(Value::Bool(true))));
    assert_eq!(run(false, false, OpCode::Or), Ok(Some(Value::Bool(false))));
}

#[test]
fn and_or_opcodes_need_booleans() {
    let row = Record::new();
    assert_eq!(execute(&[push(integer(1)), push(Value::Bool(true)), OpCode::And], &row), Ok(None));
    assert_eq!(execute(&[push(Value::Bool(true)), push(integer(1)), OpCode::And], &row), Ok(None));
    assert_eq!(execute(&[push(Value::Bool(true)), push(Value::Null), OpCode::Or], &row), Ok(None));
    assert_eq!(execute(&[push(text("x")), push(Value::Bool(false)), OpCode::Or], &row), Ok(None));
}

#[test]
fn dangling_and_is_a_malformed_program() {
    let row = whale();
    assert_eq!(execute(&[OpCode::And], &row), Err(ProgramError::StackUnderflow));
    assert_eq!(
        execute(&[push(Value::Bool(true)), OpCode::And], &row),
        Err(ProgramError::StackUnderflow)
    );
    assert_eq!(evaluate(&[push(Value::Bool(true)), OpCode::And], &row), None);
}

#[test]
fn every_opcode_that_pops_can_underflow() {
    let row = Record::new();
    let one = || push(integer(1));
    assert_eq!(execute(&[OpCode::Not], &row), Err(ProgramError::StackUnderflow));
    assert_eq!(execute(&[OpCode::UpperCase], &row), Err(ProgramError::StackUnderflow));
    assert_eq!(execute(&[OpCode::LowerCase], &row), Err(ProgramError::StackUnderflow));
    assert_eq!(execute(&[OpCode::Eq], &row), Err(ProgramError::StackUnderflow));
    assert_eq!(execute(&[one(), OpCode::Eq], &row), Err(ProgramError::StackUnderflow));
    assert_eq!(execute(&[one(), OpCode::Neq], &row), Err(ProgramError::StackUnderflow));
    assert_eq!(execute(&[one(), OpCode::Lt], &row), Err(ProgramError::StackUnderflow));
    assert_eq!(execute(&[one(), OpCode::Gt], &row), Err(ProgramError::StackUnderflow));
    assert_eq!(execute(&[one(), OpCode::Or], &row), Err(ProgramError::StackUnderflow));
}

#[test]
fn underflow_is_found_before_the_operands_are_looked_at() {
    let row = Record::new();
    assert_eq!(execute(&[push(text("x")), OpCode::And], &row), Err(ProgramError::StackUnderflow));
    assert_eq!(execute(&[push(text("x")), OpCode::Lt], &row), Err(ProgramError::StackUnderflow));
}

#[test]
fn absence_stops_the_run_before_a_later_underflow() {
    let row = Record::new();
    assert_eq!(execute(&[push_field("missing"), OpCode::And], &row), Ok(None));
    assert_eq!(execute(&[push(integer(1)), OpCode::Not, OpCode::And], &row), Ok(None));
}

#[test]
fn empty_program_is_malformed() {
    let row = whale();
    assert_eq!(execute(&[], &row), Err(ProgramError::UnbalancedStack));
    assert_eq!(evaluate(&[], &row), None);
}

#[test]
fn leftover_values_are_malformed() {
    let row = whale();
    let code = [push(integer(1)), push(integer(2))];
    assert_eq!(execute(&code, &row), Err(ProgramError::UnbalancedStack));
    assert_eq!(evaluate(&code, &row), None);
    let code = [push(integer(1)), push(integer(2)), push(integer(3)), OpCode::Eq];
    assert_eq!(execute(&code, &row), Err(ProgramError::UnbalancedStack));
}

#[test]
fn ordering_correctness_compiled() {
    let mut row = Record::new();
    row.insert("a".to_string(), integer(3));
    row.insert("b".to_string(), integer(5));
    let lt = BoolExpr::Lt(field("a"), field("b"));
    let gt = BoolExpr::Gt(field("a"), field("b"));
    assert_eq!(lt.evaluate(&row), Some(true));
    assert_eq!(gt.evaluate(&row), Some(false));
    assert_eq!(execute(&lt.to_opcode(), &row), Ok(Some(Value::Bool(true))));
    assert_eq!(execute(&gt.to_opcode(), &row), Ok(Some(Value::Bool(false))));
    assert_eq!(evaluate(&lt.to_opcode(), &row), Some(Value::Bool(true)));
    assert_eq!(evaluate(&gt.to_opcode(), &row), Some(Value::Bool(false)));
}

#[test]
fn compiled_neq_differs_from_compiled_eq() {
    let row = whale();
    let eq = BoolExpr::Eq(field("name"), literal(text("Moby")));
    let neq = BoolExpr::Neq(field("name"), literal(text("Moby")));
    assert_eq!(evaluate(&eq.to_opcode(), &row), Some(Value::Bool(true)));
    assert_eq!(evaluate(&neq.to_opcode(), &row), Some(Value::Bool(false)));
    assert_eq!(neq.evaluate(&row), Some(false));
    let eq = BoolExpr::Eq(field("name"), literal(text("Flipper")));
    let neq = BoolExpr::Neq(field("name"), literal(text("Flipper")));
    assert_eq!(evaluate(&eq.to_opcode(), &row), Some(Value::Bool(false)));
    assert_eq!(evaluate(&neq.to_opcode(), &row), Some(Value::Bool(true)));
}

#[test]
fn compiled_transform_equals_literal() {
    let mut row = Record::new();
    row.insert("name".to_string(), text("Moby"));
    let pred = BoolExpr::Eq(upper(field("name")), literal(text("MOBY")));
    assert_eq!(execute(&pred.to_opcode(), &row), Ok(Some(Value::Bool(true))));
    let pred = BoolExpr::Eq(lower(field("name")), literal(text("moby")));
    assert_eq!(execute(&pred.to_opcode(), &row), Ok(Some(Value::Bool(true))));
}

#[test]
fn compiled_absence_propagates() {
    let mut row = Record::new();
    row.insert("a".to_string(), text("x"));
    let pred = BoolExpr::Eq(field("a"), field("missing"));
    assert_eq!(pred.evaluate(&row), None);
    assert_eq!(execute(&pred.to_opcode(), &row), Ok(None));
}

#[test]
fn machine_cannot_skip_an_absent_right_operand() {
    let row = whale();
    let pred = and(no(), absent());
    assert_eq!(pred.evaluate(&row), Some(false));
    assert_eq!(execute(&pred.to_opcode(), &row), Ok(None));
    let pred = or(yes(), absent());
    assert_eq!(pred.evaluate(&row), Some(true));
    assert_eq!(execute(&pred.to_opcode(), &row), Ok(None));
}

#[test]
fn machine_agrees_with_tree_walk_where_operands_are_defined() {
    let preds = || vec![
        BoolExpr::Eq(field("name"), literal(text("Moby"))),
        BoolExpr::Neq(field("name"), literal(text("Moby"))),
        BoolExpr::Eq(upper(field("name")), literal(text("MOBY"))),
        BoolExpr::Eq(lower(field("range")), literal(text("antarctic"))),
        BoolExpr::Lt(field("size"), literal(integer(20))),
        BoolExpr::Gt(field("size"), literal(integer(20))),
        BoolExpr::Gt(field("name"), literal(integer(20))),
        BoolExpr::Eq(field("missing"), literal(integer(20))),
        BoolExpr::Eq(upper(field("size")), literal(text("30"))),
        not(BoolExpr::Gt(field("size"), literal(integer(20)))),
        not(absent()),
        and(yes(), yes()),
        and(yes(), no()),
        and(no(), yes()),
        and(no(), no()),
        or(yes(), yes()),
        or(yes(), no()),
        or(no(), yes()),
        or(no(), no()),
        and(absent(), yes()),
        or(absent(), no()),
        and(yes(), absent()),
        or(no(), absent()),
        or(
            BoolExpr::Gt(field("size"), literal(integer(20))),
            BoolExpr::Eq(field("range"), literal(text("antarctic"))),
        ),
        and(
            not(BoolExpr::Eq(field("extinct"), literal(Value::Bool(true)))),
            or(
                BoolExpr::Lt(field("size"), literal(integer(10))),
                BoolExpr::Eq(lower(field("name")), literal(text("moby"))),
            ),
        ),
    ];
    let mut small = Record::new();
    small.insert("name".to_string(), text("Flipper"));
    small.insert("size".to_string(), integer(2));
    small.insert("extinct".to_string(), Value::Bool(false));
    small.insert("range".to_string(), text("Pacific"));
    let rows = vec![whale(), small];
    for row in rows.iter() {
        for pred in preds() {
            let walked = pred.evaluate(row);
            let ran = execute(&pred.to_opcode(), row);
            assert!(ran.is_ok(), "{:?}", pred);
            assert_eq!(truth(ran), walked, "{:?}", pred);
        }
    }
}

#[test]
fn compiled_predicate_is_never_malformed() {
    let preds = vec![
        and(no(), absent()),
        or(yes(), absent()),
        not(absent()),
        and(and(yes(), no()), or(no(), not(yes()))),
        BoolExpr::Lt(upper(field("name")), lower(field("missing"))),
    ];
    let rows = vec![whale(), Record::new()];
    for row in rows.iter() {
        for pred in preds.iter() {
            assert!(execute(&pred.to_opcode(), row).is_ok(), "{:?}", pred);
        }
    }
}

#[test]
fn deeply_nested_predicate_runs() {
    let row = whale();
    let mut pred = BoolExpr::Gt(field("size"), literal(integer(20)));
    let mut depth: u32 = 0;
    while depth < 101 {
        pred = not(pred);
        depth += 1;
    }
    assert_eq!(pred.evaluate(&row), Some(false));
    assert_eq!(execute(&pred.to_opcode(), &row), Ok(Some(Value::Bool(false))));
    let mut code = Vec::new();
    let mut count: u32 = 0;
    while count < 50 {
        code.push(push(Value::Bool(true)));
        count += 1;
    }
    while count > 1 {
        code.push(OpCode::And);
        count -= 1;
    }
    assert_eq!(execute(&code, &row), Ok(Some(Value::Bool(true))));
}

#[test]
fn running_twice_gives_the_same_result() {
    let row = whale();
    let code = or(
        BoolExpr::Gt(field("size"), literal(integer(20))),
        BoolExpr::Eq(field("range"), literal(text("antarctic"))),
    )
    .to_opcode();
    assert_eq!(execute(&code, &row), execute(&code, &row));
    assert_eq!(evaluate(&code, &row), evaluate(&code, &row));
    assert_eq!(execute(&code, &row), Ok(Some(Value::Bool(true))));
}

#[test]
fn one_program_runs_against_many_records() {
    let code = BoolExpr::Gt(field("size"), literal(integer(20))).to_opcode();
    let mut matches: u32 = 0;
    let mut size: i64 = 0;
    while size < 40 {
        let mut row = Record::new();
        row.insert("size".to_string(), integer(size));
        if matches!(evaluate(&code, &row), Some(Value::Bool(true))) {
            matches += 1;
        }
        size += 1;
    }
    assert_eq!(matches, 19);
}
