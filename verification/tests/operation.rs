use rand::Rng;
use sakiko::dict::Dict;
use sakiko::error::Error;
use sakiko::float::{Float, FloatTask, FloatUnit};
use sakiko::operation::{Operation, Operations, Plan};
use sakiko::variable::{VariableType, Variables};

struct Host;

fn float(x: f64) -> Float {
    Float::new(x.to_bits(), format!("{:.3}", x))
}

fn number(x: &Float) -> f64 {
    f64::from_bits(x.bits)
}

impl FloatUnit for Host {
    fn add(&self, a: &Float, b: &Float) -> Float {
        float(number(a) + number(b))
    }

    fn subtract(&self, a: &Float, b: &Float) -> Float {
        float(number(a) - number(b))
    }

    fn multiply(&self, a: &Float, b: &Float) -> Float {
        float(number(a) * number(b))
    }

    fn divide(&self, a: &Float, b: &Float) -> Float {
        float(number(a) / number(b))
    }

    fn between(&self, low: &Float, high: &Float) -> Float {
        float(rand::thread_rng().gen_range(number(low)..number(high)))
    }

    fn parse(&self, text: &str) -> Option<Float> {
        text.parse::<f64>().ok().map(float)
    }
}

fn s(x: &str) -> String {
    x.to_string()
}

fn message(r: Result<(), Error>) -> Result<(), String> {
    r.map_err(|e| e.to_string())
}

fn create_test_variables() -> Variables {
    let mut variables = Variables::new();
    variables.insert("int1".to_string(), VariableType::Int(1));
    variables.insert("int2".to_string(), VariableType::Int(2));
    variables.insert("ptr".to_string(), VariableType::Int(1));
    variables.insert("str1".to_string(), VariableType::Str("test".to_string()));
    variables.insert("str2".to_string(), VariableType::Str("ab".to_string()));
    variables.insert("float1".to_string(), VariableType::Float(float(1.0)));
    variables.insert("float2".to_string(), VariableType::Float(float(2.0)));
    variables.insert("int_vec".to_string(), VariableType::IntVec(vec![1, 2, 3]));
    variables.insert(
        "str_vec".to_string(),
        VariableType::StrVec(vec!["a".to_string(), "b".to_string()]),
    );
    variables.insert(
        "float_vec".to_string(),
        VariableType::FloatVec(vec![float(1.0), float(2.0), float(3.0)]),
    );
    variables.insert(
        "str_dic".to_string(),
        VariableType::StrDic({
            let mut dic = Dict::new();
            dic.insert("a".to_string(), "b".to_string());
            dic
        }),
    );
    variables
}

#[test]
fn test_operation_check() {
    let variables = create_test_variables();

    // Add
    assert_eq!(
        message(
            Operation::Add("int1".to_string(), "int1".to_string(), "int1".to_string())
                .operation_check(&variables)
        ),
        Ok(())
    );
    assert_eq!(
        message(
            Operation::Add("int1".to_string(), "int1".to_string(), "str1".to_string())
                .operation_check(&variables)
        ),
        Err("Type mismatch".to_string())
    );
    // Sub
    assert_eq!(
        message(
            Operation::Sub("int1".to_string(), "int1".to_string(), "int1".to_string())
                .operation_check(&variables)
        ),
        Ok(())
    );
    assert_eq!(
        message(
            Operation::Sub("int1".to_string(), "int1".to_string(), "str1".to_string())
                .operation_check(&variables)
        ),
        Err("Type mismatch".to_string())
    );
    // Mul
    assert_eq!(
        message(
            Operation::Mul("int1".to_string(), "int1".to_string(), "int1".to_string())
                .operation_check(&variables)
        ),
        Ok(())
    );
    assert_eq!(
        message(
            Operation::Mul("int1".to_string(), "int1".to_string(), "str1".to_string())
                .operation_check(&variables)
        ),
        Err("Type mismatch".to_string())
    );
    // Div
    assert_eq!(
        message(
            Operation::Div("int1".to_string(), "int1".to_string(), "int1".to_string())
                .operation_check(&variables)
        ),
        Ok(())
    );
    assert_eq!(
        message(
            Operation::Div("int1".to_string(), "int1".to_string(), "str1".to_string())
                .operation_check(&variables)
        ),
        Err("Type mismatch".to_string())
    );
    // Get
    assert_eq!(
        message(
            Operation::Get("str1".to_string(), "str_vec".to_string(), "int1".to_string())
                .operation_check(&variables)
        ),
        Ok(())
    );
    assert_eq!(
        message(
            Operation::Get("int1".to_string(), "str_vec".to_string(), "int1".to_string())
                .operation_check(&variables)
        ),
        Err("Type mismatch".to_string())
    );
    // Put
    assert_eq!(
        message(
            Operation::Put("str1".to_string(), "str_vec".to_string(), "int1".to_string())
                .operation_check(&variables)
        ),
        Ok(())
    );
    assert_eq!(
        message(
            Operation::Put("int1".to_string(), "str_vec".to_string(), "int1".to_string())
                .operation_check(&variables)
        ),
        Err("Type mismatch".to_string())
    );
    // Let
    assert_eq!(
        message(
            Operation::Let("int1".to_string(), VariableType::Int(1)).operation_check(&variables)
        ),
        Ok(())
    );
    assert_eq!(
        message(
            Operation::Let("int1".to_string(), VariableType::Str("a".to_string()))
                .operation_check(&variables)
        ),
        Err("Type mismatch".to_string())
    );
    // Cpy
    assert_eq!(
        message(Operation::Cpy("int1".to_string(), "int1".to_string()).operation_check(&variables)),
        Ok(())
    );
    assert_eq!(
        message(Operation::Cpy("int1".to_string(), "str1".to_string()).operation_check(&variables)),
        Err("Type mismatch".to_string())
    );
}

#[test]
fn test_calculate() {
    let mut variables = create_test_variables();

    // Add
    assert_eq!(
        Operation::Add("int1".to_string(), "int1".to_string(), "int2".to_string())
            .calculate(&mut variables, &Host),
        Ok(())
    );
    assert_eq!(variables.get("int1"), Some(&VariableType::Int(3)));
    // Sub
    assert_eq!(
        Operation::Sub("int1".to_string(), "int1".to_string(), "int2".to_string())
            .calculate(&mut variables, &Host),
        Ok(())
    );
    assert_eq!(variables.get("int1"), Some(&VariableType::Int(1)));
    // Mul
    assert_eq!(
        Operation::Mul("int1".to_string(), "int1".to_string(), "int2".to_string())
            .calculate(&mut variables, &Host),
        Ok(())
    );
    assert_eq!(variables.get("int1"), Some(&VariableType::Int(2)));
    // Div
    assert_eq!(
        Operation::Div("int1".to_string(), "int1".to_string(), "int2".to_string())
            .calculate(&mut variables, &Host),
        Ok(())
    );
    assert_eq!(variables.get("int1"), Some(&VariableType::Int(1)));
    // Get
    assert_eq!(
        Operation::Get("str1".to_string(), "str_vec".to_string(), "ptr".to_string())
            .calculate(&mut variables, &Host),
        Ok(())
    );
    assert_eq!(variables.get("str1"), Some(&VariableType::Str("b".to_string())));
    // Put
    assert_eq!(
        Operation::Put("str2".to_string(), "str_vec".to_string(), "ptr".to_string())
            .calculate(&mut variables, &Host),
        Ok(())
    );
    assert_eq!(
        variables.get("str_vec"),
        Some(&VariableType::StrVec(vec!["a".to_string(), "ab".to_string()]))
    );
    // Let
    assert_eq!(
        Operation::Let("int1".to_string(), VariableType::Int(10)).calculate(&mut variables, &Host),
        Ok(())
    );
    assert_eq!(variables.get("int1"), Some(&VariableType::Int(10)));
    // Cpy
    assert_eq!(
        Operation::Cpy("int1".to_string(), "int2".to_string()).calculate(&mut variables, &Host),
        Ok(())
    );
    assert_eq!(variables.get("int1"), Some(&VariableType::Int(2)));
    // Rnd
    let _ = Operation::Add("int2".to_string(), "int1".to_string(), "int2".to_string())
        .calculate(&mut variables, &Host);
    assert_eq!(
        Operation::Rnd("int1".to_string(), "int1".to_string(), "int2".to_string())
            .calculate(&mut variables, &Host),
        Ok(())
    );
    assert!(matches!(variables.get("int1"), Some(VariableType::Int(_))));
    // Shu
    assert_eq!(Operation::Shu("str_vec".to_string()).calculate(&mut variables, &Host), Ok(()));
    // Qry
    Operation::Let("str1".to_string(), VariableType::Str("a".to_string()))
        .calculate(&mut variables, &Host)
        .unwrap();
    assert_eq!(
        Operation::Qry("str1".to_string(), "str_dic".to_string(), "str1".to_string())
            .calculate(&mut variables, &Host),
        Ok(())
    );
    assert_eq!(variables.get("str1"), Some(&VariableType::Str("b".to_string())));

    println!("{:?}", variables);
}

#[test]
fn integer_arithmetic_is_exact_or_fails() {
    let mut v = Variables::new();
    v.insert(s("a"), VariableType::Int(0));
    v.insert(s("x"), VariableType::Int(7));
    v.insert(s("y"), VariableType::Int(-2));
    v.insert(s("zero"), VariableType::Int(0));
    v.insert(s("max"), VariableType::Int(i32::MAX));
    v.insert(s("min"), VariableType::Int(i32::MIN));
    v.insert(s("one"), VariableType::Int(1));
    v.insert(s("minus_one"), VariableType::Int(-1));
    let run = |op: Operation, v: &mut Variables| op.calculate(v, &Host);
    assert_eq!(run(Operation::Add(s("a"), s("x"), s("y")), &mut v), Ok(()));
    assert_eq!(v.get("a"), Some(&VariableType::Int(5)));
    assert_eq!(run(Operation::Sub(s("a"), s("x"), s("y")), &mut v), Ok(()));
    assert_eq!(v.get("a"), Some(&VariableType::Int(9)));
    assert_eq!(run(Operation::Mul(s("a"), s("x"), s("y")), &mut v), Ok(()));
    assert_eq!(v.get("a"), Some(&VariableType::Int(-14)));
    // division rounds towards zero
    assert_eq!(run(Operation::Div(s("a"), s("x"), s("y")), &mut v), Ok(()));
    assert_eq!(v.get("a"), Some(&VariableType::Int(-3)));
    assert_eq!(run(Operation::Div(s("a"), s("y"), s("x")), &mut v), Ok(()));
    assert_eq!(v.get("a"), Some(&VariableType::Int(0)));
    v.insert(s("a"), VariableType::Int(99));
    assert_eq!(run(Operation::Div(s("a"), s("x"), s("zero")), &mut v), Err(Error::DivisionByZero));
    assert_eq!(run(Operation::Add(s("a"), s("max"), s("one")), &mut v), Err(Error::Overflow));
    assert_eq!(run(Operation::Sub(s("a"), s("min"), s("one")), &mut v), Err(Error::Overflow));
    assert_eq!(run(Operation::Mul(s("a"), s("max"), s("x")), &mut v), Err(Error::Overflow));
    assert_eq!(run(Operation::Div(s("a"), s("min"), s("minus_one")), &mut v), Err(Error::Overflow));
    // a failure changes nothing
    assert_eq!(v.get("a"), Some(&VariableType::Int(99)));
    assert_eq!(run(Operation::Add(s("a"), s("max"), s("minus_one")), &mut v), Ok(()));
    assert_eq!(v.get("a"), Some(&VariableType::Int(i32::MAX - 1)));
    assert_eq!(Error::Overflow.to_string(), "Arithmetic overflow");
    assert_eq!(Error::DivisionByZero.to_string(), "Division by zero");
}

#[test]
fn float_arithmetic_is_the_hosts() {
    let mut v = create_test_variables();
    let run = |op: Operation, v: &mut Variables| op.calculate(v, &Host);
    assert_eq!(run(Operation::Add(s("float1"), s("float1"), s("float2")), &mut v), Ok(()));
    assert_eq!(v.get("float1"), Some(&VariableType::Float(float(3.0))));
    assert_eq!(run(Operation::Sub(s("float1"), s("float1"), s("float2")), &mut v), Ok(()));
    assert_eq!(v.get("float1"), Some(&VariableType::Float(float(1.0))));
    assert_eq!(run(Operation::Mul(s("float1"), s("float2"), s("float2")), &mut v), Ok(()));
    assert_eq!(v.get("float1"), Some(&VariableType::Float(float(4.0))));
    assert_eq!(run(Operation::Div(s("float1"), s("float1"), s("float2")), &mut v), Ok(()));
    assert_eq!(v.get("float1"), Some(&VariableType::Float(float(2.0))));
    assert_eq!(
        Operation::Add(s("float1"), s("float1"), s("float2")).plan(&v),
        Plan::Ask(s("float1"), FloatTask::Add(float(2.0), float(2.0)))
    );
    assert_eq!(run(Operation::Add(s("float1"), s("float1"), s("int1")), &mut v), Err(Error::TypeMismatch));
    assert_eq!(run(Operation::Add(s("int1"), s("float1"), s("float1")), &mut v), Err(Error::TypeMismatch));
}

#[test]
fn a_missing_variable_is_named() {
    let mut v = create_test_variables();
    let run = |op: Operation, v: &mut Variables| op.calculate(v, &Host);
    let gone = |n: &str| Err(Error::VariableNotFound(s(n)));
    assert_eq!(run(Operation::Add(s("x"), s("y"), s("z")), &mut v), gone("y"));
    assert_eq!(run(Operation::Add(s("x"), s("int1"), s("z")), &mut v), gone("z"));
    assert_eq!(run(Operation::Add(s("x"), s("int1"), s("int1")), &mut v), gone("x"));
    assert_eq!(Operation::Add(s("x"), s("y"), s("z")).operation_check(&v), gone("x"));
    assert_eq!(run(Operation::Put(s("x"), s("y"), s("z")), &mut v), gone("x"));
    assert_eq!(run(Operation::Put(s("str1"), s("y"), s("z")), &mut v), gone("z"));
    assert_eq!(run(Operation::Put(s("str1"), s("y"), s("ptr")), &mut v), gone("y"));
    assert_eq!(run(Operation::Let(s("x"), VariableType::Int(1)), &mut v), gone("x"));
    assert_eq!(run(Operation::Cpy(s("x"), s("y")), &mut v), gone("y"));
    assert_eq!(run(Operation::Cpy(s("x"), s("int1")), &mut v), gone("x"));
    assert_eq!(run(Operation::Shu(s("x")), &mut v), gone("x"));
    assert_eq!(run(Operation::Rnd(s("x"), s("y"), s("z")), &mut v), gone("y"));
    assert_eq!(run(Operation::Qry(s("x"), s("str_dic"), s("z")), &mut v), gone("z"));
    assert_eq!(run(Operation::Ins(s("x"), s("str_dic"), s("z")), &mut v), gone("x"));
    // there is no input yet
    assert_eq!(run(Operation::Inp(s("str1")), &mut v), gone("input"));
    assert_eq!(Operation::Inp(s("str1")).operation_check(&v), Ok(()));
    assert_eq!(Operation::Inp(s("x")).operation_check(&v), gone("x"));
}

#[test]
fn lists_are_read_and_written_in_range() {
    let mut v = create_test_variables();
    v.insert(s("f"), VariableType::Float(float(0.0)));
    v.insert(s("i"), VariableType::Int(0));
    let run = |op: Operation, v: &mut Variables| op.calculate(v, &Host);
    assert_eq!(run(Operation::Get(s("int1"), s("int_vec"), s("int2")), &mut v), Ok(()));
    assert_eq!(v.get("int1"), Some(&VariableType::Int(3)));
    assert_eq!(run(Operation::Get(s("f"), s("float_vec"), s("i")), &mut v), Ok(()));
    assert_eq!(v.get("f"), Some(&VariableType::Float(float(1.0))));
    assert_eq!(run(Operation::Put(s("int2"), s("int_vec"), s("i")), &mut v), Ok(()));
    assert_eq!(v.get("int_vec"), Some(&VariableType::IntVec(vec![2, 2, 3])));
    assert_eq!(run(Operation::Put(s("f"), s("float_vec"), s("int2")), &mut v), Ok(()));
    assert_eq!(
        v.get("float_vec"),
        Some(&VariableType::FloatVec(vec![float(1.0), float(2.0), float(1.0)]))
    );
    // out of range, at run time and at check time
    v.insert(s("i"), VariableType::Int(3));
    assert_eq!(run(Operation::Get(s("int1"), s("int_vec"), s("i")), &mut v), Err(Error::IndexOutOfBounds));
    assert_eq!(run(Operation::Put(s("int1"), s("int_vec"), s("i")), &mut v), Err(Error::IndexOutOfBounds));
    assert_eq!(Operation::Get(s("int1"), s("int_vec"), s("i")).operation_check(&v), Err(Error::IndexOutOfBounds));
    assert_eq!(Operation::Put(s("f"), s("float_vec"), s("i")).operation_check(&v), Err(Error::IndexOutOfBounds));
    v.insert(s("i"), VariableType::Int(-1));
    assert_eq!(run(Operation::Get(s("int1"), s("int_vec"), s("i")), &mut v), Err(Error::IndexOutOfBounds));
    assert_eq!(run(Operation::Put(s("str1"), s("str_vec"), s("i")), &mut v), Err(Error::IndexOutOfBounds));
    assert_eq!(Operation::Put(s("str1"), s("str_vec"), s("i")).operation_check(&v), Err(Error::IndexOutOfBounds));
    assert_eq!(Error::IndexOutOfBounds.to_string(), "Index out of bounds");
    // the index must be an integer, the list a list of the value's type
    assert_eq!(run(Operation::Get(s("int1"), s("int_vec"), s("str1")), &mut v), Err(Error::TypeMismatch));
    assert_eq!(run(Operation::Get(s("int1"), s("float_vec"), s("int2")), &mut v), Err(Error::TypeMismatch));
    assert_eq!(run(Operation::Get(s("int1"), s("int2"), s("int2")), &mut v), Err(Error::TypeMismatch));
}

#[test]
fn a_variable_keeps_its_type() {
    let mut v = create_test_variables();
    let run = |op: Operation, v: &mut Variables| op.calculate(v, &Host);
    assert_eq!(run(Operation::Let(s("int1"), VariableType::Str(s("a"))), &mut v), Err(Error::TypeMismatch));
    assert_eq!(run(Operation::Cpy(s("int1"), s("str1")), &mut v), Err(Error::TypeMismatch));
    assert_eq!(v.get("int1"), Some(&VariableType::Int(1)));
    assert_eq!(run(Operation::Let(s("int_vec"), VariableType::IntVec(vec![])), &mut v), Ok(()));
    assert_eq!(v.get("int_vec"), Some(&VariableType::IntVec(vec![])));
    assert_eq!(run(Operation::Cpy(s("str1"), s("str2")), &mut v), Ok(()));
    assert_eq!(v.get("str1"), Some(&VariableType::Str(s("ab"))));
    assert_eq!(v.get("str2"), Some(&VariableType::Str(s("ab"))));
}

#[test]
fn a_draw_between_equal_numbers_is_that_number() {
    let mut v = create_test_variables();
    v.insert(s("lo"), VariableType::Int(5));
    v.insert(s("hi"), VariableType::Int(5));
    v.insert(s("f"), VariableType::Float(float(2.5)));
    v.insert(s("g"), VariableType::Float(float(2.5)));
    for _ in 0..200 {
        assert_eq!(Operation::Rnd(s("int1"), s("lo"), s("hi")).calculate(&mut v, &Host), Ok(()));
        assert_eq!(v.get("int1"), Some(&VariableType::Int(5)));
        assert_eq!(Operation::Rnd(s("float1"), s("f"), s("g")).calculate(&mut v, &Host), Ok(()));
        assert_eq!(v.get("float1"), Some(&VariableType::Float(float(2.5))));
    }
    assert_eq!(
        Operation::Rnd(s("int1"), s("lo"), s("hi")).plan(&v),
        Plan::Assign(s("int1"), VariableType::Int(5))
    );
}

#[test]
fn a_draw_stays_in_its_range() {
    let mut v = create_test_variables();
    v.insert(s("lo"), VariableType::Int(-3));
    v.insert(s("hi"), VariableType::Int(4));
    v.insert(s("f"), VariableType::Float(float(-1.0)));
    v.insert(s("g"), VariableType::Float(float(1.0)));
    let mut seen = [false; 7];
    for round in 0..400 {
        // the bounds may come in either order
        let op = if round % 2 == 0 {
            Operation::Rnd(s("int1"), s("lo"), s("hi"))
        } else {
            Operation::Rnd(s("int1"), s("hi"), s("lo"))
        };
        assert_eq!(op.calculate(&mut v, &Host), Ok(()));
        match v.get("int1") {
            Some(VariableType::Int(x)) => {
                assert!(-3 <= *x && *x < 4);
                seen[(*x + 3) as usize] = true;
            }
            other => panic!("not an integer: {:?}", other),
        }
        assert_eq!(Operation::Rnd(s("float1"), s("g"), s("f")).calculate(&mut v, &Host), Ok(()));
        match v.get("float1") {
            Some(VariableType::Float(x)) => {
                assert!(-1.0 <= number(x) && number(x) < 1.0);
            }
            other => panic!("not a float: {:?}", other),
        }
    }
    // the draw is a draw: over 400 rounds every number of the range turns up
    assert!(seen.iter().all(|x| *x));
    assert_eq!(Operation::Rnd(s("int1"), s("hi"), s("lo")).plan(&v), Plan::Draw(s("int1"), -3, 4));
    assert_eq!(
        Operation::Rnd(s("int1"), s("str1"), s("lo")).calculate(&mut v, &Host),
        Err(Error::TypeMismatch)
    );
    assert_eq!(
        Operation::Rnd(s("int1"), s("f"), s("g")).operation_check(&v),
        Err(Error::TypeMismatch)
    );
    assert_eq!(Operation::Rnd(s("float1"), s("f"), s("g")).operation_check(&v), Ok(()));
}

#[test]
fn a_shuffle_keeps_the_items() {
    let mut v = Variables::new();
    let ints: Vec<i32> = (0..50).collect();
    let strs: Vec<String> = (0..50).map(|i| format!("s{}", i % 7)).collect();
    let floats: Vec<Float> = (0..50).map(|i| float(i as f64 / 2.0)).collect();
    v.insert(s("ints"), VariableType::IntVec(ints.clone()));
    v.insert(s("strs"), VariableType::StrVec(strs.clone()));
    v.insert(s("floats"), VariableType::FloatVec(floats.clone()));
    v.insert(s("n"), VariableType::Int(1));
    let mut moved = false;
    for _ in 0..10 {
        for name in ["ints", "strs", "floats"] {
            assert_eq!(Operation::Shu(s(name)).calculate(&mut v, &Host), Ok(()));
        }
        match v.get("ints") {
            Some(VariableType::IntVec(now)) => {
                moved = moved || *now != ints;
                let mut sorted = now.clone();
                sorted.sort();
                assert_eq!(sorted, ints);
            }
            other => panic!("not a list of integers: {:?}", other),
        }
        match v.get("strs") {
            Some(VariableType::StrVec(now)) => {
                let mut sorted = now.clone();
                sorted.sort();
                let mut expected = strs.clone();
                expected.sort();
                assert_eq!(sorted, expected);
            }
            other => panic!("not a list of strings: {:?}", other),
        }
        match v.get("floats") {
            Some(VariableType::FloatVec(now)) => {
                let mut sorted: Vec<u64> = now.iter().map(|f| f.bits).collect();
                sorted.sort();
                let mut expected: Vec<u64> = floats.iter().map(|f| f.bits).collect();
                expected.sort();
                assert_eq!(sorted, expected);
            }
            other => panic!("not a list of floats: {:?}", other),
        }
    }
    // fifty items shuffled ten times do not all stay in place
    assert!(moved);
    assert_eq!(Operation::Shu(s("n")).calculate(&mut v, &Host), Err(Error::TypeMismatch));
    assert_eq!(Operation::Shu(s("n")).operation_check(&v), Err(Error::TypeMismatch));
    assert_eq!(Operation::Shu(s("ints")).operation_check(&v), Ok(()));
    assert_eq!(Operation::Shu(s("ints")).plan(&v), Plan::Shuffle(s("ints")));
}

#[test]
fn the_input_is_read_as_the_type_of_its_target() {
    let mut v = create_test_variables();
    let run = |op: Operation, v: &mut Variables| op.calculate(v, &Host);
    v.insert(s("input"), VariableType::Str(s("42")));
    assert_eq!(run(Operation::Inp(s("str1")), &mut v), Ok(()));
    assert_eq!(v.get("str1"), Some(&VariableType::Str(s("42"))));
    assert_eq!(run(Operation::Inp(s("int1")), &mut v), Ok(()));
    assert_eq!(v.get("int1"), Some(&VariableType::Int(42)));
    assert_eq!(run(Operation::Inp(s("float1")), &mut v), Ok(()));
    assert_eq!(v.get("float1"), Some(&VariableType::Float(float(42.0))));
    v.insert(s("input"), VariableType::Str(s("4 2")));
    assert_eq!(run(Operation::Inp(s("int1")), &mut v), Err(Error::InputParseFailure));
    assert_eq!(run(Operation::Inp(s("float1")), &mut v), Err(Error::InputParseFailure));
    assert_eq!(v.get("int1"), Some(&VariableType::Int(42)));
    assert_eq!(run(Operation::Inp(s("str1")), &mut v), Ok(()));
    assert_eq!(v.get("str1"), Some(&VariableType::Str(s("4 2"))));
    assert_eq!(run(Operation::Inp(s("int_vec")), &mut v), Err(Error::TypeMismatch));
    assert_eq!(Operation::Inp(s("int_vec")).operation_check(&v), Err(Error::TypeMismatch));
    assert_eq!(Error::InputParseFailure.to_string(), "Invalid input");
}

#[test]
fn dictionaries_are_asked_and_filled() {
    let mut v = create_test_variables();
    let run = |op: Operation, v: &mut Variables| op.calculate(v, &Host);
    v.insert(s("key"), VariableType::Str(s("k")));
    v.insert(s("int_dic"), VariableType::IntDic(Dict::new()));
    v.insert(s("float_dic"), VariableType::FloatDic(Dict::new()));
    // an absent key gives the empty string, 0, and zero
    assert_eq!(run(Operation::Qry(s("str1"), s("str_dic"), s("key")), &mut v), Ok(()));
    assert_eq!(v.get("str1"), Some(&VariableType::Str(s(""))));
    assert_eq!(run(Operation::Qry(s("int1"), s("int_dic"), s("key")), &mut v), Ok(()));
    assert_eq!(v.get("int1"), Some(&VariableType::Int(0)));
    assert_eq!(run(Operation::Qry(s("float1"), s("float_dic"), s("key")), &mut v), Ok(()));
    assert_eq!(v.get("float1"), Some(&VariableType::Float(float(0.0))));
    // insert, overwrite, and ask again
    assert_eq!(run(Operation::Ins(s("int2"), s("int_dic"), s("key")), &mut v), Ok(()));
    assert_eq!(run(Operation::Ins(s("ptr"), s("int_dic"), s("key")), &mut v), Ok(()));
    assert_eq!(run(Operation::Qry(s("int1"), s("int_dic"), s("key")), &mut v), Ok(()));
    assert_eq!(v.get("int1"), Some(&VariableType::Int(1)));
    assert_eq!(run(Operation::Ins(s("str2"), s("str_dic"), s("key")), &mut v), Ok(()));
    assert_eq!(run(Operation::Qry(s("str1"), s("str_dic"), s("key")), &mut v), Ok(()));
    assert_eq!(v.get("str1"), Some(&VariableType::Str(s("ab"))));
    let mut expected = Dict::new();
    expected.insert(s("a"), s("b"));
    expected.insert(s("k"), s("ab"));
    assert_eq!(v.get("str_dic"), Some(&VariableType::StrDic(expected)));
    assert_eq!(run(Operation::Ins(s("float2"), s("float_dic"), s("key")), &mut v), Ok(()));
    assert_eq!(run(Operation::Qry(s("float1"), s("float_dic"), s("key")), &mut v), Ok(()));
    assert_eq!(v.get("float1"), Some(&VariableType::Float(float(2.0))));
    // types
    assert_eq!(run(Operation::Qry(s("int1"), s("str_dic"), s("key")), &mut v), Err(Error::TypeMismatch));
    assert_eq!(run(Operation::Ins(s("int1"), s("str_dic"), s("key")), &mut v), Err(Error::TypeMismatch));
    assert_eq!(run(Operation::Qry(s("int1"), s("int_dic"), s("int2")), &mut v), Err(Error::TypeMismatch));
    assert_eq!(Operation::Qry(s("int1"), s("int_dic"), s("key")).operation_check(&v), Ok(()));
    assert_eq!(Operation::Ins(s("int1"), s("float_dic"), s("key")).operation_check(&v), Err(Error::TypeMismatch));
}

#[test]
fn a_list_of_instructions_runs_in_order_and_stops_at_a_failure() {
    let mut v = create_test_variables();
    let ops = Operations(vec![
        Operation::Add(s("int1"), s("int1"), s("int2")),
        Operation::Mul(s("int2"), s("int1"), s("int1")),
        Operation::Cpy(s("ptr"), s("int2")),
    ]);
    assert_eq!(ops.calculate(&mut v, &Host), Ok(()));
    assert_eq!(v.get("int1"), Some(&VariableType::Int(3)));
    assert_eq!(v.get("int2"), Some(&VariableType::Int(9)));
    assert_eq!(v.get("ptr"), Some(&VariableType::Int(9)));
    let ops = Operations(vec![
        Operation::Let(s("int1"), VariableType::Int(100)),
        Operation::Add(s("int1"), s("int1"), s("str1")),
        Operation::Let(s("int2"), VariableType::Int(200)),
    ]);
    assert_eq!(ops.calculate(&mut v, &Host), Err(Error::TypeMismatch));
    // what came before the failure stays done, what comes after is not done
    assert_eq!(v.get("int1"), Some(&VariableType::Int(100)));
    assert_eq!(v.get("int2"), Some(&VariableType::Int(9)));
    assert_eq!(
        ops.check(&v),
        Err(Error::Validation(s("Type mismatch")))
    );
    let ops = Operations(vec![
        Operation::Add(s("int1"), s("int1"), s("str1")),
        Operation::Let(s("int2"), VariableType::Int(200)),
        Operation::Shu(s("gone")),
    ]);
    assert_eq!(
        ops.check(&v),
        Err(Error::Validation(s("Type mismatch, Variable gone not found")))
    );
    assert_eq!(Operations::new().check(&v), Ok(()));
    assert_eq!(Operations::new().calculate(&mut v, &Host), Ok(()));
    assert_eq!(ops.clone(), ops);
}

#[test]
fn a_plan_changes_nothing() {
    let v = create_test_variables();
    let before = v.clone();
    assert_eq!(
        Operation::Add(s("int1"), s("int1"), s("int2")).plan(&v),
        Plan::Assign(s("int1"), VariableType::Int(3))
    );
    assert_eq!(
        Operation::Add(s("int1"), s("int1"), s("str1")).plan(&v),
        Plan::Fail(Error::TypeMismatch)
    );
    assert_eq!(v, before);
}
