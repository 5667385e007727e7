use sakiko::compare::{Compare, CompareItem, CompareType, Compares};
use sakiko::error::Error;
use sakiko::float::Float;
use sakiko::variable::{VariableType, Variables};

fn float(x: f64) -> Float {
    Float::new(x.to_bits(), format!("{:.3}", x))
}

fn create_test_variables() -> Variables {
    let mut variables = Variables::new();
    variables.insert("int1".to_string(), VariableType::Int(1));
    variables.insert("int2".to_string(), VariableType::Int(1));
    variables.insert("int3".to_string(), VariableType::Int(2));
    variables.insert("str1".to_string(), VariableType::Str("test".to_string()));
    variables.insert("str2".to_string(), VariableType::Str("ab".to_string()));
    variables.insert("float1".to_string(), VariableType::Float(float(1.0)));
    variables.insert("float2".to_string(), VariableType::Float(float(1.0)));
    variables.insert("int_vec".to_string(), VariableType::IntVec(vec![1, 2, 3]));
    variables.insert(
        "str_vec".to_string(),
        VariableType::StrVec(vec!["a".to_string(), "b".to_string()]),
    );
    variables.insert(
        "float_vec".to_string(),
        VariableType::FloatVec(vec![float(1.0), float(2.0), float(3.0)]),
    );
    variables
}

fn item(compare: Compare, compare_type: CompareType) -> CompareItem {
    CompareItem { compare, compare_type }
}

fn s(x: &str) -> String {
    x.to_string()
}

#[test]
fn test_compare() {
    let variables = create_test_variables();
    let mut compares = Compares::new();
    compares.add(CompareItem {
        compare: Compare::And,
        compare_type: CompareType::Eq("int1".to_string(), "int2".to_string()),
    });
    compares.add(CompareItem {
        compare: Compare::And,
        compare_type: CompareType::Ne("int1".to_string(), "int3".to_string()),
    });
    assert_eq!(compares.calc(&variables).unwrap(), true);
}

#[test]
fn every_relation_on_integers() {
    let v = create_test_variables();
    // int1 = 1, int2 = 1, int3 = 2
    assert_eq!(CompareType::Eq(s("int1"), s("int2")).compare(&v), Ok(true));
    assert_eq!(CompareType::Eq(s("int1"), s("int3")).compare(&v), Ok(false));
    assert_eq!(CompareType::Ne(s("int1"), s("int2")).compare(&v), Ok(false));
    assert_eq!(CompareType::Ne(s("int1"), s("int3")).compare(&v), Ok(true));
    assert_eq!(CompareType::Gt(s("int3"), s("int1")).compare(&v), Ok(true));
    assert_eq!(CompareType::Gt(s("int1"), s("int2")).compare(&v), Ok(false));
    assert_eq!(CompareType::Ge(s("int1"), s("int2")).compare(&v), Ok(true));
    assert_eq!(CompareType::Ge(s("int1"), s("int3")).compare(&v), Ok(false));
    assert_eq!(CompareType::Lt(s("int1"), s("int3")).compare(&v), Ok(true));
    assert_eq!(CompareType::Lt(s("int1"), s("int2")).compare(&v), Ok(false));
    assert_eq!(CompareType::Le(s("int1"), s("int2")).compare(&v), Ok(true));
    assert_eq!(CompareType::Le(s("int3"), s("int1")).compare(&v), Ok(false));
}

#[test]
fn relations_on_strings_and_floats() {
    let mut v = create_test_variables();
    // str1 = "test", str2 = "ab"
    assert_eq!(CompareType::Gt(s("str1"), s("str2")).compare(&v), Ok(true));
    assert_eq!(CompareType::Lt(s("str1"), s("str2")).compare(&v), Ok(false));
    assert_eq!(CompareType::Le(s("str2"), s("str1")).compare(&v), Ok(true));
    assert_eq!(CompareType::Ge(s("str1"), s("str1")).compare(&v), Ok(true));
    assert_eq!(CompareType::Eq(s("str1"), s("str1")).compare(&v), Ok(true));
    assert_eq!(CompareType::Ne(s("str1"), s("str2")).compare(&v), Ok(true));
    assert_eq!(CompareType::Eq(s("float1"), s("float2")).compare(&v), Ok(true));
    v.insert(s("float2"), VariableType::Float(float(1.5)));
    assert_eq!(CompareType::Lt(s("float1"), s("float2")).compare(&v), Ok(true));
    assert_eq!(CompareType::Ge(s("float1"), s("float2")).compare(&v), Ok(false));
    v.insert(s("float2"), VariableType::Float(float(f64::NAN)));
    assert_eq!(CompareType::Eq(s("float1"), s("float2")).compare(&v), Ok(false));
    assert_eq!(CompareType::Ne(s("float1"), s("float2")).compare(&v), Ok(true));
    assert_eq!(CompareType::Le(s("float1"), s("float2")).compare(&v), Ok(false));
    assert_eq!(CompareType::Ge(s("float1"), s("float2")).compare(&v), Ok(false));
}

#[test]
fn equal_and_not_equal_are_complements() {
    let v = create_test_variables();
    let names = ["int1", "int2", "int3", "str1", "str2", "float1", "float2"];
    for a in names {
        for b in names {
            let eq = CompareType::Eq(s(a), s(b));
            let ne = CompareType::Ne(s(a), s(b));
            if eq.compare_check(&v).is_ok() {
                assert_eq!(eq.compare(&v).unwrap(), !ne.compare(&v).unwrap());
            } else {
                assert!(eq.compare(&v).is_err());
                assert!(ne.compare(&v).is_err());
            }
        }
    }
}

#[test]
fn comparisons_that_cannot_be_made() {
    let v = create_test_variables();
    let missing_left = CompareType::Eq(s("nobody"), s("int1"));
    assert_eq!(missing_left.compare(&v), Err(Error::VariableNotFound(s("nobody"))));
    assert_eq!(missing_left.compare_check(&v), Err(Error::VariableNotFound(s("nobody"))));
    let missing_right = CompareType::Lt(s("int1"), s("no one"));
    assert_eq!(missing_right.compare(&v), Err(Error::VariableNotFound(s("no one"))));
    let both = CompareType::Lt(s("x"), s("y"));
    assert_eq!(both.compare_check(&v), Err(Error::VariableNotFound(s("x"))));
    let mixed = CompareType::Eq(s("int1"), s("str1"));
    assert_eq!(mixed.compare(&v), Err(Error::TypeMismatch));
    assert_eq!(mixed.compare_check(&v), Err(Error::TypeMismatch));
    let lists = CompareType::Eq(s("int_vec"), s("int_vec"));
    assert_eq!(lists.compare(&v), Err(Error::TypeMismatch));
    assert_eq!(lists.compare_check(&v), Err(Error::TypeMismatch));
    assert_eq!(Error::VariableNotFound(s("nobody")).to_string(), "Variable nobody not found");
    assert_eq!(Error::TypeMismatch.to_string(), "Type mismatch");
}

#[test]
fn the_empty_guard_holds() {
    let v = create_test_variables();
    assert_eq!(Compares::new().calc(&v), Ok(true));
    assert_eq!(Compares::new().check(&v), Ok(()));
    assert_eq!(Compares::new().calc(&Variables::new()), Ok(true));
}

#[test]
fn a_guard_folds_from_left_to_right() {
    let v = create_test_variables();
    let yes = || CompareType::Eq(s("int1"), s("int2"));
    let no = || CompareType::Eq(s("int1"), s("int3"));
    // the way the first comparison joins is of no account
    assert_eq!(Compares(vec![item(Compare::Or, no())]).calc(&v), Ok(false));
    assert_eq!(Compares(vec![item(Compare::And, yes())]).calc(&v), Ok(true));
    // (yes or no) and no = false; yes or (no and no) would be true
    let g = Compares(vec![item(Compare::And, yes()), item(Compare::Or, no()), item(Compare::And, no())]);
    assert_eq!(g.calc(&v), Ok(false));
    // (no and no) or yes = true
    let g = Compares(vec![item(Compare::And, no()), item(Compare::And, no()), item(Compare::Or, yes())]);
    assert_eq!(g.calc(&v), Ok(true));
    // every comparison is evaluated: a failure after the result is settled still fails
    let g = Compares(vec![
        item(Compare::And, no()),
        item(Compare::And, CompareType::Eq(s("gone"), s("int1"))),
    ]);
    assert_eq!(g.calc(&v), Err(Error::VariableNotFound(s("gone"))));
    let g = Compares(vec![
        item(Compare::And, yes()),
        item(Compare::Or, CompareType::Eq(s("int1"), s("str1"))),
        item(Compare::Or, CompareType::Eq(s("gone"), s("int1"))),
    ]);
    assert_eq!(g.calc(&v), Err(Error::TypeMismatch));
}

#[test]
fn a_check_reports_every_fault() {
    let v = create_test_variables();
    let g = Compares(vec![
        item(Compare::And, CompareType::Eq(s("int1"), s("str1"))),
        item(Compare::And, CompareType::Eq(s("int1"), s("int2"))),
        item(Compare::Or, CompareType::Gt(s("gone"), s("int2"))),
    ]);
    assert_eq!(
        g.check(&v),
        Err(Error::Validation(s("Type mismatch, Variable gone not found")))
    );
    assert_eq!(g.check(&v).unwrap_err().to_string(), "Type mismatch, Variable gone not found");
    let fine = Compares(vec![item(Compare::And, CompareType::Eq(s("int1"), s("int2")))]);
    assert_eq!(fine.check(&v), Ok(()));
    let copy = g.clone();
    assert_eq!(copy, g);
}
