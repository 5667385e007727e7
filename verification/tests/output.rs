use sakiko::error::Error;
use sakiko::float::Float;
use sakiko::output::Output;
use sakiko::variable::{VariableType, Variables};

fn s(x: &str) -> String {
    x.to_string()
}

fn names(xs: &[&str]) -> Vec<String> {
    xs.iter().map(|x| x.to_string()).collect()
}

#[test]
fn test_fmt() {
    let mut variables = Variables::new();
    variables.insert("num1".to_string(), VariableType::Int(1));
    variables.insert("num2".to_string(), VariableType::Int(2));
    variables.insert("ope".to_string(), VariableType::Str("+".to_string()));

    let output = Output::new(
        "{} {} {} = {}".to_string(),
        vec!["num1".to_string(), "ope".to_string(), "num1".to_string(), "num2".to_string()],
    );

    assert_eq!(output.fmt(&variables).unwrap(), "1 + 1 = 2");
}

#[test]
fn a_template_with_as_many_markers_as_names() {
    let mut variables = Variables::new();
    variables.insert(s("a"), VariableType::Int(1));
    variables.insert(s("b"), VariableType::Int(1));
    variables.insert(s("c"), VariableType::Int(2));
    let output = Output::new(s("{} + {} = {}"), names(&["a", "b", "c"]));
    let text = output.fmt(&variables).unwrap();
    assert_eq!(text, "1 + 1 = 2");
    // taking the template's own pieces away leaves each value's text
    let pieces: Vec<&str> = "{} + {} = {}".split("{}").collect();
    assert_eq!(pieces, vec!["", " + ", " = ", ""]);
    let mut rest = text.as_str();
    let mut values = Vec::new();
    rest = rest.strip_prefix(pieces[0]).unwrap();
    for piece in &pieces[1..] {
        let at = if piece.is_empty() { rest.len() } else { rest.find(piece).unwrap() };
        values.push(rest[..at].to_string());
        rest = &rest[at + piece.len()..];
    }
    assert_eq!(rest, "");
    assert_eq!(
        values,
        vec![
            VariableType::Int(1).to_string(),
            VariableType::Int(1).to_string(),
            VariableType::Int(2).to_string()
        ]
    );
}

#[test]
fn markers_and_names_that_do_not_pair_up() {
    let mut variables = Variables::new();
    variables.insert(s("x"), VariableType::Str(s("X")));
    variables.insert(s("y"), VariableType::Str(s("Y")));
    // more names than markers: the later names are not used
    assert_eq!(Output::new(s("only {}"), names(&["x", "y"])).fmt(&variables).unwrap(), "only X");
    assert_eq!(Output::new(s("none"), names(&["x", "y"])).fmt(&variables).unwrap(), "none");
    // more markers than names: the later markers stay as they are
    assert_eq!(
        Output::new(s("a{}b{}c{}"), names(&["x"])).fmt(&variables).unwrap(),
        "aXb{}c{}"
    );
    assert_eq!(Output::new(s("{}{}"), names(&[])).fmt(&variables).unwrap(), "{}{}");
    // markers at the ends and side by side
    assert_eq!(Output::new(s("{}{}"), names(&["x", "y"])).fmt(&variables).unwrap(), "XY");
    assert_eq!(Output::new(s("{{}}"), names(&["x"])).fmt(&variables).unwrap(), "{X}");
    assert_eq!(Output::new(s("{ } }{ {"), names(&["x"])).fmt(&variables).unwrap(), "{ } }{ {");
    assert_eq!(Output::new(s(""), names(&["x"])).fmt(&variables).unwrap(), "");
    // a value that holds a marker is not filled again
    variables.insert(s("m"), VariableType::Str(s("{}")));
    assert_eq!(Output::new(s("{}-{}"), names(&["m", "x"])).fmt(&variables).unwrap(), "{}-X");
    assert_eq!(Output::new(s("é{}ü"), names(&["x"])).fmt(&variables).unwrap(), "éXü");
}

#[test]
fn every_name_must_be_known() {
    let mut variables = Variables::new();
    variables.insert(s("x"), VariableType::Str(s("X")));
    let output = Output::new(s("{}"), names(&["x", "gone", "lost"]));
    assert_eq!(output.fmt(&variables), Err(Error::VariableNotFound(s("gone"))));
    assert_eq!(
        output.check(&variables),
        Err(Error::Validation(s("Variable not found: gone, Variable not found: lost")))
    );
    assert_eq!(Output::new(s("{}"), names(&["x"])).check(&variables), Ok(()));
}

#[test]
fn empty_and_default_outputs() {
    assert!(Output::default().is_empty());
    assert_eq!(Output::default(), Output::new(s(""), vec![]));
    assert!(Output::new(s(""), names(&["x"])).is_empty());
    assert!(!Output::new(s(" "), vec![]).is_empty());
    let output = Output::new(s("{}"), names(&["x"]));
    assert_eq!(output.clone(), output);
}

#[test]
fn values_of_every_type_fill_a_template() {
    let mut variables = Variables::new();
    variables.insert(s("f"), VariableType::Float(Float::new(2.5f64.to_bits(), s("2.500"))));
    variables.insert(s("v"), VariableType::IntVec(vec![1, 2]));
    let output = Output::new(s("f={} v={}"), names(&["f", "v"]));
    assert_eq!(output.fmt(&variables).unwrap(), "f=2.500 v=1,2");
}
