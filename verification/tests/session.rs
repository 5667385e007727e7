use rand::Rng;
use sakiko::compare::{Compare, CompareItem, CompareType, Compares};
use sakiko::config::SakikoConfig;
use sakiko::error::Error;
use sakiko::float::{Float, FloatUnit};
use sakiko::operation::{Operation, Operations};
use sakiko::output::Output;
use sakiko::sakiko::{Session, Turn};
use sakiko::variable::VariableType;
use std::sync::Arc;

struct Host;

fn float(x: f64) -> Float {
    Float::new(x.to_bits(), format!("{:.3}", x))
}

fn number(x: &Float) -> f64 {
    f64::from_bits(x.bits)
}

impl FloatUnit for Host {
    fn add(&self, a: &Float, b: &Float) -> Float {
        float(number(a) + number(b))
    }

    fn subtract(&self, a: &Float, b: &Float) -> Float {
        float(number(a) - number(b))
    }

    fn multiply(&self, a: &Float, b: &Float) -> Float {
        float(number(a) * number(b))
    }

    fn divide(&self, a: &Float, b: &Float) -> Float {
        float(number(a) / number(b))
    }

    fn between(&self, low: &Float, high: &Float) -> Float {
        float(rand::thread_rng().gen_range(number(low)..number(high)))
    }

    fn parse(&self, text: &str) -> Option<Float> {
        text.parse::<f64>().ok().map(float)
    }
}

fn s(x: &str) -> String {
    x.to_string()
}

fn always() -> Compares {
    Compares::new()
}

fn nothing() -> Operations {
    Operations::new()
}

fn guard(compare_type: CompareType) -> Compares {
    Compares(vec![CompareItem { compare: Compare::And, compare_type }])
}

#[test]
fn a_greeting_that_leads_to_the_end() {
    let mut config = SakikoConfig::new("Bot", "greet");
    config.add_variable("name", VariableType::Str(s("Bot")));
    config.add_step("greet", &Output::new(s("Hi, {} !"), vec![s("name")]));
    config.add_transaction("greet", "", &always(), "end", &nothing());
    let mut session = Session::new(Arc::new(config));
    assert_eq!(session.get_bot_name(), "Bot");
    assert!(!session.is_end());
    // one cycle: not at the end, say it, move on without input
    assert_eq!(session.need_stop(&Host), Ok(false));
    assert_eq!(session.output(), Ok(s("Hi, Bot !")));
    assert_eq!(session.handle_empty_input(&Host), Ok(true));
    // and the session is over, no input was asked for
    assert!(session.is_end());
    assert_eq!(session.need_stop(&Host), Ok(true));
    assert_eq!(session.need_stop(&Host), Ok(true));
}

fn yes_or_else() -> SakikoConfig {
    let mut config = SakikoConfig::new("Bot", "ask");
    config.add_variable("answer", VariableType::Str(s("")));
    config.add_step("ask", &Output::new(s("Well?"), vec![]));
    config.add_step("glad", &Output::new(s("Glad."), vec![]));
    config.add_step("sorry", &Output::new(s("Sorry."), vec![]));
    config.add_transaction("ask", "yes", &always(), "glad", &nothing());
    config.add_transaction("ask", "", &always(), "sorry", &nothing());
    config
}

#[test]
fn transitions_are_tried_in_order() {
    // the input does not match the first transition, and the second takes no input
    let mut session = Session::new(Arc::new(yes_or_else()));
    assert_eq!(session.need_stop(&Host), Ok(false));
    assert_eq!(session.output(), Ok(s("Well?")));
    assert_eq!(session.handle_input("no", &Host), Err(Error::InvalidInput));
    assert_eq!(session.output(), Ok(s("Well?")));
    // the second is the one taken once the first is out of the question
    assert_eq!(session.handle_empty_input(&Host), Ok(true));
    assert_eq!(session.output(), Ok(s("Sorry.")));

    let mut session = Session::new(Arc::new(yes_or_else()));
    assert_eq!(session.handle_input("yes", &Host), Ok(()));
    assert_eq!(session.output(), Ok(s("Glad.")));

    // the first of two that both match wins
    let mut config = SakikoConfig::new("Bot", "ask");
    config.add_step("ask", &Output::new(s("?"), vec![]));
    config.add_step("first", &Output::new(s("1"), vec![]));
    config.add_step("second", &Output::new(s("2"), vec![]));
    config.add_transaction("ask", "a", &always(), "first", &nothing());
    config.add_transaction("ask", "a|b", &always(), "second", &nothing());
    let config = Arc::new(config);
    let mut session = Session::new(config.clone());
    assert_eq!(session.handle_input("a", &Host), Ok(()));
    assert_eq!(session.output(), Ok(s("1")));
    let mut session = Session::new(config);
    assert_eq!(session.handle_input("b", &Host), Ok(()));
    assert_eq!(session.output(), Ok(s("2")));
}

#[test]
fn saying_it_twice_says_the_same() {
    let mut config = SakikoConfig::new("Bot", "ask");
    config.add_variable("n", VariableType::Int(3));
    config.add_variable("f", VariableType::Float(float(0.5)));
    config.add_step("ask", &Output::new(s("{} and {} and {}"), vec![s("n"), s("f"), s("input")]));
    config.add_transaction("ask", "go", &always(), "end", &nothing());
    let session = Session::new(Arc::new(config));
    let first = session.output();
    let second = session.output();
    assert_eq!(first, Ok(s("3 and 0.500 and ")));
    assert_eq!(first, second);
}

#[test]
fn patterns_match_as_regular_expressions_or_as_they_stand() {
    let mut config = SakikoConfig::new("Bot", "ask");
    config.add_step("ask", &Output::new(s("?"), vec![]));
    config.add_step("number", &Output::new(s("a number"), vec![]));
    config.add_step("odd", &Output::new(s("odd"), vec![]));
    config.add_step("hello", &Output::new(s("hello"), vec![]));
    // a regular expression is searched for anywhere in the input
    config.add_transaction("ask", "[0-9]+", &always(), "number", &nothing());
    // not a regular expression: the input must be the pattern itself
    config.add_transaction("ask", "a(b", &always(), "odd", &nothing());
    config.add_transaction("ask", "hello", &always(), "hello", &nothing());
    let config = Arc::new(config);
    let go = |input: &str| {
        let mut session = Session::new(config.clone());
        let r = session.handle_input(input, &Host);
        (r, session.output().unwrap())
    };
    assert_eq!(go("room 101, please"), (Ok(()), s("a number")));
    assert_eq!(go("a(b"), (Ok(()), s("odd")));
    assert_eq!(go("xa(bx"), (Err(Error::InvalidInput), s("?")));
    assert_eq!(go("well, hello there"), (Ok(()), s("hello")));
    assert_eq!(go(""), (Err(Error::InvalidInput), s("?")));
    assert_eq!(Error::InvalidInput.to_string(), "Invalid input");
}

#[test]
fn the_input_is_kept_and_guards_see_it() {
    let mut config = SakikoConfig::new("Bot", "ask");
    config.add_variable("secret", VariableType::Str(s("sesame")));
    config.add_variable("heard", VariableType::Str(s("")));
    config.add_variable("tries", VariableType::Int(0));
    config.add_variable("one", VariableType::Int(1));
    config.add_step("ask", &Output::new(s("Password? ({} tries)"), vec![s("tries")]));
    config.add_step("in", &Output::new(s("Welcome, you said {}"), vec![s("heard")]));
    config.add_transaction(
        "ask",
        ".*",
        &guard(CompareType::Eq(s("input"), s("secret"))),
        "in",
        &Operations(vec![Operation::Inp(s("heard"))]),
    );
    config.add_transaction(
        "ask",
        ".*",
        &always(),
        "ask",
        &Operations(vec![Operation::Add(s("tries"), s("tries"), s("one"))]),
    );
    let mut session = Session::new(Arc::new(config));
    assert_eq!(session.output(), Ok(s("Password? (0 tries)")));
    assert_eq!(session.handle_empty_input(&Host), Ok(false));
    assert_eq!(session.handle_input("open", &Host), Ok(()));
    assert_eq!(session.need_stop(&Host), Ok(false));
    assert_eq!(session.output(), Ok(s("Password? (1 tries)")));
    assert_eq!(session.handle_input("sesame", &Host), Ok(()));
    assert_eq!(session.output(), Ok(s("Welcome, you said sesame")));
}

#[test]
fn steps_without_output_are_passed_through() {
    let mut config = SakikoConfig::new("Bot", "init");
    config.add_variable("n", VariableType::Int(0));
    config.add_variable("one", VariableType::Int(1));
    config.add_variable("three", VariableType::Int(3));
    config.add_step("init", &Output::default());
    config.add_step("count", &Output::default());
    config.add_step("done", &Output::new(s("counted to {}"), vec![s("n")]));
    config.add_transaction("init", "", &always(), "count", &nothing());
    // a loop of silent steps that ends when its guard fails
    config.add_transaction(
        "count",
        "",
        &guard(CompareType::Lt(s("n"), s("three"))),
        "count",
        &Operations(vec![Operation::Add(s("n"), s("n"), s("one"))]),
    );
    config.add_transaction("count", "", &always(), "done", &nothing());
    let mut session = Session::new(Arc::new(config));
    assert_eq!(session.need_stop(&Host), Ok(false));
    assert_eq!(session.output(), Ok(s("counted to 3")));
    // settled: going on again changes nothing
    assert_eq!(session.handle_empty_output(&Host), Ok(()));
    assert_eq!(session.output(), Ok(s("counted to 3")));
}

#[test]
fn silent_steps_can_lead_to_the_end() {
    let mut config = SakikoConfig::new("Bot", "a");
    config.add_step("a", &Output::default());
    config.add_step("b", &Output::default());
    config.add_transaction("a", "", &always(), "b", &nothing());
    config.add_transaction("b", "", &always(), "end", &nothing());
    let mut session = Session::new(Arc::new(config));
    assert_eq!(session.need_stop(&Host), Ok(true));
    assert!(session.is_end());
}

#[test]
fn a_silent_step_with_no_way_on_is_a_failure() {
    let mut config = SakikoConfig::new("Bot", "a");
    config.add_variable("n", VariableType::Int(0));
    config.add_variable("m", VariableType::Int(1));
    config.add_step("a", &Output::default());
    config.add_step("b", &Output::new(s("b"), vec![]));
    config.add_transaction("a", "word", &always(), "b", &nothing());
    config.add_transaction("a", "", &guard(CompareType::Eq(s("n"), s("m"))), "b", &nothing());
    let mut session = Session::new(Arc::new(config));
    assert_eq!(session.need_stop(&Host), Err(Error::NoValidTransition));
    assert_eq!(session.handle_empty_output(&Host), Err(Error::NoValidTransition));
    assert_eq!(session.handle_empty_input(&Host), Ok(false));
    assert!(!session.is_end());
    assert_eq!(
        Error::NoValidTransition.to_string(),
        "No valid transaction found for empty pattern"
    );
    // input can still lead on
    assert_eq!(session.handle_input("word", &Host), Ok(()));
    assert_eq!(session.output(), Ok(s("b")));
}

#[test]
fn a_failure_leaves_the_session_at_its_step() {
    let mut config = SakikoConfig::new("Bot", "ask");
    config.add_variable("n", VariableType::Int(0));
    config.add_variable("big", VariableType::Int(i32::MAX));
    config.add_variable("one", VariableType::Int(1));
    config.add_step("ask", &Output::new(s("n is {}"), vec![s("n")]));
    config.add_step("next", &Output::new(s("next"), vec![]));
    config.add_transaction(
        "ask",
        "go",
        &always(),
        "next",
        &Operations(vec![
            Operation::Add(s("n"), s("n"), s("one")),
            Operation::Add(s("n"), s("big"), s("one")),
        ]),
    );
    config.add_transaction("ask", "ask", &guard(CompareType::Eq(s("n"), s("nobody"))), "next", &nothing());
    let mut session = Session::new(Arc::new(config));
    assert_eq!(session.handle_input("go", &Host), Err(Error::Overflow));
    // the first instruction was carried out, the step was not left
    assert_eq!(session.output(), Ok(s("n is 1")));
    assert_eq!(session.handle_input("ask", &Host), Err(Error::VariableNotFound(s("nobody"))));
    assert_eq!(session.output(), Ok(s("n is 1")));
}

#[test]
fn a_script_that_was_not_checked_can_fail() {
    let mut config = SakikoConfig::new("Bot", "nowhere");
    config.add_step("a", &Output::new(s("{}"), vec![s("gone")]));
    config.add_transaction("a", "", &always(), "lost", &nothing());
    let config = Arc::new(config);
    let mut session = Session::new(config.clone());
    assert_eq!(session.output(), Err(Error::InvalidStep(s("nowhere"))));
    assert_eq!(session.need_stop(&Host), Err(Error::InvalidStep(s("nowhere"))));
    assert_eq!(session.handle_empty_input(&Host), Err(Error::InvalidStep(s("nowhere"))));
    assert_eq!(session.handle_input("x", &Host), Err(Error::InvalidStep(s("nowhere"))));
    assert_eq!(Error::InvalidStep(s("nowhere")).to_string(), "Invalid step");
    let mut config = SakikoConfig::new("Bot", "a");
    config.add_step("a", &Output::new(s("{}"), vec![s("gone")]));
    let session = Session::new(Arc::new(config));
    assert_eq!(session.output(), Err(Error::VariableNotFound(s("gone"))));
}

#[test]
fn sessions_of_one_script_do_not_share_variables() {
    let mut config = SakikoConfig::new("Bot", "ask");
    config.add_variable("heard", VariableType::Str(s("nothing")));
    config.add_step("ask", &Output::new(s("heard {}"), vec![s("heard")]));
    config.add_transaction("ask", ".*", &always(), "ask", &Operations(vec![Operation::Inp(s("heard"))]));
    let config = Arc::new(config);
    let mut one = Session::new(config.clone());
    let mut two = Session::new(config.clone());
    assert_eq!(one.handle_input("this", &Host), Ok(()));
    assert_eq!(two.handle_input("that", &Host), Ok(()));
    assert_eq!(one.output(), Ok(s("heard this")));
    assert_eq!(two.output(), Ok(s("heard that")));
    assert_eq!(Session::new(config.clone()).output(), Ok(s("heard nothing")));
    assert_eq!(config.get_variables().get("heard"), Some(&VariableType::Str(s("nothing"))));
    let copy = one.clone();
    assert_eq!(copy.output(), Ok(s("heard this")));
}

#[test]
fn floats_in_a_session() {
    let mut config = SakikoConfig::new("Bot", "ask");
    config.add_variable("x", VariableType::Float(float(0.0)));
    config.add_variable("two", VariableType::Float(float(2.0)));
    config.add_step("ask", &Output::new(s("x = {}"), vec![s("x")]));
    config.add_transaction(
        "ask",
        ".*",
        &always(),
        "ask",
        &Operations(vec![Operation::Inp(s("x")), Operation::Mul(s("x"), s("x"), s("two"))]),
    );
    let mut session = Session::new(Arc::new(config));
    assert_eq!(session.output(), Ok(s("x = 0.000")));
    assert_eq!(session.handle_input("1.25", &Host), Ok(()));
    assert_eq!(session.output(), Ok(s("x = 2.500")));
    assert_eq!(session.handle_input("many", &Host), Err(Error::InputParseFailure));
    assert_eq!(session.output(), Ok(s("x = 2.500")));
}

#[test]
fn a_conversation_turn_by_turn() {
    let mut config = SakikoConfig::new("Bot", "init");
    config.add_variable("name", VariableType::Str(s("")));
    config.add_step("init", &Output::default());
    config.add_step("ask", &Output::new(s("Who are you?"), vec![]));
    config.add_step("greet", &Output::new(s("Hi, {} !"), vec![s("name")]));
    config.add_transaction("init", "", &always(), "ask", &nothing());
    config.add_transaction("ask", ".+", &always(), "greet", &Operations(vec![Operation::Inp(s("name"))]));
    config.add_transaction("greet", "", &always(), "end", &nothing());
    let mut session = Session::new(Arc::new(config));
    assert_eq!(session.turn(&Host), Ok(Turn::Ask(s("Who are you?"))));
    // nothing was heard yet: the turn can be taken again and asks again
    assert_eq!(session.turn(&Host), Ok(Turn::Ask(s("Who are you?"))));
    assert_eq!(session.handle_input("", &Host), Err(Error::InvalidInput));
    assert_eq!(session.handle_input("Bot", &Host), Ok(()));
    assert_eq!(session.turn(&Host), Ok(Turn::Say(s("Hi, Bot !"))));
    assert_eq!(session.turn(&Host), Ok(Turn::End));
    assert_eq!(session.turn(&Host), Ok(Turn::End));
    assert!(session.is_end());
}

#[test]
fn a_turn_that_fails() {
    let mut config = SakikoConfig::new("Bot", "a");
    config.add_step("a", &Output::new(s("{}"), vec![s("gone")]));
    let mut session = Session::new(Arc::new(config));
    assert_eq!(session.turn(&Host), Err(Error::VariableNotFound(s("gone"))));
    let mut config = SakikoConfig::new("Bot", "a");
    config.add_step("a", &Output::default());
    let mut session = Session::new(Arc::new(config));
    assert_eq!(session.turn(&Host), Err(Error::NoValidTransition));
}
