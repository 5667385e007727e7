//! The instructions that change variables.
//!
//! An instruction is carried out in two steps. [`Operation::plan`] reads the
//! store and decides what the instruction amounts to there: a failure, a
//! value for one variable, or a request for something that is not computed
//! here (a random draw, a shuffle, a floating-point result). The plan is then
//! carried out on the store.

use vstd::prelude::*;
use crate::compare::{conclude, verdict_of};
use crate::dict::{lemma_deepen_keys, lemma_deepen_put, lookup, put, Dict};
use crate::error::{outcome, ruled_out, Error, Failure};
use crate::float::{
    answered, float_eq, float_lt, zero_text, Float, FloatTask, FloatUnit, FloatValue, Task,
};
use crate::text::{parse_i32, parse_int};
use crate::trusted::{draw, shuffle};
use crate::variable::{covers, Store, Value, VariableType, Variables};

verus! {

/// An instruction. Its operands are names of variables.
#[derive(Debug, PartialEq)]
pub enum Operation {
    /// `Add(a, b, c)`: a = b + c.
    Add(String, String, String),
    /// `Sub(a, b, c)`: a = b - c.
    Sub(String, String, String),
    /// `Mul(a, b, c)`: a = b * c.
    Mul(String, String, String),
    /// `Div(a, b, c)`: a = b / c.
    Div(String, String, String),
    /// `Get(a, b, c)`: a = b[c].
    Get(String, String, String),
    /// `Put(a, b, c)`: b[c] = a.
    Put(String, String, String),
    /// `Let(a, v)`: a = v, a value written in the script.
    Let(String, VariableType),
    /// `Cpy(a, b)`: a = b.
    Cpy(String, String),
    /// `Rnd(a, b, c)`: a = a number drawn at random between b and c.
    Rnd(String, String, String),
    /// `Shu(a)`: shuffles the list a.
    Shu(String),
    /// `Qry(a, b, c)`: a = the value under the key c in the dictionary b.
    Qry(String, String, String),
    /// `Ins(a, b, c)`: puts a under the key c in the dictionary b.
    Ins(String, String, String),
    /// `Inp(a)`: a = the input, read as a value of a's type.
    Inp(String),
}

/// An ordered list of instructions.
#[derive(Debug, PartialEq)]
pub struct Operations(pub Vec<Operation>);

/// What an instruction amounts to on a given store.
#[derive(Debug, PartialEq)]
pub enum Plan {
    /// It fails, and changes nothing.
    Fail(Error),
    /// It gives the variable this value.
    Assign(String, VariableType),
    /// It gives the variable an integer drawn at random, at least the first
    /// number and less than the second.
    Draw(String, i32, i32),
    /// It shuffles the list that the variable holds.
    Shuffle(String),
    /// It gives the variable the floating-point result of the task.
    Ask(String, FloatTask),
}

/// What a [`Plan`] is to the contracts.
pub enum Effect {
    Fail(Failure),
    Assign(Seq<char>, Value),
    Draw(Seq<char>, i32, i32),
    Shuffle(Seq<char>),
    Ask(Seq<char>, Task),
}

impl View for Plan {
    type V = Effect;

    open spec fn view(&self) -> Effect {
        match self {
            Plan::Fail(e) => Effect::Fail(e@),
            Plan::Assign(name, value) => Effect::Assign(name@, value@),
            Plan::Draw(name, low, high) => Effect::Draw(name@, *low, *high),
            Plan::Shuffle(name) => Effect::Shuffle(name@),
            Plan::Ask(name, task) => Effect::Ask(name@, task@),
        }
    }
}

/// The four arithmetic instructions.
pub enum Arithmetic {
    Add,
    Sub,
    Mul,
    Div,
}

/// The quotient of `x` by a non-zero `y`, rounded towards zero.
pub open spec fn quotient(x: int, y: int) -> int {
    if x >= 0 && y > 0 {
        x / y
    } else if x < 0 && y < 0 {
        (-x) / (-y)
    } else if x < 0 {
        -((-x) / y)
    } else {
        -(x / (-y))
    }
}

/// The integer that `kind` makes of `x` and `y`, before any limit of width.
pub open spec fn exact(kind: Arithmetic, x: int, y: int) -> int {
    match kind {
        Arithmetic::Add => x + y,
        Arithmetic::Sub => x - y,
        Arithmetic::Mul => x * y,
        Arithmetic::Div => quotient(x, y),
    }
}

/// The 32-bit result of `kind` on `x` and `y`: the exact result where it fits,
/// else a failure. Division by zero is a failure of its own.
pub open spec fn int_result(kind: Arithmetic, x: i32, y: i32) -> Result<i32, Failure> {
    if kind is Div && y == 0 {
        Err(Failure::DivisionByZero)
    } else if i32::MIN <= exact(kind, x as int, y as int) <= i32::MAX {
        Ok(exact(kind, x as int, y as int) as i32)
    } else {
        Err(Failure::Overflow)
    }
}

/// The task that `kind` is on floating-point numbers.
pub open spec fn float_task(kind: Arithmetic, x: FloatValue, y: FloatValue) -> Task {
    match kind {
        Arithmetic::Add => Task::Add(x, y),
        Arithmetic::Sub => Task::Subtract(x, y),
        Arithmetic::Mul => Task::Multiply(x, y),
        Arithmetic::Div => Task::Divide(x, y),
    }
}

/// The first of two names that `store` does not have.
pub open spec fn absent2(store: Store, x: Seq<char>, y: Seq<char>) -> Option<Seq<char>> {
    if !store.contains_key(x) {
        Some(x)
    } else if !store.contains_key(y) {
        Some(y)
    } else {
        None
    }
}

/// The first of three names that `store` does not have.
pub open spec fn absent3(store: Store, x: Seq<char>, y: Seq<char>, z: Seq<char>) -> Option<
    Seq<char>,
> {
    if !store.contains_key(x) {
        Some(x)
    } else {
        absent2(store, y, z)
    }
}

/// Whether `i` is a place in a list of length `len`.
pub open spec fn in_range(i: i32, len: nat) -> bool {
    0 <= i < len
}

/// `a = b op c`: on integers the 32-bit result, on floating-point numbers a
/// task for the host.
pub open spec fn arithmetic_effect(
    kind: Arithmetic,
    a: Seq<char>,
    b: Seq<char>,
    c: Seq<char>,
    store: Store,
) -> Effect {
    match absent3(store, b, c, a) {
        Some(name) => Effect::Fail(Failure::VariableNotFound(name)),
        None => match (store[a], store[b], store[c]) {
            (Value::Int(_), Value::Int(x), Value::Int(y)) => match int_result(kind, x, y) {
                Ok(n) => Effect::Assign(a, Value::Int(n)),
                Err(e) => Effect::Fail(e),
            },
            (Value::Float(_), Value::Float(x), Value::Float(y)) => Effect::Ask(
                a,
                float_task(kind, x, y),
            ),
            _ => Effect::Fail(Failure::TypeMismatch),
        },
    }
}

/// `a = b[c]`.
pub open spec fn get_effect(a: Seq<char>, b: Seq<char>, c: Seq<char>, store: Store) -> Effect {
    match absent3(store, b, c, a) {
        Some(name) => Effect::Fail(Failure::VariableNotFound(name)),
        None => match (store[a], store[b], store[c]) {
            (Value::Str(_), Value::StrVec(v), Value::Int(i)) => if in_range(i, v.len()) {
                Effect::Assign(a, Value::Str(v[i as int]))
            } else {
                Effect::Fail(Failure::IndexOutOfBounds)
            },
            (Value::Int(_), Value::IntVec(v), Value::Int(i)) => if in_range(i, v.len()) {
                Effect::Assign(a, Value::Int(v[i as int]))
            } else {
                Effect::Fail(Failure::IndexOutOfBounds)
            },
            (Value::Float(_), Value::FloatVec(v), Value::Int(i)) => if in_range(i, v.len()) {
                Effect::Assign(a, Value::Float(v[i as int]))
            } else {
                Effect::Fail(Failure::IndexOutOfBounds)
            },
            _ => Effect::Fail(Failure::TypeMismatch),
        },
    }
}

/// `b[c] = a`.
pub open spec fn put_effect(a: Seq<char>, b: Seq<char>, c: Seq<char>, store: Store) -> Effect {
    match absent3(store, a, c, b) {
        Some(name) => Effect::Fail(Failure::VariableNotFound(name)),
        None => match (store[a], store[b], store[c]) {
            (Value::Str(s), Value::StrVec(v), Value::Int(i)) => if in_range(i, v.len()) {
                Effect::Assign(b, Value::StrVec(v.update(i as int, s)))
            } else {
                Effect::Fail(Failure::IndexOutOfBounds)
            },
            (Value::Int(n), Value::IntVec(v), Value::Int(i)) => if in_range(i, v.len()) {
                Effect::Assign(b, Value::IntVec(v.update(i as int, n)))
            } else {
                Effect::Fail(Failure::IndexOutOfBounds)
            },
            (Value::Float(f), Value::FloatVec(v), Value::Int(i)) => if in_range(i, v.len()) {
                Effect::Assign(b, Value::FloatVec(v.update(i as int, f)))
            } else {
                Effect::Fail(Failure::IndexOutOfBounds)
            },
            _ => Effect::Fail(Failure::TypeMismatch),
        },
    }
}

/// `a = value`, for a value of a's type.
pub open spec fn let_effect(a: Seq<char>, value: Value, store: Store) -> Effect {
    if !store.contains_key(a) {
        Effect::Fail(Failure::VariableNotFound(a))
    } else if store[a].kind() == value.kind() {
        Effect::Assign(a, value)
    } else {
        Effect::Fail(Failure::TypeMismatch)
    }
}

/// `a = b`, for variables of one type.
pub open spec fn copy_effect(a: Seq<char>, b: Seq<char>, store: Store) -> Effect {
    match absent2(store, b, a) {
        Some(name) => Effect::Fail(Failure::VariableNotFound(name)),
        None => if store[a].kind() == store[b].kind() {
            Effect::Assign(a, store[b])
        } else {
            Effect::Fail(Failure::TypeMismatch)
        },
    }
}

/// `a = random(b, c)`: where b and c are equal, that number; else a draw from
/// the smaller, included, to the greater, not included.
pub open spec fn random_effect(a: Seq<char>, b: Seq<char>, c: Seq<char>, store: Store) -> Effect {
    match absent3(store, b, c, a) {
        Some(name) => Effect::Fail(Failure::VariableNotFound(name)),
        None => match (store[a], store[b], store[c]) {
            (Value::Int(_), Value::Int(x), Value::Int(y)) => if x == y {
                Effect::Assign(a, Value::Int(x))
            } else if x < y {
                Effect::Draw(a, x, y)
            } else {
                Effect::Draw(a, y, x)
            },
            (Value::Float(_), Value::Float(x), Value::Float(y)) => {
                let low = if float_lt(x.bits, y.bits) {
                    x
                } else {
                    y
                };
                let high = if float_lt(x.bits, y.bits) {
                    y
                } else {
                    x
                };
                if float_eq(low.bits, high.bits) {
                    Effect::Assign(a, Value::Float(low))
                } else {
                    Effect::Ask(a, Task::Between(low, high))
                }
            },
            _ => Effect::Fail(Failure::TypeMismatch),
        },
    }
}

/// `shuffle(a)`, for a list.
pub open spec fn shuffle_effect(a: Seq<char>, store: Store) -> Effect {
    if !store.contains_key(a) {
        Effect::Fail(Failure::VariableNotFound(a))
    } else if store[a].is_vector() {
        Effect::Shuffle(a)
    } else {
        Effect::Fail(Failure::TypeMismatch)
    }
}

/// `a = input`: a string takes the input as it is, an integer the number it
/// denotes, a floating-point number what the host reads in it.
pub open spec fn input_effect(a: Seq<char>, store: Store) -> Effect {
    match absent2(store, "input"@, a) {
        Some(name) => Effect::Fail(Failure::VariableNotFound(name)),
        None => match (store[a], store["input"@]) {
            (Value::Str(_), Value::Str(text)) => Effect::Assign(a, Value::Str(text)),
            (Value::Int(_), Value::Str(text)) => match parse_int(text) {
                Some(n) => Effect::Assign(a, Value::Int(n)),
                None => Effect::Fail(Failure::InputParseFailure),
            },
            (Value::Float(_), Value::Str(text)) => Effect::Ask(a, Task::Parse(text)),
            _ => Effect::Fail(Failure::TypeMismatch),
        },
    }
}

/// `a = b[c]` for a dictionary b: the value under the key, or where the key
/// is absent the empty string, the integer 0 or the number zero.
pub open spec fn query_effect(a: Seq<char>, b: Seq<char>, c: Seq<char>, store: Store) -> Effect {
    match absent3(store, b, c, a) {
        Some(name) => Effect::Fail(Failure::VariableNotFound(name)),
        None => match (store[a], store[b], store[c]) {
            (Value::Str(_), Value::StrDic(d), Value::Str(key)) => Effect::Assign(
                a,
                Value::Str(
                    match lookup(d, key) {
                        Some(s) => s,
                        None => Seq::empty(),
                    },
                ),
            ),
            (Value::Int(_), Value::IntDic(d), Value::Str(key)) => Effect::Assign(
                a,
                Value::Int(
                    match lookup(d, key) {
                        Some(n) => n,
                        None => 0,
                    },
                ),
            ),
            (Value::Float(_), Value::FloatDic(d), Value::Str(key)) => Effect::Assign(
                a,
                Value::Float(
                    match lookup(d, key) {
                        Some(f) => f,
                        None => FloatValue { bits: 0, text: zero_text() },
                    },
                ),
            ),
            _ => Effect::Fail(Failure::TypeMismatch),
        },
    }
}

/// `b[c] = a` for a dictionary b.
pub open spec fn insert_effect(a: Seq<char>, b: Seq<char>, c: Seq<char>, store: Store) -> Effect {
    match absent3(store, a, c, b) {
        Some(name) => Effect::Fail(Failure::VariableNotFound(name)),
        None => match (store[a], store[b], store[c]) {
            (Value::Str(s), Value::StrDic(d), Value::Str(key)) => Effect::Assign(
                b,
                Value::StrDic(put(d, key, s)),
            ),
            (Value::Int(n), Value::IntDic(d), Value::Str(key)) => Effect::Assign(
                b,
                Value::IntDic(put(d, key, n)),
            ),
            (Value::Float(f), Value::FloatDic(d), Value::Str(key)) => Effect::Assign(
                b,
                Value::FloatDic(put(d, key, f)),
            ),
            _ => Effect::Fail(Failure::TypeMismatch),
        },
    }
}

/// What the instruction `op` amounts to on `store`.
pub open spec fn effect(op: Operation, store: Store) -> Effect {
    match op {
        Operation::Add(a, b, c) => arithmetic_effect(Arithmetic::Add, a@, b@, c@, store),
        Operation::Sub(a, b, c) => arithmetic_effect(Arithmetic::Sub, a@, b@, c@, store),
        Operation::Mul(a, b, c) => arithmetic_effect(Arithmetic::Mul, a@, b@, c@, store),
        Operation::Div(a, b, c) => arithmetic_effect(Arithmetic::Div, a@, b@, c@, store),
        Operation::Get(a, b, c) => get_effect(a@, b@, c@, store),
        Operation::Put(a, b, c) => put_effect(a@, b@, c@, store),
        Operation::Let(a, value) => let_effect(a@, value@, store),
        Operation::Cpy(a, b) => copy_effect(a@, b@, store),
        Operation::Rnd(a, b, c) => random_effect(a@, b@, c@, store),
        Operation::Shu(a) => shuffle_effect(a@, store),
        Operation::Qry(a, b, c) => query_effect(a@, b@, c@, store),
        Operation::Ins(a, b, c) => insert_effect(a@, b@, c@, store),
        Operation::Inp(a) => input_effect(a@, store),
    }
}

/// Whether `after` is a list of the type of `before` that holds the same
/// items, each as often, in any order.
pub open spec fn reordered(before: Value, after: Value) -> bool {
    match (before, after) {
        (Value::StrVec(x), Value::StrVec(y)) => x.to_multiset() == y.to_multiset(),
        (Value::IntVec(x), Value::IntVec(y)) => x.to_multiset() == y.to_multiset(),
        (Value::FloatVec(x), Value::FloatVec(y)) => x.to_multiset() == y.to_multiset(),
        _ => false,
    }
}

/// Whether `unit` answers a task that `asked` is the model of with `answer`.
pub open spec fn unit_answers<U: FloatUnit>(unit: &U, asked: Task, answer: Option<Float>) -> bool {
    exists|task: FloatTask| task@ == asked && #[trigger] answered(task, unit, answer)
}

/// Whether carrying out `effect` on the store `pre`, with `unit` for the
/// floating-point results, can end with the result `r` and the store `post`.
/// A failure changes nothing. A draw stores an integer of its range, a
/// shuffle the same items in some order. A task is put to `unit`: the number
/// stored is what `unit` answers, and the one failure is a text in which
/// `unit` reads no number.
pub open spec fn admits<U: FloatUnit>(
    unit: &U,
    effect: Effect,
    pre: Store,
    r: Result<(), Failure>,
    post: Store,
) -> bool {
    match effect {
        Effect::Fail(e) => r == Err::<(), Failure>(e) && post == pre,
        Effect::Assign(name, value) => r is Ok && post == pre.insert(name, value),
        Effect::Draw(name, low, high) => r is Ok && exists|x: i32|
            low <= x < high && post == #[trigger] pre.insert(name, Value::Int(x)),
        Effect::Shuffle(name) => r is Ok && exists|v: Value|
            reordered(pre[name], v) && post == #[trigger] pre.insert(name, v),
        Effect::Ask(name, asked) => exists|answer: Option<Float>| #[trigger]
            unit_answers(unit, asked, answer) && match answer {
                Some(f) => r is Ok && post == pre.insert(name, Value::Float(f@)),
                None => r == Err::<(), Failure>(Failure::InputParseFailure) && post == pre,
            },
    }
}

/// Whether `effect` can be carried out on `store`: it names a variable of the
/// store, a draw has a range to draw from, a shuffle has a list.
pub open spec fn feasible(effect: Effect, store: Store) -> bool {
    match effect {
        Effect::Fail(_) => true,
        Effect::Assign(name, value) => store.contains_key(name) && store[name].kind()
            == value.kind(),
        Effect::Draw(name, low, high) => store.contains_key(name) && store[name] is Int && low
            < high,
        Effect::Shuffle(name) => store.contains_key(name) && store[name].is_vector(),
        Effect::Ask(name, _) => store.contains_key(name) && store[name] is Float,
    }
}

/// Whether the two stores have the same variables, each of the same type.
pub open spec fn same_shape(pre: Store, post: Store) -> bool {
    &&& forall|k: Seq<char>| pre.contains_key(k) <==> post.contains_key(k)
    &&& forall|k: Seq<char>| pre.contains_key(k) ==> pre[k].kind() == #[trigger] post[k].kind()
}

/// Shuffling a list keeps its type and its items: after `Shu(a)` has been
/// carried out, `a` holds the items it held, each as often, in some order, and
/// no other variable has changed.
pub proof fn lemma_shuffle_keeps_items<U: FloatUnit>(
    unit: &U,
    a: Seq<char>,
    pre: Store,
    r: Result<(), Failure>,
    post: Store,
)
    requires
        pre.contains_key(a),
        pre[a].is_vector(),
        admits(unit, shuffle_effect(a, pre), pre, r, post),
    ensures
        r is Ok,
        post.contains_key(a),
        post[a].kind() == pre[a].kind(),
        reordered(pre[a], post[a]),
        forall|k: Seq<char>| k != a ==> (post.contains_key(k) <==> pre.contains_key(k)),
        forall|k: Seq<char>| k != a && pre.contains_key(k) ==> post[k] == pre[k],
{
}

/// A draw between two equal integers is that integer: after `Rnd(a, b, c)`
/// has been carried out on integers `b` and `c` that are equal, `a` holds
/// their value, whatever the draw.
pub proof fn lemma_draw_between_equals<U: FloatUnit>(
    unit: &U,
    a: Seq<char>,
    b: Seq<char>,
    c: Seq<char>,
    pre: Store,
    r: Result<(), Failure>,
    post: Store,
)
    requires
        pre.contains_key(a) && pre.contains_key(b) && pre.contains_key(c),
        pre[a] is Int,
        pre[b] is Int,
        pre[c] == pre[b],
        admits(unit, random_effect(a, b, c, pre), pre, r, post),
    ensures
        r is Ok,
        post == pre.insert(a, pre[b]),
{
}

/// A draw between two floating-point numbers that are equal in value is the
/// second of them, and the host is not asked.
pub proof fn lemma_draw_between_equal_floats<U: FloatUnit>(
    unit: &U,
    a: Seq<char>,
    b: Seq<char>,
    c: Seq<char>,
    pre: Store,
    r: Result<(), Failure>,
    post: Store,
)
    requires
        pre.contains_key(a) && pre.contains_key(b) && pre.contains_key(c),
        pre[a] is Float,
        pre[b] is Float,
        pre[c] is Float,
        float_eq(pre[b]->Float_0.bits, pre[c]->Float_0.bits),
        admits(unit, random_effect(a, b, c, pre), pre, r, post),
    ensures
        r is Ok,
        post == pre.insert(a, pre[c]),
{
}

/// A draw between two integers that differ is at least the smaller and less
/// than the greater.
pub proof fn lemma_draw_in_range<U: FloatUnit>(
    unit: &U,
    a: Seq<char>,
    b: Seq<char>,
    c: Seq<char>,
    pre: Store,
    r: Result<(), Failure>,
    post: Store,
)
    requires
        pre.contains_key(a) && pre.contains_key(b) && pre.contains_key(c),
        pre[a] is Int,
        pre[b] is Int,
        pre[c] is Int,
        pre[b] != pre[c],
        admits(unit, random_effect(a, b, c, pre), pre, r, post),
    ensures
        r is Ok,
        post.contains_key(a),
        post[a] matches Value::Int(x) && ({
            let low = if pre[b]->Int_0 < pre[c]->Int_0 {
                pre[b]->Int_0
            } else {
                pre[c]->Int_0
            };
            let high = if pre[b]->Int_0 < pre[c]->Int_0 {
                pre[c]->Int_0
            } else {
                pre[b]->Int_0
            };
            low <= x < high
        }),
        forall|k: Seq<char>| k != a && pre.contains_key(k) ==> post[k] == pre[k],
{
}

/// Stores of the same shape as a third are of the same shape.
pub proof fn lemma_same_shape_chain(a: Store, b: Store, c: Store)
    requires
        same_shape(a, b),
        same_shape(b, c),
    ensures
        same_shape(a, c),
{
    assert forall|k: Seq<char>| a.contains_key(k) implies a[k].kind() == #[trigger] c[k].kind() by {
        assert(b.contains_key(k));
        assert(a[k].kind() == b[k].kind());
    }
}

/// What an instruction amounts to on a store can be carried out on it.
pub proof fn lemma_effect_feasible(op: Operation, store: Store)
    ensures
        feasible(effect(op, store), store),
{
}

/// Carrying out an effect on a store it fits adds no variable, removes none,
/// and changes no variable's type.
pub proof fn lemma_admits_keeps_shape<U: FloatUnit>(
    unit: &U,
    e: Effect,
    pre: Store,
    r: Result<(), Failure>,
    post: Store,
)
    requires
        feasible(e, pre),
        admits(unit, e, pre, r, post),
    ensures
        same_shape(pre, post),
{
}

fn fetch<'a>(variables: &'a Variables, name: &String) -> (r: Result<&'a VariableType, Error>)
    ensures
        match r {
            Ok(value) => variables@.contains_key(name@) && variables@[name@] == value@,
            Err(e) => !variables@.contains_key(name@) && e@ == Failure::VariableNotFound(name@),
        },
{
    match variables.get(name.as_str()) {
        Some(value) => Ok(value),
        None => Err(Error::VariableNotFound(name.clone())),
    }
}

fn place(i: i32, len: usize) -> (r: Option<usize>)
    ensures
        match r {
            Some(at) => in_range(i, len as nat) && at == i,
            None => !in_range(i, len as nat),
        },
{
    if i >= 0 && (i as usize) < len {
        Some(i as usize)
    } else {
        None
    }
}

fn with_string(v: &Vec<String>, at: usize, s: &String) -> (r: Vec<String>)
    requires
        at < v.len(),
    ensures
        r.deep_view() == v.deep_view().update(at as int, s@),
{
    let mut r = v.clone();
    assert(r.deep_view() =~= v.deep_view());
    r.set(at, s.clone());
    assert(r.deep_view() =~= v.deep_view().update(at as int, s@));
    r
}

fn with_int(v: &Vec<i32>, at: usize, n: i32) -> (r: Vec<i32>)
    requires
        at < v.len(),
    ensures
        r@ == v@.update(at as int, n),
{
    let mut r = v.clone();
    assert(r@ =~= v@);
    r.set(at, n);
    r
}

fn with_float(v: &Vec<Float>, at: usize, f: &Float) -> (r: Vec<Float>)
    requires
        at < v.len(),
    ensures
        r.deep_view() == v.deep_view().update(at as int, f@),
{
    let mut r = v.clone();
    assert(r.deep_view() =~= v.deep_view());
    r.set(at, f.clone());
    assert(r.deep_view() =~= v.deep_view().update(at as int, f@));
    r
}

fn compute(kind: &Operation, x: i32, y: i32) -> (r: Result<i32, Error>)
    requires
        kind is Add || kind is Sub || kind is Mul || kind is Div,
    ensures
        outcome(r) == int_result(arithmetic_of(*kind), x, y),
{
    let r = match kind {
        Operation::Add(_, _, _) => x.checked_add(y),
        Operation::Sub(_, _, _) => x.checked_sub(y),
        Operation::Mul(_, _, _) => x.checked_mul(y),
        _ => {
            if y == 0 {
                return Err(Error::DivisionByZero);
            }
            x.checked_div(y)
        },
    };
    match r {
        Some(n) => Ok(n),
        None => Err(Error::Overflow),
    }
}

/// Which arithmetic an arithmetic instruction does.
pub open spec fn arithmetic_of(op: Operation) -> Arithmetic {
    match op {
        Operation::Add(_, _, _) => Arithmetic::Add,
        Operation::Sub(_, _, _) => Arithmetic::Sub,
        Operation::Mul(_, _, _) => Arithmetic::Mul,
        _ => Arithmetic::Div,
    }
}

/// What checking `a = b op c` gives: the three variables exist and are
/// numbers of one type.
pub open spec fn arithmetic_audit(a: Seq<char>, b: Seq<char>, c: Seq<char>, store: Store) -> Result<
    (),
    Failure,
> {
    match absent3(store, a, b, c) {
        Some(name) => Err(Failure::VariableNotFound(name)),
        None => if store[a].kind() == store[b].kind() && store[a].kind() == store[c].kind()
            && store[a].is_number() {
            Ok(())
        } else {
            Err(Failure::TypeMismatch)
        },
    }
}

/// What checking `a = b[c]` or `b[c] = a` gives: b is a list of values of
/// a's type, and c an integer that is a place in it.
pub open spec fn element_audit(a: Seq<char>, b: Seq<char>, c: Seq<char>, store: Store) -> Result<
    (),
    Failure,
> {
    match absent3(store, a, b, c) {
        Some(name) => Err(Failure::VariableNotFound(name)),
        None => {
            let len = match (store[a], store[b], store[c]) {
                (Value::Str(_), Value::StrVec(v), Value::Int(_)) => Some(v.len()),
                (Value::Int(_), Value::IntVec(v), Value::Int(_)) => Some(v.len()),
                (Value::Float(_), Value::FloatVec(v), Value::Int(_)) => Some(v.len()),
                _ => None,
            };
            match len {
                None => Err(Failure::TypeMismatch),
                Some(len) => if in_range(store[c]->Int_0, len) {
                    Ok(())
                } else {
                    Err(Failure::IndexOutOfBounds)
                },
            }
        },
    }
}

/// What checking two operands of one type gives, the first looked up first.
pub open spec fn same_type_audit(x: Seq<char>, y: Seq<char>, store: Store) -> Result<(), Failure> {
    match absent2(store, x, y) {
        Some(name) => Err(Failure::VariableNotFound(name)),
        None => if store[x].kind() == store[y].kind() {
            Ok(())
        } else {
            Err(Failure::TypeMismatch)
        },
    }
}

/// What checking `a = value` gives.
pub open spec fn let_audit(a: Seq<char>, value: Value, store: Store) -> Result<(), Failure> {
    if !store.contains_key(a) {
        Err(Failure::VariableNotFound(a))
    } else if store[a].kind() == value.kind() {
        Ok(())
    } else {
        Err(Failure::TypeMismatch)
    }
}

/// What checking `a = random(b, c)` gives.
pub open spec fn random_audit(a: Seq<char>, b: Seq<char>, c: Seq<char>, store: Store) -> Result<
    (),
    Failure,
> {
    match absent3(store, b, c, a) {
        Some(name) => Err(Failure::VariableNotFound(name)),
        None => if store[a].kind() == store[b].kind() && store[a].kind() == store[c].kind()
            && store[a].is_number() {
            Ok(())
        } else {
            Err(Failure::TypeMismatch)
        },
    }
}

/// What checking `shuffle(a)` gives.
pub open spec fn shuffle_audit(a: Seq<char>, store: Store) -> Result<(), Failure> {
    if !store.contains_key(a) {
        Err(Failure::VariableNotFound(a))
    } else if store[a].is_vector() {
        Ok(())
    } else {
        Err(Failure::TypeMismatch)
    }
}

/// What checking `a = input` gives: a is a string or a number.
pub open spec fn input_audit(a: Seq<char>, store: Store) -> Result<(), Failure> {
    if !store.contains_key(a) {
        Err(Failure::VariableNotFound(a))
    } else if store[a] is Str || store[a].is_number() {
        Ok(())
    } else {
        Err(Failure::TypeMismatch)
    }
}

/// What checking a query or an insertion gives: b is a dictionary of values
/// of a's type, and c a string.
pub open spec fn entry_audit(a: Seq<char>, b: Seq<char>, c: Seq<char>, store: Store) -> Result<
    (),
    Failure,
> {
    match absent3(store, a, b, c) {
        Some(name) => Err(Failure::VariableNotFound(name)),
        None => match (store[a], store[b], store[c]) {
            (Value::Str(_), Value::StrDic(_), Value::Str(_)) => Ok(()),
            (Value::Int(_), Value::IntDic(_), Value::Str(_)) => Ok(()),
            (Value::Float(_), Value::FloatDic(_), Value::Str(_)) => Ok(()),
            _ => Err(Failure::TypeMismatch),
        },
    }
}

/// What checking the instruction `op` against `store` gives.
pub open spec fn audit(op: Operation, store: Store) -> Result<(), Failure> {
    match op {
        Operation::Add(a, b, c)
        | Operation::Sub(a, b, c)
        | Operation::Mul(a, b, c)
        | Operation::Div(a, b, c) => arithmetic_audit(a@, b@, c@, store),
        Operation::Get(a, b, c) | Operation::Put(a, b, c) => element_audit(a@, b@, c@, store),
        Operation::Let(a, value) => let_audit(a@, value@, store),
        Operation::Cpy(a, b) => same_type_audit(a@, b@, store),
        Operation::Rnd(a, b, c) => random_audit(a@, b@, c@, store),
        Operation::Shu(a) => shuffle_audit(a@, store),
        Operation::Qry(a, b, c) | Operation::Ins(a, b, c) => entry_audit(a@, b@, c@, store),
        Operation::Inp(a) => input_audit(a@, store),
    }
}

/// An instruction that passed its check against the declared variables does
/// not fail for a missing variable or a wrong type on any store that has
/// those variables with their types and holds the input as a string.
pub proof fn lemma_audited_effect(op: Operation, declared: Store, store: Store)
    requires
        audit(op, declared) is Ok,
        covers(declared, store),
        store.contains_key("input"@),
        store["input"@] is Str,
    ensures
        effect(op, store) matches Effect::Fail(e) ==> !ruled_out(e),
{
    match op {
        Operation::Add(a, b, c)
        | Operation::Sub(a, b, c)
        | Operation::Mul(a, b, c)
        | Operation::Div(a, b, c)
        | Operation::Get(a, b, c)
        | Operation::Put(a, b, c)
        | Operation::Rnd(a, b, c)
        | Operation::Qry(a, b, c)
        | Operation::Ins(a, b, c) => {
            assert(declared.contains_key(a@) && declared.contains_key(b@) && declared.contains_key(
                c@,
            ));
        },
        Operation::Cpy(a, b) => {
            assert(declared.contains_key(a@) && declared.contains_key(b@));
        },
        Operation::Let(a, _) | Operation::Shu(a) | Operation::Inp(a) => {
            assert(declared.contains_key(a@));
        },
    }
}

/// A store of the shape of one that has the declared variables has them too.
pub proof fn lemma_covers_shape(declared: Store, pre: Store, post: Store)
    requires
        covers(declared, pre),
        same_shape(pre, post),
    ensures
        covers(declared, post),
{
    assert forall|k: Seq<char>| #[trigger] declared.contains_key(k) implies post.contains_key(k)
        && post[k].kind() == declared[k].kind() by {
        assert(pre.contains_key(k));
        assert(pre[k].kind() == post[k].kind());
    }
}

fn with_entry_string(d: &Dict<String>, key: &String, s: &String) -> (r: Dict<String>)
    ensures
        r.deep_view() == put(d.deep_view(), key@, s@),
{
    let mut r = d.clone();
    let _ = r.len();
    let ghost before = r@;
    assert(r.deep_view() =~= d.deep_view());
    let value = s.clone();
    proof {
        lemma_deepen_put(before, key@, value);
    }
    r.insert(key.clone(), value);
    r
}

fn with_entry_int(d: &Dict<i32>, key: &String, n: i32) -> (r: Dict<i32>)
    ensures
        r@ == put(d@, key@, n),
{
    let mut r = d.clone();
    assert forall|i: int| 0 <= i < r@.len() implies r@[i] == d@[i] by {
        assert(cloned(d@[i].1, r@[i].1));
    }
    assert(r@ =~= d@);
    r.insert(key.clone(), n);
    r
}

fn with_entry_float(d: &Dict<Float>, key: &String, f: &Float) -> (r: Dict<Float>)
    ensures
        r.deep_view() == put(d.deep_view(), key@, f@),
{
    let mut r = d.clone();
    let _ = r.len();
    let ghost before = r@;
    assert(r.deep_view() =~= d.deep_view());
    let value = f.clone();
    proof {
        lemma_deepen_put(before, key@, value);
    }
    r.insert(key.clone(), value);
    r
}

impl Operation {
    fn plan_arithmetic(&self, a: &String, b: &String, c: &String, variables: &Variables) -> (p:
        Plan)
        requires
            self is Add || self is Sub || self is Mul || self is Div,
        ensures
            p@ == arithmetic_effect(arithmetic_of(*self), a@, b@, c@, variables@),
    {
        let y = match fetch(variables, b) {
            Ok(v) => v,
            Err(e) => {
                return Plan::Fail(e);
            },
        };
        let z = match fetch(variables, c) {
            Ok(v) => v,
            Err(e) => {
                return Plan::Fail(e);
            },
        };
        let x = match fetch(variables, a) {
            Ok(v) => v,
            Err(e) => {
                return Plan::Fail(e);
            },
        };
        match (x, y, z) {
            (VariableType::Int(_), VariableType::Int(m), VariableType::Int(n)) => match compute(
                self,
                *m,
                *n,
            ) {
                Ok(k) => Plan::Assign(a.clone(), VariableType::Int(k)),
                Err(e) => Plan::Fail(e),
            },
            (VariableType::Float(_), VariableType::Float(m), VariableType::Float(n)) => {
                let task = match self {
                    Operation::Add(_, _, _) => FloatTask::Add(m.clone(), n.clone()),
                    Operation::Sub(_, _, _) => FloatTask::Subtract(m.clone(), n.clone()),
                    Operation::Mul(_, _, _) => FloatTask::Multiply(m.clone(), n.clone()),
                    _ => FloatTask::Divide(m.clone(), n.clone()),
                };
                Plan::Ask(a.clone(), task)
            },
            _ => Plan::Fail(Error::TypeMismatch),
        }
    }

    fn plan_get(a: &String, b: &String, c: &String, variables: &Variables) -> (p: Plan)
        ensures
            p@ == get_effect(a@, b@, c@, variables@),
    {
        let y = match fetch(variables, b) {
            Ok(v) => v,
            Err(e) => {
                return Plan::Fail(e);
            },
        };
        let z = match fetch(variables, c) {
            Ok(v) => v,
            Err(e) => {
                return Plan::Fail(e);
            },
        };
        let x = match fetch(variables, a) {
            Ok(v) => v,
            Err(e) => {
                return Plan::Fail(e);
            },
        };
        match (x, y, z) {
            (VariableType::Str(_), VariableType::StrVec(v), VariableType::Int(i)) => match place(
                *i,
                v.len(),
            ) {
                Some(at) => Plan::Assign(a.clone(), VariableType::Str(v[at].clone())),
                None => Plan::Fail(Error::IndexOutOfBounds),
            },
            (VariableType::Int(_), VariableType::IntVec(v), VariableType::Int(i)) => match place(
                *i,
                v.len(),
            ) {
                Some(at) => Plan::Assign(a.clone(), VariableType::Int(v[at])),
                None => Plan::Fail(Error::IndexOutOfBounds),
            },
            (VariableType::Float(_), VariableType::FloatVec(v), VariableType::Int(i)) => match place(
                *i,
                v.len(),
            ) {
                Some(at) => Plan::Assign(a.clone(), VariableType::Float(v[at].clone())),
                None => Plan::Fail(Error::IndexOutOfBounds),
            },
            _ => Plan::Fail(Error::TypeMismatch),
        }
    }

    fn plan_put(a: &String, b: &String, c: &String, variables: &Variables) -> (p: Plan)
        ensures
            p@ == put_effect(a@, b@, c@, variables@),
    {
        let x = match fetch(variables, a) {
            Ok(v) => v,
            Err(e) => {
                return Plan::Fail(e);
            },
        };
        let z = match fetch(variables, c) {
            Ok(v) => v,
            Err(e) => {
                return Plan::Fail(e);
            },
        };
        let y = match fetch(variables, b) {
            Ok(v) => v,
            Err(e) => {
                return Plan::Fail(e);
            },
        };
        match (x, y, z) {
            (VariableType::Str(s), VariableType::StrVec(v), VariableType::Int(i)) => match place(
                *i,
                v.len(),
            ) {
                Some(at) => Plan::Assign(b.clone(), VariableType::StrVec(with_string(v, at, s))),
                None => Plan::Fail(Error::IndexOutOfBounds),
            },
            (VariableType::Int(n), VariableType::IntVec(v), VariableType::Int(i)) => match place(
                *i,
                v.len(),
            ) {
                Some(at) => Plan::Assign(b.clone(), VariableType::IntVec(with_int(v, at, *n))),
                None => Plan::Fail(Error::IndexOutOfBounds),
            },
            (VariableType::Float(f), VariableType::FloatVec(v), VariableType::Int(i)) => match place(
                *i,
                v.len(),
            ) {
                Some(at) => Plan::Assign(b.clone(), VariableType::FloatVec(with_float(v, at, f))),
                None => Plan::Fail(Error::IndexOutOfBounds),
            },
            _ => Plan::Fail(Error::TypeMismatch),
        }
    }

    fn plan_let(a: &String, value: &VariableType, variables: &Variables) -> (p: Plan)
        ensures
            p@ == let_effect(a@, value@, variables@),
    {
        let x = match fetch(variables, a) {
            Ok(v) => v,
            Err(e) => {
                return Plan::Fail(e);
            },
        };
        if x.is_same_type(value) {
            Plan::Assign(a.clone(), value.clone())
        } else {
            Plan::Fail(Error::TypeMismatch)
        }
    }

    fn plan_copy(a: &String, b: &String, variables: &Variables) -> (p: Plan)
        ensures
            p@ == copy_effect(a@, b@, variables@),
    {
        let y = match fetch(variables, b) {
            Ok(v) => v,
            Err(e) => {
                return Plan::Fail(e);
            },
        };
        let x = match fetch(variables, a) {
            Ok(v) => v,
            Err(e) => {
                return Plan::Fail(e);
            },
        };
        if x.is_same_type(y) {
            Plan::Assign(a.clone(), y.clone())
        } else {
            Plan::Fail(Error::TypeMismatch)
        }
    }

    fn plan_random(a: &String, b: &String, c: &String, variables: &Variables) -> (p: Plan)
        ensures
            p@ == random_effect(a@, b@, c@, variables@),
    {
        let y = match fetch(variables, b) {
            Ok(v) => v,
            Err(e) => {
                return Plan::Fail(e);
            },
        };
        let z = match fetch(variables, c) {
            Ok(v) => v,
            Err(e) => {
                return Plan::Fail(e);
            },
        };
        let x = match fetch(variables, a) {
            Ok(v) => v,
            Err(e) => {
                return Plan::Fail(e);
            },
        };
        match (x, y, z) {
            (VariableType::Int(_), VariableType::Int(m), VariableType::Int(n)) => {
                if *m == *n {
                    Plan::Assign(a.clone(), VariableType::Int(*m))
                } else if *m < *n {
                    Plan::Draw(a.clone(), *m, *n)
                } else {
                    Plan::Draw(a.clone(), *n, *m)
                }
            },
            (VariableType::Float(_), VariableType::Float(m), VariableType::Float(n)) => {
                let (low, high) = if m.less(n) {
                    (m, n)
                } else {
                    (n, m)
                };
                if low.equals(high) {
                    Plan::Assign(a.clone(), VariableType::Float(low.clone()))
                } else {
                    Plan::Ask(a.clone(), FloatTask::Between(low.clone(), high.clone()))
                }
            },
            _ => Plan::Fail(Error::TypeMismatch),
        }
    }

    fn plan_shuffle(a: &String, variables: &Variables) -> (p: Plan)
        ensures
            p@ == shuffle_effect(a@, variables@),
    {
        let x = match fetch(variables, a) {
            Ok(v) => v,
            Err(e) => {
                return Plan::Fail(e);
            },
        };
        if x.is_vector() {
            Plan::Shuffle(a.clone())
        } else {
            Plan::Fail(Error::TypeMismatch)
        }
    }

    fn plan_input(a: &String, variables: &Variables) -> (p: Plan)
        ensures
            p@ == input_effect(a@, variables@),
    {
        let input = match variables.get("input") {
            Some(v) => v,
            None => {
                return Plan::Fail(Error::VariableNotFound(String::from_str("input")));
            },
        };
        let x = match fetch(variables, a) {
            Ok(v) => v,
            Err(e) => {
                return Plan::Fail(e);
            },
        };
        match (x, input) {
            (VariableType::Str(_), VariableType::Str(text)) => Plan::Assign(
                a.clone(),
                VariableType::Str(text.clone()),
            ),
            (VariableType::Int(_), VariableType::Str(text)) => match parse_i32(text.as_str()) {
                Some(n) => Plan::Assign(a.clone(), VariableType::Int(n)),
                None => Plan::Fail(Error::InputParseFailure),
            },
            (VariableType::Float(_), VariableType::Str(text)) => Plan::Ask(
                a.clone(),
                FloatTask::Parse(text.clone()),
            ),
            _ => Plan::Fail(Error::TypeMismatch),
        }
    }

    fn plan_query(a: &String, b: &String, c: &String, variables: &Variables) -> (p: Plan)
        ensures
            p@ == query_effect(a@, b@, c@, variables@),
    {
        let y = match fetch(variables, b) {
            Ok(v) => v,
            Err(e) => {
                return Plan::Fail(e);
            },
        };
        let z = match fetch(variables, c) {
            Ok(v) => v,
            Err(e) => {
                return Plan::Fail(e);
            },
        };
        let x = match fetch(variables, a) {
            Ok(v) => v,
            Err(e) => {
                return Plan::Fail(e);
            },
        };
        match (x, y, z) {
            (VariableType::Str(_), VariableType::StrDic(d), VariableType::Str(key)) => {
                let _ = d.len();
                proof {
                    lemma_deepen_keys(d@, key@);
                }
                let found = match d.get(key.as_str()) {
                    Some(s) => s.clone(),
                    None => String::new(),
                };
                Plan::Assign(a.clone(), VariableType::Str(found))
            },
            (VariableType::Int(_), VariableType::IntDic(d), VariableType::Str(key)) => {
                let found = match d.get(key.as_str()) {
                    Some(n) => *n,
                    None => 0,
                };
                Plan::Assign(a.clone(), VariableType::Int(found))
            },
            (VariableType::Float(_), VariableType::FloatDic(d), VariableType::Str(key)) => {
                let _ = d.len();
                proof {
                    lemma_deepen_keys(d@, key@);
                }
                let found = match d.get(key.as_str()) {
                    Some(f) => f.clone(),
                    None => Float::zero(),
                };
                Plan::Assign(a.clone(), VariableType::Float(found))
            },
            _ => Plan::Fail(Error::TypeMismatch),
        }
    }

    fn plan_insert(a: &String, b: &String, c: &String, variables: &Variables) -> (p: Plan)
        ensures
            p@ == insert_effect(a@, b@, c@, variables@),
    {
        let x = match fetch(variables, a) {
            Ok(v) => v,
            Err(e) => {
                return Plan::Fail(e);
            },
        };
        let z = match fetch(variables, c) {
            Ok(v) => v,
            Err(e) => {
                return Plan::Fail(e);
            },
        };
        let y = match fetch(variables, b) {
            Ok(v) => v,
            Err(e) => {
                return Plan::Fail(e);
            },
        };
        match (x, y, z) {
            (VariableType::Str(s), VariableType::StrDic(d), VariableType::Str(key)) => Plan::Assign(
                b.clone(),
                VariableType::StrDic(with_entry_string(d, key, s)),
            ),
            (VariableType::Int(n), VariableType::IntDic(d), VariableType::Str(key)) => Plan::Assign(
                b.clone(),
                VariableType::IntDic(with_entry_int(d, key, *n)),
            ),
            (VariableType::Float(f), VariableType::FloatDic(d), VariableType::Str(key)) => Plan::Assign(
                b.clone(),
                VariableType::FloatDic(with_entry_float(d, key, f)),
            ),
            _ => Plan::Fail(Error::TypeMismatch),
        }
    }

    /// Decides what the instruction amounts to on `variables`, which it only
    /// reads.
    pub fn plan(&self, variables: &Variables) -> (p: Plan)
        ensures
            p@ == effect(*self, variables@),
            feasible(p@, variables@),
    {
        proof {
            lemma_effect_feasible(*self, variables@);
        }
        match self {
            Operation::Add(a, b, c)
            | Operation::Sub(a, b, c)
            | Operation::Mul(a, b, c)
            | Operation::Div(a, b, c) => self.plan_arithmetic(a, b, c, variables),
            Operation::Get(a, b, c) => Self::plan_get(a, b, c, variables),
            Operation::Put(a, b, c) => Self::plan_put(a, b, c, variables),
            Operation::Let(a, value) => Self::plan_let(a, value, variables),
            Operation::Cpy(a, b) => Self::plan_copy(a, b, variables),
            Operation::Rnd(a, b, c) => Self::plan_random(a, b, c, variables),
            Operation::Shu(a) => Self::plan_shuffle(a, variables),
            Operation::Qry(a, b, c) => Self::plan_query(a, b, c, variables),
            Operation::Ins(a, b, c) => Self::plan_insert(a, b, c, variables),
            Operation::Inp(a) => Self::plan_input(a, variables),
        }
    }
}

fn audit_kinds(x: &VariableType, y: &VariableType, z: &VariableType) -> (r: Result<(), Error>)
    ensures
        outcome(r) == (if x@.kind() == y@.kind() && x@.kind() == z@.kind() && x@.is_number() {
            Ok::<(), Failure>(())
        } else {
            Err::<(), Failure>(Failure::TypeMismatch)
        }),
{
    if x.is_same_type(y) && x.is_same_type(z) && x.is_number() {
        Ok(())
    } else {
        Err(Error::TypeMismatch)
    }
}

fn audit_place(i: i32, len: usize) -> (r: Result<(), Error>)
    ensures
        outcome(r) == (if in_range(i, len as nat) {
            Ok::<(), Failure>(())
        } else {
            Err::<(), Failure>(Failure::IndexOutOfBounds)
        }),
{
    match place(i, len) {
        Some(_) => Ok(()),
        None => Err(Error::IndexOutOfBounds),
    }
}

impl Operation {
    /// Checks the instruction against `variables` without carrying it out:
    /// its variables exist and have the types it asks for, and an index is a
    /// place in its list as the list stands.
    pub fn operation_check(&self, variables: &Variables) -> (r: Result<(), Error>)
        ensures
            outcome(r) == audit(*self, variables@),
    {
        match self {
            Operation::Add(a, b, c)
            | Operation::Sub(a, b, c)
            | Operation::Mul(a, b, c)
            | Operation::Div(a, b, c) => {
                let x = fetch(variables, a)?;
                let y = fetch(variables, b)?;
                let z = fetch(variables, c)?;
                audit_kinds(x, y, z)
            },
            Operation::Get(a, b, c) | Operation::Put(a, b, c) => {
                let x = fetch(variables, a)?;
                let y = fetch(variables, b)?;
                let z = fetch(variables, c)?;
                match (x, y, z) {
                    (VariableType::Str(_), VariableType::StrVec(v), VariableType::Int(i)) => {
                        audit_place(*i, v.len())
                    },
                    (VariableType::Int(_), VariableType::IntVec(v), VariableType::Int(i)) => {
                        audit_place(*i, v.len())
                    },
                    (VariableType::Float(_), VariableType::FloatVec(v), VariableType::Int(i)) => {
                        audit_place(*i, v.len())
                    },
                    _ => Err(Error::TypeMismatch),
                }
            },
            Operation::Let(a, value) => {
                let x = fetch(variables, a)?;
                if x.is_same_type(value) {
                    Ok(())
                } else {
                    Err(Error::TypeMismatch)
                }
            },
            Operation::Cpy(a, b) => {
                let x = fetch(variables, a)?;
                let y = fetch(variables, b)?;
                if x.is_same_type(y) {
                    Ok(())
                } else {
                    Err(Error::TypeMismatch)
                }
            },
            Operation::Rnd(a, b, c) => {
                let y = fetch(variables, b)?;
                let z = fetch(variables, c)?;
                let x = fetch(variables, a)?;
                audit_kinds(x, y, z)
            },
            Operation::Shu(a) => {
                let x = fetch(variables, a)?;
                if x.is_vector() {
                    Ok(())
                } else {
                    Err(Error::TypeMismatch)
                }
            },
            Operation::Inp(a) => {
                let x = fetch(variables, a)?;
                match x {
                    VariableType::Str(_) | VariableType::Int(_) | VariableType::Float(_) => Ok(()),
                    _ => Err(Error::TypeMismatch),
                }
            },
            Operation::Qry(a, b, c) | Operation::Ins(a, b, c) => {
                let x = fetch(variables, a)?;
                let y = fetch(variables, b)?;
                let z = fetch(variables, c)?;
                match (x, y, z) {
                    (VariableType::Str(_), VariableType::StrDic(_), VariableType::Str(_)) => Ok(()),
                    (VariableType::Int(_), VariableType::IntDic(_), VariableType::Str(_)) => Ok(()),
                    (VariableType::Float(_), VariableType::FloatDic(_), VariableType::Str(_)) => Ok(
                        (),
                    ),
                    _ => Err(Error::TypeMismatch),
                }
            },
        }
    }

    /// Carries the instruction out on `variables`. A floating-point result
    /// is what `unit` answers to the task that the plan names. On a failure
    /// nothing has changed.
    pub fn calculate<U: FloatUnit>(&self, variables: &mut Variables, unit: &U) -> (r: Result<
        (),
        Error,
    >)
        ensures
            admits(
                unit,
                effect(*self, old(variables)@),
                old(variables)@,
                outcome(r),
                final(variables)@,
            ),
            same_shape(old(variables)@, final(variables)@),
    {
        let plan = self.plan(variables);
        let r = plan.carry_out(variables, unit);
        proof {
            lemma_admits_keeps_shape(
                unit,
                effect(*self, old(variables)@),
                old(variables)@,
                outcome(r),
                variables@,
            );
        }
        r
    }
}

impl Plan {
    /// Carries the plan out on `variables`: makes the draw, the shuffle or
    /// the request to `unit` that it names, and stores what comes back.
    fn carry_out<U: FloatUnit>(self, variables: &mut Variables, unit: &U) -> (r: Result<
        (),
        Error,
    >)
        requires
            feasible(self@, old(variables)@),
        ensures
            admits(unit, self@, old(variables)@, outcome(r), final(variables)@),
    {
        match self {
            Plan::Fail(e) => Err(e),
            Plan::Assign(name, value) => {
                variables.insert(name, value);
                Ok(())
            },
            Plan::Draw(name, low, high) => {
                let x = draw(low, high);
                variables.insert(name, VariableType::Int(x));
                Ok(())
            },
            Plan::Shuffle(name) => {
                match variables.get_mut(name.as_str()) {
                    Some(slot) => {
                        match slot {
                            VariableType::StrVec(v) => shuffle(v),
                            VariableType::IntVec(v) => {
                                let ghost before = v@;
                                assert(v.deep_view() =~= before);
                                shuffle(v);
                                assert(v.deep_view() =~= v@);
                            },
                            VariableType::FloatVec(v) => shuffle(v),
                            _ => {},
                        }
                    },
                    None => {},
                }
                assert(reordered(old(variables)@[name@], variables@[name@]));
                assert(variables@ =~= old(variables)@.insert(name@, variables@[name@]));
                Ok(())
            },
            Plan::Ask(name, task) => {
                let answer = task.perform(unit);
                let ghost given = answer;
                assert(unit_answers(unit, task@, given));
                match answer {
                    Some(f) => {
                        variables.insert(name, VariableType::Float(f));
                        Ok(())
                    },
                    None => Err(Error::InputParseFailure),
                }
            },
        }
    }
}

/// The reports of the instructions of `ops` that fail their check, in order.
pub open spec fn audit_reports(ops: Seq<Operation>, store: Store) -> Seq<Seq<char>>
    decreases ops.len(),
{
    if ops.len() == 0 {
        Seq::empty()
    } else {
        match audit(ops.last(), store) {
            Ok(_) => audit_reports(ops.drop_last(), store),
            Err(e) => audit_reports(ops.drop_last(), store).push(e.message()),
        }
    }
}

/// Whether `trace` lists the stores of a run of `ops` that ends with the
/// result `r` and the store `post`: each store but the first is what the next
/// instruction, without failing, made of the store before it. A run without
/// failure has gone through every instruction, and `post` is its last store.
/// A failed run ends where the next instruction fails on the last store.
pub open spec fn run_trace<U: FloatUnit>(
    unit: &U,
    ops: Seq<Operation>,
    trace: Seq<Store>,
    r: Result<(), Failure>,
    post: Store,
) -> bool {
    &&& 1 <= trace.len() <= ops.len() + 1
    &&& forall|j: int|
        0 <= j < trace.len() - 1 ==> admits(
            unit,
            effect(ops[j], trace[j]),
            trace[j],
            Ok::<(), Failure>(()),
            #[trigger] trace[j + 1],
        )
    &&& if r is Ok {
        trace.len() == ops.len() + 1 && post == trace.last()
    } else {
        trace.len() <= ops.len() && admits(
            unit,
            effect(ops[trace.len() - 1], trace.last()),
            trace.last(),
            r,
            post,
        )
    }
}

/// Whether carrying out `ops` in order on the store `pre`, with `unit` for
/// the floating-point results, can end with the result `r` and the store
/// `post`. Each instruction works on the store that the one before it left.
/// The first failure ends the run, with the store as the instructions before
/// it left it.
pub open spec fn runs<U: FloatUnit>(
    unit: &U,
    ops: Seq<Operation>,
    pre: Store,
    r: Result<(), Failure>,
    post: Store,
) -> bool {
    exists|trace: Seq<Store>| trace.len() > 0 && trace[0] == pre && run_trace(
        unit,
        ops,
        trace,
        r,
        post,
    )
}

proof fn lemma_trace_keeps_shape<U: FloatUnit>(
    unit: &U,
    ops: Seq<Operation>,
    trace: Seq<Store>,
    j: int,
)
    requires
        0 <= j < trace.len() <= ops.len() + 1,
        forall|j: int|
            0 <= j < trace.len() - 1 ==> admits(
                unit,
                effect(ops[j], trace[j]),
                trace[j],
                Ok::<(), Failure>(()),
                #[trigger] trace[j + 1],
            ),
    ensures
        same_shape(trace[0], trace[j]),
    decreases j,
{
    if j > 0 {
        lemma_trace_keeps_shape(unit, ops, trace, j - 1);
        assert(admits(
            unit,
            effect(ops[j - 1], trace[j - 1]),
            trace[j - 1],
            Ok::<(), Failure>(()),
            trace[j - 1 + 1],
        ));
        lemma_effect_feasible(ops[j - 1], trace[j - 1]);
        lemma_admits_keeps_shape(
            unit,
            effect(ops[j - 1], trace[j - 1]),
            trace[j - 1],
            Ok::<(), Failure>(()),
            trace[j],
        );
    }
}

/// A run adds no variable, removes none, and changes no variable's type.
pub proof fn lemma_runs_keeps_shape<U: FloatUnit>(
    unit: &U,
    ops: Seq<Operation>,
    pre: Store,
    r: Result<(), Failure>,
    post: Store,
)
    requires
        runs(unit, ops, pre, r, post),
    ensures
        same_shape(pre, post),
{
    let trace = choose|trace: Seq<Store>|
        trace.len() > 0 && trace[0] == pre && run_trace(unit, ops, trace, r, post);
    lemma_trace_keeps_shape(unit, ops, trace, trace.len() - 1);
    if r is Err {
        lemma_effect_feasible(ops[trace.len() - 1], trace.last());
        lemma_admits_keeps_shape(
            unit,
            effect(ops[trace.len() - 1], trace.last()),
            trace.last(),
            r,
            post,
        );
    }
}

/// Whether every instruction of `ops` passes its check against `store`.
pub open spec fn audited(ops: Seq<Operation>, store: Store) -> bool {
    forall|i: int| 0 <= i < ops.len() ==> audit(#[trigger] ops[i], store) is Ok
}

/// A check of a list of instructions reports nothing exactly when every
/// instruction passes.
pub proof fn lemma_audit_reports_none(ops: Seq<Operation>, store: Store)
    ensures
        audit_reports(ops, store).len() == 0 <==> audited(ops, store),
    decreases ops.len(),
{
    if ops.len() > 0 {
        lemma_audit_reports_none(ops.drop_last(), store);
        if audited(ops, store) {
            assert forall|i: int| 0 <= i < ops.drop_last().len() implies audit(
                #[trigger] ops.drop_last()[i],
                store,
            ) is Ok by {
                assert(ops.drop_last()[i] == ops[i]);
            }
            assert(audit(ops[ops.len() - 1], store) is Ok);
        }
        if audited(ops.drop_last(), store) && audit(ops.last(), store) is Ok {
            assert forall|i: int| 0 <= i < ops.len() implies audit(#[trigger] ops[i], store) is Ok by {
                if i < ops.len() - 1 {
                    assert(ops.drop_last()[i] == ops[i]);
                }
            }
        }
    }
}

/// Instructions that passed their check against the declared variables, run
/// on a store that has those variables with their types and holds the input
/// as a string, do not fail for a missing variable or a wrong type, and leave
/// such a store.
pub proof fn lemma_audited_runs<U: FloatUnit>(
    unit: &U,
    ops: Seq<Operation>,
    declared: Store,
    pre: Store,
    r: Result<(), Failure>,
    post: Store,
)
    requires
        audited(ops, declared),
        covers(declared, pre),
        pre.contains_key("input"@),
        pre["input"@] is Str,
        runs(unit, ops, pre, r, post),
    ensures
        r matches Err(e) ==> !ruled_out(e),
        covers(declared, post),
        post.contains_key("input"@),
        post["input"@] is Str,
{
    lemma_runs_keeps_shape(unit, ops, pre, r, post);
    lemma_covers_shape(declared, pre, post);
    assert(pre["input"@].kind() == post["input"@].kind());
    if r is Err {
        let trace = choose|trace: Seq<Store>|
            trace.len() > 0 && trace[0] == pre && run_trace(unit, ops, trace, r, post);
        let last = trace.last();
        lemma_trace_keeps_shape(unit, ops, trace, trace.len() - 1);
        lemma_covers_shape(declared, pre, last);
        assert(pre["input"@].kind() == last["input"@].kind());
        assert(audit(ops[trace.len() - 1], declared) is Ok);
        lemma_audited_effect(ops[trace.len() - 1], declared, last);
    }
}

impl Operations {
    /// The empty list.
    pub fn new() -> (r: Operations)
        ensures
            r.0@ == Seq::<Operation>::empty(),
    {
        Operations(Vec::new())
    }

    /// Checks every instruction against `variables` and reports all that fail.
    pub fn check(&self, variables: &Variables) -> (r: Result<(), Error>)
        ensures
            outcome(r) == verdict_of(audit_reports(self.0@, variables@), ", "@),
    {
        let mut errors: Vec<String> = Vec::new();
        let mut i: usize = 0;
        while i < self.0.len()
            invariant
                i <= self.0.len(),
                errors.deep_view() == audit_reports(self.0@.take(i as int), variables@),
            decreases self.0.len() - i,
        {
            proof {
                assert(self.0@.take(i + 1).drop_last() =~= self.0@.take(i as int));
            }
            match self.0[i].operation_check(variables) {
                Ok(_) => {},
                Err(e) => {
                    errors.push(e.to_string());
                    assert(errors.deep_view() =~= audit_reports(
                        self.0@.take(i as int),
                        variables@,
                    ).push(e@.message()));
                },
            }
            i += 1;
        }
        assert(self.0@.take(i as int) =~= self.0@);
        conclude(&errors, ", ")
    }

    /// Carries the instructions out in order on `variables`, and stops at the
    /// first that fails: what those before it did stays done.
    pub fn calculate<U: FloatUnit>(&self, variables: &mut Variables, unit: &U) -> (r: Result<
        (),
        Error,
    >)
        ensures
            runs(unit, self.0@, old(variables)@, outcome(r), final(variables)@),
            same_shape(old(variables)@, final(variables)@),
    {
        let ghost mut trace: Seq<Store> = seq![variables@];
        let mut i: usize = 0;
        while i < self.0.len()
            invariant
                i <= self.0.len(),
                trace.len() == i + 1,
                trace[0] == old(variables)@,
                trace.last() == variables@,
                forall|j: int|
                    0 <= j < trace.len() - 1 ==> admits(
                        unit,
                        effect(self.0@[j], trace[j]),
                        trace[j],
                        Ok::<(), Failure>(()),
                        #[trigger] trace[j + 1],
                    ),
            decreases self.0.len() - i,
        {
            match self.0[i].calculate(variables, unit) {
                Ok(_) => {
                    proof {
                        trace = trace.push(variables@);
                    }
                },
                Err(e) => {
                    proof {
                        assert(run_trace(unit, self.0@, trace, Err::<(), Failure>(e@), variables@));
                        lemma_runs_keeps_shape(
                            unit,
                            self.0@,
                            old(variables)@,
                            Err::<(), Failure>(e@),
                            variables@,
                        );
                    }
                    return Err(e);
                },
            }
            i += 1;
        }
        proof {
            assert(run_trace(unit, self.0@, trace, Ok::<(), Failure>(()), variables@));
            lemma_runs_keeps_shape(
                unit,
                self.0@,
                old(variables)@,
                Ok::<(), Failure>(()),
                variables@,
            );
        }
        Ok(())
    }
}

impl Clone for Operations {
    fn clone(&self) -> (r: Operations)
        ensures
            r.0@.len() == self.0@.len(),
            forall|i: int| 0 <= i < r.0@.len() ==> effect_equal(#[trigger] r.0@[i], self.0@[i]),
    {
        let mut items: Vec<Operation> = Vec::new();
        let mut i: usize = 0;
        while i < self.0.len()
            invariant
                i <= self.0.len(),
                items@.len() == i,
                forall|j: int| 0 <= j < i ==> effect_equal(#[trigger] items@[j], self.0@[j]),
            decreases self.0.len() - i,
        {
            items.push(self.0[i].clone());
            i += 1;
        }
        Operations(items)
    }
}

impl Clone for Operation {
    fn clone(&self) -> (r: Operation)
        ensures
            effect_equal(r, *self),
    {
        match self {
            Operation::Add(a, b, c) => Operation::Add(a.clone(), b.clone(), c.clone()),
            Operation::Sub(a, b, c) => Operation::Sub(a.clone(), b.clone(), c.clone()),
            Operation::Mul(a, b, c) => Operation::Mul(a.clone(), b.clone(), c.clone()),
            Operation::Div(a, b, c) => Operation::Div(a.clone(), b.clone(), c.clone()),
            Operation::Get(a, b, c) => Operation::Get(a.clone(), b.clone(), c.clone()),
            Operation::Put(a, b, c) => Operation::Put(a.clone(), b.clone(), c.clone()),
            Operation::Let(a, value) => Operation::Let(a.clone(), value.clone()),
            Operation::Cpy(a, b) => Operation::Cpy(a.clone(), b.clone()),
            Operation::Rnd(a, b, c) => Operation::Rnd(a.clone(), b.clone(), c.clone()),
            Operation::Shu(a) => Operation::Shu(a.clone()),
            Operation::Qry(a, b, c) => Operation::Qry(a.clone(), b.clone(), c.clone()),
            Operation::Ins(a, b, c) => Operation::Ins(a.clone(), b.clone(), c.clone()),
            Operation::Inp(a) => Operation::Inp(a.clone()),
        }
    }
}

/// Whether two instructions are the same instruction on the same names, with
/// the same value written in them.
pub open spec fn effect_equal(x: Operation, y: Operation) -> bool {
    match (x, y) {
        (Operation::Add(a, b, c), Operation::Add(d, e, f)) => a@ == d@ && b@ == e@ && c@ == f@,
        (Operation::Sub(a, b, c), Operation::Sub(d, e, f)) => a@ == d@ && b@ == e@ && c@ == f@,
        (Operation::Mul(a, b, c), Operation::Mul(d, e, f)) => a@ == d@ && b@ == e@ && c@ == f@,
        (Operation::Div(a, b, c), Operation::Div(d, e, f)) => a@ == d@ && b@ == e@ && c@ == f@,
        (Operation::Get(a, b, c), Operation::Get(d, e, f)) => a@ == d@ && b@ == e@ && c@ == f@,
        (Operation::Put(a, b, c), Operation::Put(d, e, f)) => a@ == d@ && b@ == e@ && c@ == f@,
        (Operation::Let(a, v), Operation::Let(d, w)) => a@ == d@ && v@ == w@,
        (Operation::Cpy(a, b), Operation::Cpy(d, e)) => a@ == d@ && b@ == e@,
        (Operation::Rnd(a, b, c), Operation::Rnd(d, e, f)) => a@ == d@ && b@ == e@ && c@ == f@,
        (Operation::Shu(a), Operation::Shu(d)) => a@ == d@,
        (Operation::Qry(a, b, c), Operation::Qry(d, e, f)) => a@ == d@ && b@ == e@ && c@ == f@,
        (Operation::Ins(a, b, c), Operation::Ins(d, e, f)) => a@ == d@ && b@ == e@ && c@ == f@,
        (Operation::Inp(a), Operation::Inp(d)) => a@ == d@,
        _ => false,
    }
}

} // verus!
