//! Comparisons between two variables, and lists of them joined by `and` and `or`.

use vstd::prelude::*;
use crate::error::{outcome, Error, Failure};
use crate::float::{float_eq, float_lt};
use crate::text::{join, join_strings, lex_less, str_less};
use crate::variable::{covers, Value, VariableType, Variables};

verus! {

/// A comparison of the variable named first with the variable named second.
#[derive(Debug, PartialEq)]
pub enum CompareType {
    /// Equal.
    Eq(String, String),
    /// Not equal.
    Ne(String, String),
    /// Greater than.
    Gt(String, String),
    /// Greater than or equal.
    Ge(String, String),
    /// Less than.
    Lt(String, String),
    /// Less than or equal.
    Le(String, String),
}

/// How a comparison joins the result of those before it.
#[derive(Debug, PartialEq, Clone, Copy)]
pub enum Compare {
    And,
    Or,
}

/// A comparison and the way it joins the ones before it.
#[derive(Debug, PartialEq)]
pub struct CompareItem {
    pub compare: Compare,
    pub compare_type: CompareType,
}

/// A guard: comparisons folded from left to right.
#[derive(Debug, PartialEq)]
pub struct Compares(pub Vec<CompareItem>);

/// The six relations.
pub enum Relation {
    Eq,
    Ne,
    Gt,
    Ge,
    Lt,
    Le,
}

/// Whether `rel` holds of two values of which it is known whether they are
/// equal, whether the first is less, and whether the first is greater.
pub open spec fn decide(rel: Relation, equal: bool, less: bool, greater: bool) -> bool {
    match rel {
        Relation::Eq => equal,
        Relation::Ne => !equal,
        Relation::Gt => greater,
        Relation::Ge => greater || equal,
        Relation::Lt => less,
        Relation::Le => less || equal,
    }
}

/// Whether `rel` holds between two values: integers by their value,
/// floating-point numbers by theirs, strings in lexicographic order. Values of
/// two types, lists and dictionaries are not compared.
pub open spec fn relate(rel: Relation, a: Value, b: Value) -> Result<bool, Failure> {
    match (a, b) {
        (Value::Int(x), Value::Int(y)) => Ok(decide(rel, x == y, x < y, x > y)),
        (Value::Float(x), Value::Float(y)) => Ok(
            decide(
                rel,
                float_eq(x.bits, y.bits),
                float_lt(x.bits, y.bits),
                float_lt(y.bits, x.bits),
            ),
        ),
        (Value::Str(x), Value::Str(y)) => Ok(decide(rel, x == y, lex_less(x, y), lex_less(y, x))),
        _ => Err(Failure::TypeMismatch),
    }
}

/// Whether `rel` holds between the variables `left` and `right` of `store`.
pub open spec fn evaluate(
    rel: Relation,
    left: Seq<char>,
    right: Seq<char>,
    store: Map<Seq<char>, Value>,
) -> Result<bool, Failure> {
    if !store.contains_key(left) {
        Err(Failure::VariableNotFound(left))
    } else if !store.contains_key(right) {
        Err(Failure::VariableNotFound(right))
    } else {
        relate(rel, store[left], store[right])
    }
}

/// Whether the variables `left` and `right` of `store` can be compared: both
/// exist, have one type, and are neither lists nor dictionaries.
pub open spec fn audit(left: Seq<char>, right: Seq<char>, store: Map<Seq<char>, Value>) -> Result<
    (),
    Failure,
> {
    if !store.contains_key(left) {
        Err(Failure::VariableNotFound(left))
    } else if !store.contains_key(right) {
        Err(Failure::VariableNotFound(right))
    } else if store[left].kind() == store[right].kind() && !store[left].is_vector()
        && !store[left].is_dict() {
        Ok(())
    } else {
        Err(Failure::TypeMismatch)
    }
}

/// A comparison passes the audit exactly when it can be evaluated.
pub proof fn lemma_audit_is_evaluable(
    rel: Relation,
    left: Seq<char>,
    right: Seq<char>,
    store: Map<Seq<char>, Value>,
)
    ensures
        audit(left, right, store) is Ok <==> evaluate(rel, left, right, store) is Ok,
        audit(left, right, store) is Err ==> evaluate(rel, left, right, store) == Err::<
            bool,
            Failure,
        >(audit(left, right, store)->Err_0),
{
}

/// Of two variables that can be compared, `Eq` holds exactly when `Ne` does not.
pub proof fn lemma_eq_ne_complement(left: Seq<char>, right: Seq<char>, store: Map<Seq<char>, Value>)
    requires
        audit(left, right, store) is Ok,
    ensures
        evaluate(Relation::Eq, left, right, store) is Ok,
        evaluate(Relation::Ne, left, right, store) is Ok,
        evaluate(Relation::Eq, left, right, store)->Ok_0 == !evaluate(
            Relation::Ne,
            left,
            right,
            store,
        )->Ok_0,
{
}

impl CompareType {
    /// The relation this comparison tests.
    pub open spec fn relation(self) -> Relation {
        match self {
            CompareType::Eq(_, _) => Relation::Eq,
            CompareType::Ne(_, _) => Relation::Ne,
            CompareType::Gt(_, _) => Relation::Gt,
            CompareType::Ge(_, _) => Relation::Ge,
            CompareType::Lt(_, _) => Relation::Lt,
            CompareType::Le(_, _) => Relation::Le,
        }
    }

    /// The name of the variable on the left.
    pub open spec fn left(self) -> Seq<char> {
        match self {
            CompareType::Eq(a, _)
            | CompareType::Ne(a, _)
            | CompareType::Gt(a, _)
            | CompareType::Ge(a, _)
            | CompareType::Lt(a, _)
            | CompareType::Le(a, _) => a@,
        }
    }

    /// The name of the variable on the right.
    pub open spec fn right(self) -> Seq<char> {
        match self {
            CompareType::Eq(_, b)
            | CompareType::Ne(_, b)
            | CompareType::Gt(_, b)
            | CompareType::Ge(_, b)
            | CompareType::Lt(_, b)
            | CompareType::Le(_, b) => b@,
        }
    }

    /// What checking this comparison against `store` gives.
    pub open spec fn audit(self, store: Map<Seq<char>, Value>) -> Result<(), Failure> {
        audit(self.left(), self.right(), store)
    }

    /// What evaluating this comparison on `store` gives.
    pub open spec fn holds(self, store: Map<Seq<char>, Value>) -> Result<bool, Failure> {
        evaluate(self.relation(), self.left(), self.right(), store)
    }

    fn names(&self) -> (r: (&String, &String))
        ensures
            r.0@ == self.left(),
            r.1@ == self.right(),
    {
        match self {
            CompareType::Eq(a, b)
            | CompareType::Ne(a, b)
            | CompareType::Gt(a, b)
            | CompareType::Ge(a, b)
            | CompareType::Lt(a, b)
            | CompareType::Le(a, b) => (a, b),
        }
    }

    fn verdict(&self, equal: bool, less: bool, greater: bool) -> (r: bool)
        ensures
            r == decide(self.relation(), equal, less, greater),
    {
        match self {
            CompareType::Eq(_, _) => equal,
            CompareType::Ne(_, _) => !equal,
            CompareType::Gt(_, _) => greater,
            CompareType::Ge(_, _) => greater || equal,
            CompareType::Lt(_, _) => less,
            CompareType::Le(_, _) => less || equal,
        }
    }

    /// Checks, without evaluating it, that the comparison can be evaluated on
    /// `variable`.
    pub fn compare_check(&self, variable: &Variables) -> (r: Result<(), Error>)
        ensures
            outcome(r) == self.audit(variable@),
    {
        let (a, b) = self.names();
        let x = match variable.get(a.as_str()) {
            Some(x) => x,
            None => {
                return Err(Error::VariableNotFound(a.clone()));
            },
        };
        let y = match variable.get(b.as_str()) {
            Some(y) => y,
            None => {
                return Err(Error::VariableNotFound(b.clone()));
            },
        };
        if x.is_same_type(y) && !x.is_vector() && !x.is_dict() {
            Ok(())
        } else {
            Err(Error::TypeMismatch)
        }
    }

    /// Evaluates the comparison on `variable`.
    pub fn compare(&self, variable: &Variables) -> (r: Result<bool, Error>)
        ensures
            outcome(r) == self.holds(variable@),
    {
        let (a, b) = self.names();
        let x = match variable.get(a.as_str()) {
            Some(x) => x,
            None => {
                return Err(Error::VariableNotFound(a.clone()));
            },
        };
        let y = match variable.get(b.as_str()) {
            Some(y) => y,
            None => {
                return Err(Error::VariableNotFound(b.clone()));
            },
        };
        match (x, y) {
            (VariableType::Int(x), VariableType::Int(y)) => Ok(
                self.verdict(*x == *y, *x < *y, *x > *y),
            ),
            (VariableType::Float(x), VariableType::Float(y)) => Ok(
                self.verdict(x.equals(y), x.less(y), y.less(x)),
            ),
            (VariableType::Str(x), VariableType::Str(y)) => Ok(
                self.verdict(
                    *x == *y,
                    str_less(x.as_str(), y.as_str()),
                    str_less(y.as_str(), x.as_str()),
                ),
            ),
            _ => Err(Error::TypeMismatch),
        }
    }
}

impl Clone for CompareType {
    fn clone(&self) -> (r: CompareType)
        ensures
            r == *self,
    {
        match self {
            CompareType::Eq(a, b) => CompareType::Eq(a.clone(), b.clone()),
            CompareType::Ne(a, b) => CompareType::Ne(a.clone(), b.clone()),
            CompareType::Gt(a, b) => CompareType::Gt(a.clone(), b.clone()),
            CompareType::Ge(a, b) => CompareType::Ge(a.clone(), b.clone()),
            CompareType::Lt(a, b) => CompareType::Lt(a.clone(), b.clone()),
            CompareType::Le(a, b) => CompareType::Le(a.clone(), b.clone()),
        }
    }
}

impl Clone for CompareItem {
    fn clone(&self) -> (r: CompareItem)
        ensures
            r == *self,
    {
        CompareItem { compare: self.compare, compare_type: self.compare_type.clone() }
    }
}

/// The reports of the comparisons of `items` that fail their audit, in order.
pub open spec fn audit_reports(items: Seq<CompareItem>, store: Map<Seq<char>, Value>) -> Seq<
    Seq<char>,
>
    decreases items.len(),
{
    if items.len() == 0 {
        Seq::empty()
    } else {
        match items.last().compare_type.audit(store) {
            Ok(_) => audit_reports(items.drop_last(), store),
            Err(e) => audit_reports(items.drop_last(), store).push(e.message()),
        }
    }
}

/// Whether every comparison of `items` passes its audit against `store`.
pub open spec fn audited(items: Seq<CompareItem>, store: Map<Seq<char>, Value>) -> bool {
    forall|i: int| 0 <= i < items.len() ==> (#[trigger] items[i]).compare_type.audit(store) is Ok
}

/// A check of a guard reports nothing exactly when every comparison passes.
pub proof fn lemma_audit_reports_none(items: Seq<CompareItem>, store: Map<Seq<char>, Value>)
    ensures
        audit_reports(items, store).len() == 0 <==> audited(items, store),
    decreases items.len(),
{
    if items.len() > 0 {
        lemma_audit_reports_none(items.drop_last(), store);
        if audited(items, store) {
            assert forall|i: int| 0 <= i < items.drop_last().len() implies (
            #[trigger] items.drop_last()[i]).compare_type.audit(store) is Ok by {
                assert(items.drop_last()[i] == items[i]);
            }
        }
        if audited(items.drop_last(), store) && items.last().compare_type.audit(store) is Ok {
            assert forall|i: int| 0 <= i < items.len() implies (
            #[trigger] items[i]).compare_type.audit(store) is Ok by {
                if i < items.len() - 1 {
                    assert(items.drop_last()[i] == items[i]);
                }
            }
        }
    }
}

/// A guard that passed its check against the declared variables can be
/// evaluated on every store that has those variables with their types.
pub proof fn lemma_audited_guard_holds(
    items: Seq<CompareItem>,
    declared: Map<Seq<char>, Value>,
    store: Map<Seq<char>, Value>,
)
    requires
        audited(items, declared),
        covers(declared, store),
    ensures
        fold(items, store) is Ok,
    decreases items.len(),
{
    if items.len() > 0 {
        assert forall|i: int| 0 <= i < items.drop_last().len() implies (
        #[trigger] items.drop_last()[i]).compare_type.audit(declared) is Ok by {
            assert(items.drop_last()[i] == items[i]);
        }
        lemma_audited_guard_holds(items.drop_last(), declared, store);
        let last = items[items.len() - 1].compare_type;
        assert(last.audit(declared) is Ok);
        assert(declared.contains_key(last.left()) && declared.contains_key(last.right()));
    }
}

/// A check that found the faults `reports`: no failure when there is none,
/// else one that lists them all with `sep` between them.
pub open spec fn verdict_of(reports: Seq<Seq<char>>, sep: Seq<char>) -> Result<(), Failure> {
    if reports.len() == 0 {
        Ok(())
    } else {
        Err(Failure::Validation(join(reports, sep)))
    }
}

/// The guard `items` on `store`: true when empty; else the first comparison,
/// joined in turn with each later one by that one's `and` or `or`. Every
/// comparison is evaluated, and the first that fails fails the guard.
pub open spec fn fold(items: Seq<CompareItem>, store: Map<Seq<char>, Value>) -> Result<
    bool,
    Failure,
>
    decreases items.len(),
{
    if items.len() == 0 {
        Ok(true)
    } else {
        match fold(items.drop_last(), store) {
            Err(e) => Err(e),
            Ok(before) => match items.last().compare_type.holds(store) {
                Err(e) => Err(e),
                Ok(now) => Ok(
                    if items.len() == 1 {
                        now
                    } else {
                        match items.last().compare {
                            Compare::And => before && now,
                            Compare::Or => before || now,
                        }
                    },
                ),
            },
        }
    }
}

/// Ends a check: `Ok` when it found no fault, else the faults joined by `sep`.
pub fn conclude(reports: &Vec<String>, sep: &str) -> (r: Result<(), Error>)
    ensures
        outcome(r) == verdict_of(reports.deep_view(), sep@),
{
    if reports.len() == 0 {
        assert(reports.deep_view().len() == 0);
        Ok(())
    } else {
        assert(reports.deep_view().len() != 0);
        Err(Error::Validation(join_strings(reports, sep)))
    }
}

impl Compares {
    /// The guard without comparisons, which is true.
    pub fn new() -> (r: Compares)
        ensures
            r.0@ == Seq::<CompareItem>::empty(),
    {
        Compares(Vec::new())
    }

    /// Adds a comparison at the end.
    pub fn add(&mut self, compare: CompareItem)
        ensures
            final(self).0@ == old(self).0@.push(compare),
    {
        self.0.push(compare);
    }

    /// Checks every comparison against `variable` and reports all that fail.
    pub fn check(&self, variable: &Variables) -> (r: Result<(), Error>)
        ensures
            outcome(r) == verdict_of(audit_reports(self.0@, variable@), ", "@),
    {
        let mut errors: Vec<String> = Vec::new();
        let mut i: usize = 0;
        while i < self.0.len()
            invariant
                i <= self.0.len(),
                errors.deep_view() == audit_reports(self.0@.take(i as int), variable@),
            decreases self.0.len() - i,
        {
            proof {
                assert(self.0@.take(i + 1).drop_last() =~= self.0@.take(i as int));
            }
            match self.0[i].compare_type.compare_check(variable) {
                Ok(_) => {},
                Err(e) => {
                    errors.push(e.to_string());
                    assert(errors.deep_view() =~= audit_reports(
                        self.0@.take(i as int),
                        variable@,
                    ).push(e@.message()));
                },
            }
            i += 1;
        }
        assert(self.0@.take(i as int) =~= self.0@);
        conclude(&errors, ", ")
    }

    /// Evaluates the guard on `variable`.
    pub fn calc(&self, variable: &Variables) -> (r: Result<bool, Error>)
        ensures
            outcome(r) == fold(self.0@, variable@),
    {
        let mut result = true;
        let mut i: usize = 0;
        while i < self.0.len()
            invariant
                i <= self.0.len(),
                fold(self.0@.take(i as int), variable@) == Ok::<bool, Failure>(result),
            decreases self.0.len() - i,
        {
            proof {
                assert(self.0@.take(i + 1).drop_last() =~= self.0@.take(i as int));
            }
            let now = match self.0[i].compare_type.compare(variable) {
                Ok(now) => now,
                Err(e) => {
                    proof {
                        lemma_fold_fails(self.0@, variable@, i + 1);
                    }
                    return Err(e);
                },
            };
            result = if i == 0 {
                now
            } else {
                match self.0[i].compare {
                    Compare::And => result && now,
                    Compare::Or => result || now,
                }
            };
            i += 1;
        }
        assert(self.0@.take(i as int) =~= self.0@);
        Ok(result)
    }
}

/// A guard fails as its first failing prefix does.
pub proof fn lemma_fold_fails(items: Seq<CompareItem>, store: Map<Seq<char>, Value>, k: int)
    requires
        0 <= k <= items.len(),
        fold(items.take(k), store) is Err,
    ensures
        fold(items, store) == fold(items.take(k), store),
    decreases items.len() - k,
{
    if k == items.len() {
        assert(items.take(k) =~= items);
    } else {
        assert(items.take(k + 1).drop_last() =~= items.take(k));
        lemma_fold_fails(items, store, k + 1);
    }
}

impl Clone for Compares {
    fn clone(&self) -> (r: Compares)
        ensures
            r.0@ == self.0@,
    {
        let items = self.0.clone();
        assert(items@ =~= self.0@);
        Compares(items)
    }
}

} // verus!
