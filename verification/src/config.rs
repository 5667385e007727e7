//! The script: its steps, their transitions, and its variables, with the
//! checks each part of it must pass.

use vstd::prelude::*;
use crate::compare::{conclude, verdict_of, Compares};
use crate::dict::{has_key, lookup, put, Dict};
use crate::error::{outcome, Error};
use crate::operation::{effect_equal, Operation, Operations};
use crate::output::{all_known, missing_reports, Output};
use crate::variable::{Store, VariableType, Variables};

verus! {

/// A transition out of a step.
#[derive(Debug, PartialEq)]
pub struct Transaction {
    /// What the input must match; empty for a transition taken without input.
    pub pattern: String,
    /// The guard that must hold.
    pub compares: Compares,
    /// The step the transition leads to.
    pub step: String,
    /// What is done when the transition is taken.
    pub operation: Operations,
}

/// A step: what it says, and its transitions in the order in which they are tried.
#[derive(Debug, PartialEq)]
pub struct Step {
    pub description: Output,
    pub transaction: Vec<Transaction>,
}

/// A script.
#[derive(Debug, PartialEq)]
pub struct SakikoConfig {
    bot_name: String,
    start_step: String,
    variables: Variables,
    steps: Dict<Step>,
}

/// The three checks that go through every transition of a script.
#[derive(Debug, PartialEq, Clone, Copy)]
pub enum Aspect {
    /// That the step a transition leads to exists.
    Targets,
    /// That the guard of a transition can be evaluated.
    Compares,
    /// That the instructions of a transition can be carried out.
    Operations,
}

/// The report of an undeclared step `target` that a transition of the step
/// `step_name` leads to.
pub open spec fn target_report(target: Seq<char>, step_name: Seq<char>) -> Seq<char> {
    "Step "@ + target + " in transaction of step "@ + step_name + " not found"@
}

/// The report of a fault `fault` in a part `part` of the step `step_name`.
pub open spec fn part_report(part: Seq<char>, step_name: Seq<char>, fault: Seq<char>) -> Seq<char> {
    part + step_name + " failed: "@ + fault
}

/// The fault that the check `aspect` finds in the transition `t` of the step
/// `step_name`, if it finds one.
pub open spec fn transaction_fault(
    aspect: Aspect,
    steps: Seq<(Seq<char>, Step)>,
    globals: Store,
    step_name: Seq<char>,
    t: Transaction,
) -> Option<Seq<char>> {
    match aspect {
        Aspect::Targets => if !has_key(steps, t.step@) && t.step@ != "end"@ {
            Some(target_report(t.step@, step_name))
        } else {
            None
        },
        Aspect::Compares => match verdict_of(
            crate::compare::audit_reports(t.compares.0@, globals),
            ", "@,
        ) {
            Ok(_) => None,
            Err(e) => Some(
                part_report("Compares in transaction of step "@, step_name, e.message()),
            ),
        },
        Aspect::Operations => match verdict_of(
            crate::operation::audit_reports(t.operation.0@, globals),
            ", "@,
        ) {
            Ok(_) => None,
            Err(e) => Some(
                part_report("Operation in transaction of step "@, step_name, e.message()),
            ),
        },
    }
}

/// The faults that the check `aspect` finds in `transactions`, in order.
pub open spec fn transaction_faults(
    aspect: Aspect,
    steps: Seq<(Seq<char>, Step)>,
    globals: Store,
    step_name: Seq<char>,
    transactions: Seq<Transaction>,
) -> Seq<Seq<char>>
    decreases transactions.len(),
{
    if transactions.len() == 0 {
        Seq::empty()
    } else {
        let before = transaction_faults(aspect, steps, globals, step_name, transactions.drop_last());
        match transaction_fault(aspect, steps, globals, step_name, transactions.last()) {
            Some(fault) => before.push(fault),
            None => before,
        }
    }
}

/// The faults that the check `aspect` finds in the transitions of the steps
/// `upto`, in order.
pub open spec fn step_faults(
    aspect: Aspect,
    steps: Seq<(Seq<char>, Step)>,
    globals: Store,
    upto: Seq<(Seq<char>, Step)>,
) -> Seq<Seq<char>>
    decreases upto.len(),
{
    if upto.len() == 0 {
        Seq::empty()
    } else {
        step_faults(aspect, steps, globals, upto.drop_last()) + transaction_faults(
            aspect,
            steps,
            globals,
            upto.last().0,
            upto.last().1.transaction@,
        )
    }
}

/// The faults in the outputs of the steps `upto`, in order: for each step of
/// which `globals` lacks a variable, the variables it lacks.
pub open spec fn description_faults(globals: Store, upto: Seq<(Seq<char>, Step)>) -> Seq<Seq<char>>
    decreases upto.len(),
{
    if upto.len() == 0 {
        Seq::empty()
    } else {
        let before = description_faults(globals, upto.drop_last());
        match verdict_of(missing_reports(upto.last().1.description.1.deep_view(), globals), ", "@) {
            Ok(_) => before,
            Err(e) => before.push(
                part_report("Description of step "@, upto.last().0, e.message()),
            ),
        }
    }
}

/// The report of a start step that does not exist.
pub open spec fn start_report(start: Seq<char>) -> Seq<char> {
    "Start step "@ + start + " not found"@
}

/// Whether the two outputs have the same template and the same variables.
pub open spec fn same_output(x: Output, y: Output) -> bool {
    x.0@ == y.0@ && x.1.deep_view() == y.1.deep_view()
}

/// Whether the two lists hold the same instructions.
pub open spec fn same_operations(x: Seq<Operation>, y: Seq<Operation>) -> bool {
    x.len() == y.len() && forall|i: int| 0 <= i < x.len() ==> effect_equal(#[trigger] x[i], y[i])
}

/// Whether `at` names a step of the script, or is `end`.
pub open spec fn on_graph(config: SakikoConfig, at: Seq<char>) -> bool {
    at == "end"@ || has_key(config.steps(), at)
}

/// Whether the graph of the script is closed: the start step exists, and
/// every transition leads to a step that exists or to `end`.
pub open spec fn closed_graph(config: SakikoConfig) -> bool {
    &&& has_key(config.steps(), config.start())
    &&& forall|i: int, j: int|
        0 <= i < config.steps().len() && 0 <= j < config.steps()[i].1.transaction@.len()
            ==> on_graph(config, (#[trigger] config.steps()[i].1.transaction@[j]).step@)
}

/// Whether the script is well typed: the guard and the instructions of
/// every transition pass their checks against the variables the script
/// declares, and these have every variable that an output names.
pub open spec fn well_typed(config: SakikoConfig) -> bool {
    &&& forall|i: int, j: int|
        0 <= i < config.steps().len() && 0 <= j < config.steps()[i].1.transaction@.len() ==> {
            let t = #[trigger] config.steps()[i].1.transaction@[j];
            &&& crate::compare::audited(t.compares.0@, config.globals())
            &&& crate::operation::audited(t.operation.0@, config.globals())
        }
    &&& forall|i: int|
        0 <= i < config.steps().len() ==> all_known(
            (#[trigger] config.steps()[i]).1.description.1.deep_view(),
            config.globals(),
        )
}

fn glue3(a: &str, b: &str, c: &str) -> (r: String)
    ensures
        r@ == a@ + b@ + c@,
{
    let mut r = String::from_str(a);
    r.append(b);
    r.append(c);
    r
}

fn glue5(a: &str, b: &str, c: &str, d: &str, e: &str) -> (r: String)
    ensures
        r@ == a@ + b@ + c@ + d@ + e@,
{
    let mut r = glue3(a, b, c);
    r.append(d);
    r.append(e);
    r
}

fn part_fault(part: &str, step_name: &str, checked: Result<(), Error>) -> (r: Option<String>)
    ensures
        match outcome(checked) {
            Ok(_) => r is None,
            Err(e) => r is Some && r->0@ == part_report(part@, step_name@, e.message()),
        },
{
    match checked {
        Ok(_) => None,
        Err(e) => {
            let fault = e.to_string();
            let mut r = glue3(part, step_name, " failed: ");
            r.append(fault.as_str());
            Some(r)
        },
    }
}

impl SakikoConfig {
    /// The name of the bot.
    pub closed spec fn bot_name(&self) -> Seq<char> {
        self.bot_name@
    }

    /// The name of the step at which a session starts.
    pub closed spec fn start(&self) -> Seq<char> {
        self.start_step@
    }

    /// The variables the script declares, with their first values.
    pub closed spec fn globals(&self) -> Store {
        self.variables@
    }

    /// The steps, each under its name, in the order in which they were added.
    pub closed spec fn steps(&self) -> Seq<(Seq<char>, Step)> {
        self.steps@
    }

    /// The faults in the graph of the script: a start step that does not
    /// exist, then each transition to a step that does not exist and is not `end`.
    pub open spec fn graph_faults(&self) -> Seq<Seq<char>> {
        let first = if has_key(self.steps(), self.start()) {
            Seq::<Seq<char>>::empty()
        } else {
            seq![start_report(self.start())]
        };
        first + step_faults(Aspect::Targets, self.steps(), self.globals(), self.steps())
    }

    /// A script without steps and variables.
    pub fn new(bot_name: &str, start_step: &str) -> (r: SakikoConfig)
        ensures
            r.bot_name() == bot_name@,
            r.start() == start_step@,
            r.globals() == Map::<Seq<char>, crate::variable::Value>::empty(),
            r.steps() == Seq::<(Seq<char>, Step)>::empty(),
    {
        SakikoConfig {
            bot_name: String::from_str(bot_name),
            start_step: String::from_str(start_step),
            variables: Variables::new(),
            steps: Dict::new(),
        }
    }

    /// Declares the variable `variable_name` with the first value `variable_type`.
    pub fn add_variable(&mut self, variable_name: &str, variable_type: VariableType)
        ensures
            final(self).globals() == old(self).globals().insert(variable_name@, variable_type@),
            final(self).bot_name() == old(self).bot_name(),
            final(self).start() == old(self).start(),
            final(self).steps() == old(self).steps(),
    {
        self.variables.insert(String::from_str(variable_name), variable_type);
    }

    /// Adds the step `step_name`, which says `description` and has no
    /// transition yet. A step that had the name is replaced.
    pub fn add_step(&mut self, step_name: &str, description: &Output)
        ensures
            ({
                let added = lookup(final(self).steps(), step_name@);
                &&& added is Some
                &&& same_output(added->0.description, *description)
                &&& added->0.transaction@.len() == 0
                &&& final(self).steps() == put(old(self).steps(), step_name@, added->0)
            }),
            final(self).bot_name() == old(self).bot_name(),
            final(self).start() == old(self).start(),
            final(self).globals() == old(self).globals(),
    {
        let _ = self.steps.len();
        let step = Step { description: description.clone(), transaction: Vec::new() };
        proof {
            crate::dict::lemma_put(self.steps@, step_name@, step);
            assert(step.description.1.deep_view() =~= description.1.deep_view());
        }
        self.steps.insert(String::from_str(step_name), step);
    }

    /// Adds a transition at the end of those of the step `step_name`, which
    /// the script must have.
    pub fn add_transaction(
        &mut self,
        step_name: &str,
        pattern: &str,
        compares: &Compares,
        next_step: &str,
        operation: &Operations,
    )
        requires
            has_key(old(self).steps(), step_name@),
        ensures
            ({
                let before = lookup(old(self).steps(), step_name@)->0;
                let after = lookup(final(self).steps(), step_name@);
                &&& after is Some
                &&& final(self).steps() == put(old(self).steps(), step_name@, after->0)
                &&& after->0.description == before.description
                &&& after->0.transaction@.len() == before.transaction@.len() + 1
                &&& after->0.transaction@.drop_last() == before.transaction@
                &&& after->0.transaction@.last().pattern@ == pattern@
                &&& after->0.transaction@.last().step@ == next_step@
                &&& after->0.transaction@.last().compares.0@ == compares.0@
                &&& same_operations(after->0.transaction@.last().operation.0@, operation.0@)
            }),
            final(self).bot_name() == old(self).bot_name(),
            final(self).start() == old(self).start(),
            final(self).globals() == old(self).globals(),
    {
        let _ = self.steps.len();
        let transaction = Transaction {
            pattern: String::from_str(pattern),
            compares: compares.clone(),
            step: String::from_str(next_step),
            operation: operation.clone(),
        };
        match self.steps.get_mut(step_name) {
            Some(step) => {
                let ghost before = *step;
                step.transaction.push(transaction);
                proof {
                    assert(step.transaction@.drop_last() =~= before.transaction@);
                    crate::dict::lemma_put(old(self).steps@, step_name@, *step);
                }
            },
            None => {},
        }
    }

    /// The name of the step at which a session starts.
    pub fn get_start_step(&self) -> (r: &str)
        ensures
            r@ == self.start(),
    {
        self.start_step.as_str()
    }

    /// The name of the bot.
    pub fn get_bot_name(&self) -> (r: &str)
        ensures
            r@ == self.bot_name(),
    {
        self.bot_name.as_str()
    }

    /// The variables the script declares.
    pub fn get_variables(&self) -> (r: &Variables)
        ensures
            r@ == self.globals(),
    {
        &self.variables
    }

    /// The steps, each under its name, in the order in which they were added.
    pub fn get_steps(&self) -> (r: &Dict<Step>)
        ensures
            r@ == self.steps(),
    {
        &self.steps
    }

    /// The step `step_name`, if the script has it.
    pub fn get_step(&self, step_name: &str) -> (r: Option<&Step>)
        ensures
            match r {
                Some(step) => lookup(self.steps(), step_name@) == Some(*step),
                None => lookup(self.steps(), step_name@) is None,
            },
    {
        self.steps.get(step_name)
    }

    /// Whether a step is named `end`, the name kept for the end of a session.
    pub fn has_end(&self) -> (r: bool)
        ensures
            r == has_key(self.steps(), "end"@),
    {
        self.steps.contains_key("end")
    }

    fn fault(&self, aspect: Aspect, step_name: &str, t: &Transaction) -> (r: Option<String>)
        ensures
            match transaction_fault(aspect, self.steps(), self.globals(), step_name@, *t) {
                Some(fault) => r is Some && r->0@ == fault,
                None => r is None,
            },
    {
        match aspect {
            Aspect::Targets => {
                if !self.steps.contains_key(t.step.as_str()) && !(*t.step.as_str() == *"end") {
                    Some(
                        glue5(
                            "Step ",
                            t.step.as_str(),
                            " in transaction of step ",
                            step_name,
                            " not found",
                        ),
                    )
                } else {
                    None
                }
            },
            Aspect::Compares => part_fault(
                "Compares in transaction of step ",
                step_name,
                t.compares.check(&self.variables),
            ),
            Aspect::Operations => part_fault(
                "Operation in transaction of step ",
                step_name,
                t.operation.check(&self.variables),
            ),
        }
    }

    fn faults(&self, aspect: Aspect, errors: &mut Vec<String>)
        ensures
            final(errors).deep_view() == old(errors).deep_view() + step_faults(
                aspect,
                self.steps(),
                self.globals(),
                self.steps(),
            ),
    {
        let n = self.steps.len();
        let mut i: usize = 0;
        assert(errors.deep_view() =~= old(errors).deep_view() + Seq::<Seq<char>>::empty());
        while i < n
            invariant
                i <= n,
                n == self.steps().len(),
                errors.deep_view() == old(errors).deep_view() + step_faults(
                    aspect,
                    self.steps(),
                    self.globals(),
                    self.steps().take(i as int),
                ),
            decreases n - i,
        {
            let name = self.steps.key(i);
            let step = self.steps.value(i);
            let ghost done = errors.deep_view();
            let mut j: usize = 0;
            assert(errors.deep_view() =~= done + Seq::<Seq<char>>::empty());
            while j < step.transaction.len()
                invariant
                    j <= step.transaction.len(),
                    errors.deep_view() == done + transaction_faults(
                        aspect,
                        self.steps(),
                        self.globals(),
                        name@,
                        step.transaction@.take(j as int),
                    ),
                decreases step.transaction.len() - j,
            {
                proof {
                    assert(step.transaction@.take(j + 1).drop_last() =~= step.transaction@.take(
                        j as int,
                    ));
                }
                let ghost before = errors.deep_view();
                match self.fault(aspect, name.as_str(), &step.transaction[j]) {
                    Some(fault) => {
                        errors.push(fault);
                        assert(errors.deep_view() =~= before.push(fault@));
                        assert(errors.deep_view() =~= done + transaction_faults(
                            aspect,
                            self.steps(),
                            self.globals(),
                            name@,
                            step.transaction@.take(j + 1),
                        ));
                    },
                    None => {},
                }
                j += 1;
            }
            proof {
                assert(step.transaction@.take(j as int) =~= step.transaction@);
                assert(self.steps().take(i + 1).drop_last() =~= self.steps().take(i as int));
                assert(self.steps().take(i + 1).last() == (name@, *step));
                assert(errors.deep_view() =~= old(errors).deep_view() + step_faults(
                    aspect,
                    self.steps(),
                    self.globals(),
                    self.steps().take(i + 1),
                ));
            }
            i += 1;
        }
        assert(self.steps().take(i as int) =~= self.steps());
    }

    /// Checks the graph of the script: the start step exists, and every
    /// transition leads to a step that exists or to `end`. Reports every fault.
    pub fn check(&self) -> (r: Result<(), Error>)
        ensures
            outcome(r) == verdict_of(self.graph_faults(), ", "@),
    {
        let mut errors: Vec<String> = Vec::new();
        if !self.steps.contains_key(self.start_step.as_str()) {
            errors.push(glue3("Start step ", self.start_step.as_str(), " not found"));
            assert(errors.deep_view() =~= seq![start_report(self.start())]);
        } else {
            assert(errors.deep_view() =~= Seq::<Seq<char>>::empty());
        }
        self.faults(Aspect::Targets, &mut errors);
        conclude(&errors, ", ")
    }

    /// Checks the guard of every transition against the variables the script
    /// declares. Reports every fault.
    pub fn check_compares(&self) -> (r: Result<(), Error>)
        ensures
            outcome(r) == verdict_of(
                step_faults(Aspect::Compares, self.steps(), self.globals(), self.steps()),
                "\n"@,
            ),
    {
        let mut errors: Vec<String> = Vec::new();
        assert(errors.deep_view() =~= Seq::<Seq<char>>::empty());
        self.faults(Aspect::Compares, &mut errors);
        assert(errors.deep_view() =~= step_faults(
            Aspect::Compares,
            self.steps(),
            self.globals(),
            self.steps(),
        ));
        conclude(&errors, "\n")
    }

    /// Checks the output of every step against the variables the script
    /// declares. Reports every fault.
    pub fn check_description(&self) -> (r: Result<(), Error>)
        ensures
            outcome(r) == verdict_of(description_faults(self.globals(), self.steps()), "\n"@),
    {
        let mut errors: Vec<String> = Vec::new();
        let n = self.steps.len();
        let mut i: usize = 0;
        assert(errors.deep_view() =~= Seq::<Seq<char>>::empty());
        while i < n
            invariant
                i <= n,
                n == self.steps().len(),
                errors.deep_view() == description_faults(
                    self.globals(),
                    self.steps().take(i as int),
                ),
            decreases n - i,
        {
            let name = self.steps.key(i);
            let step = self.steps.value(i);
            proof {
                assert(self.steps().take(i + 1).drop_last() =~= self.steps().take(i as int));
                assert(self.steps().take(i + 1).last() == (name@, *step));
            }
            let ghost before = errors.deep_view();
            match part_fault(
                "Description of step ",
                name.as_str(),
                step.description.check(&self.variables),
            ) {
                Some(fault) => {
                    errors.push(fault);
                    assert(errors.deep_view() =~= before.push(fault@));
                },
                None => {},
            }
            i += 1;
        }
        assert(self.steps().take(i as int) =~= self.steps());
        conclude(&errors, "\n")
    }

    /// Checks the instructions of every transition against the variables the
    /// script declares. Reports every fault.
    pub fn check_operations(&self) -> (r: Result<(), Error>)
        ensures
            outcome(r) == verdict_of(
                step_faults(Aspect::Operations, self.steps(), self.globals(), self.steps()),
                "\n"@,
            ),
    {
        let mut errors: Vec<String> = Vec::new();
        assert(errors.deep_view() =~= Seq::<Seq<char>>::empty());
        self.faults(Aspect::Operations, &mut errors);
        assert(errors.deep_view() =~= step_faults(
            Aspect::Operations,
            self.steps(),
            self.globals(),
            self.steps(),
        ));
        conclude(&errors, "\n")
    }
}

} // verus!
