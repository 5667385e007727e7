//! The validator: every check of a script, with one report of all its faults.

use vstd::prelude::*;
use crate::compare::{conclude, verdict_of};
use crate::config::{
    closed_graph, description_faults, on_graph, step_faults, target_report,
    transaction_fault, transaction_faults, well_typed, Aspect, SakikoConfig, Step, Transaction,
};
use crate::output::{all_known, lemma_missing_reports_none, missing_reports};
use crate::sakiko::sound;
use crate::dict::has_key;
use crate::error::{outcome, Error, Failure};
use crate::text::{
    contains, join, lemma_contains_itself, lemma_contains_within, lemma_join_contains,
};
use crate::variable::Store;

verus! {

/// The lines that a failed check adds to the report: a title, then the faults
/// the check found.
pub open spec fn section(title: Seq<char>, checked: Result<(), Failure>) -> Seq<Seq<char>> {
    match checked {
        Ok(_) => Seq::empty(),
        Err(e) => seq![title, e.message()],
    }
}

/// The line that a fault adds to the report where it is found.
pub open spec fn flag(found: bool, line: Seq<char>) -> Seq<Seq<char>> {
    if found {
        seq![line]
    } else {
        Seq::empty()
    }
}

/// The lines of the report on the script `config`: the graph of the steps,
/// the reserved step `end`, the reserved variable `input`, the guards, the
/// outputs, and the instructions, in this order.
pub open spec fn report_lines(config: SakikoConfig) -> Seq<Seq<char>> {
    section("Step check failed"@, verdict_of(config.graph_faults(), ", "@)) + flag(
        has_key(config.steps(), "end"@),
        "Step 'end' is reserved"@,
    ) + flag(config.globals().contains_key("input"@), "Variable 'input' is reserved"@) + section(
        "Compares check failed"@,
        verdict_of(
            step_faults(Aspect::Compares, config.steps(), config.globals(), config.steps()),
            "\n"@,
        ),
    ) + section(
        "Description check failed"@,
        verdict_of(description_faults(config.globals(), config.steps()), "\n"@),
    ) + section(
        "Operation check failed"@,
        verdict_of(
            step_faults(Aspect::Operations, config.steps(), config.globals(), config.steps()),
            "\n"@,
        ),
    )
}

/// What validating the script `config` gives: no failure where no check
/// finds a fault, else all the lines of the report, one below the other.
pub open spec fn validate(config: SakikoConfig) -> Result<(), Failure> {
    verdict_of(report_lines(config), "\n"@)
}

fn add_section(lines: &mut Vec<String>, title: &str, checked: Result<(), Error>)
    ensures
        final(lines).deep_view() == old(lines).deep_view() + section(title@, outcome(checked)),
{
    match checked {
        Ok(_) => {
            assert(lines.deep_view() =~= old(lines).deep_view() + Seq::<Seq<char>>::empty());
        },
        Err(e) => {
            let fault = e.to_string();
            lines.push(String::from_str(title));
            lines.push(fault);
            assert(lines.deep_view() =~= old(lines).deep_view() + seq![title@, e@.message()]);
        },
    }
}

fn add_flag(lines: &mut Vec<String>, found: bool, line: &str)
    ensures
        final(lines).deep_view() == old(lines).deep_view() + flag(found, line@),
{
    if found {
        lines.push(String::from_str(line));
        assert(lines.deep_view() =~= old(lines).deep_view() + seq![line@]);
    } else {
        assert(lines.deep_view() =~= old(lines).deep_view() + Seq::<Seq<char>>::empty());
    }
}

/// Validates a script: runs every check and reports every fault.
pub fn check_config(config: &SakikoConfig) -> (r: Result<(), Error>)
    ensures
        outcome(r) == validate(*config),
{
    let mut lines: Vec<String> = Vec::new();
    assert(lines.deep_view() =~= Seq::<Seq<char>>::empty());
    add_section(&mut lines, "Step check failed", config.check());
    add_flag(&mut lines, config.has_end(), "Step 'end' is reserved");
    add_flag(&mut lines, config.get_variables().has_input(), "Variable 'input' is reserved");
    add_section(&mut lines, "Compares check failed", config.check_compares());
    add_section(&mut lines, "Description check failed", config.check_description());
    add_section(&mut lines, "Operation check failed", config.check_operations());
    assert(lines.deep_view() =~= report_lines(*config));
    conclude(&lines, "\n")
}

proof fn lemma_transaction_fault_listed(
    aspect: Aspect,
    steps: Seq<(Seq<char>, Step)>,
    globals: Store,
    step_name: Seq<char>,
    transactions: Seq<Transaction>,
    j: int,
) -> (k: int)
    requires
        0 <= j < transactions.len(),
        transaction_fault(aspect, steps, globals, step_name, transactions[j]) is Some,
    ensures
        0 <= k < transaction_faults(aspect, steps, globals, step_name, transactions).len(),
        transaction_faults(aspect, steps, globals, step_name, transactions)[k]
            == transaction_fault(aspect, steps, globals, step_name, transactions[j])->0,
    decreases transactions.len(),
{
    let before = transaction_faults(aspect, steps, globals, step_name, transactions.drop_last());
    if j == transactions.len() - 1 {
        before.len() as int
    } else {
        lemma_transaction_fault_listed(
            aspect,
            steps,
            globals,
            step_name,
            transactions.drop_last(),
            j,
        )
    }
}

proof fn lemma_step_fault_listed(
    aspect: Aspect,
    steps: Seq<(Seq<char>, Step)>,
    globals: Store,
    upto: Seq<(Seq<char>, Step)>,
    i: int,
    j: int,
) -> (k: int)
    requires
        0 <= i < upto.len(),
        0 <= j < upto[i].1.transaction@.len(),
        transaction_fault(aspect, steps, globals, upto[i].0, upto[i].1.transaction@[j]) is Some,
    ensures
        0 <= k < step_faults(aspect, steps, globals, upto).len(),
        step_faults(aspect, steps, globals, upto)[k] == transaction_fault(
            aspect,
            steps,
            globals,
            upto[i].0,
            upto[i].1.transaction@[j],
        )->0,
    decreases upto.len(),
{
    let before = step_faults(aspect, steps, globals, upto.drop_last());
    if i == upto.len() - 1 {
        let k = lemma_transaction_fault_listed(
            aspect,
            steps,
            globals,
            upto[i].0,
            upto[i].1.transaction@,
            j,
        );
        before.len() + k
    } else {
        lemma_step_fault_listed(aspect, steps, globals, upto.drop_last(), i, j)
    }
}

/// Where transition `j` of step `i` of a script leads to a step that the
/// script does not have and that is not `end`, validating the script fails,
/// and the report, which is not empty, holds the name of that step. The
/// report is a function of the script: the same script gives the same report.
pub proof fn lemma_undeclared_target_reported(config: SakikoConfig, i: int, j: int)
    requires
        0 <= i < config.steps().len(),
        0 <= j < config.steps()[i].1.transaction@.len(),
        !has_key(config.steps(), config.steps()[i].1.transaction@[j].step@),
        config.steps()[i].1.transaction@[j].step@ != "end"@,
    ensures
        validate(config) matches Err(Failure::Validation(report)) && report.len() > 0 && contains(
            report,
            config.steps()[i].1.transaction@[j].step@,
        ),
{
    let steps = config.steps();
    let target = steps[i].1.transaction@[j].step@;
    let fault = target_report(target, steps[i].0);
    assert(transaction_fault(
        Aspect::Targets,
        steps,
        config.globals(),
        steps[i].0,
        steps[i].1.transaction@[j],
    ) == Some(fault));
    let k = lemma_step_fault_listed(Aspect::Targets, steps, config.globals(), steps, i, j);
    let listed = step_faults(Aspect::Targets, steps, config.globals(), steps);
    let faults = config.graph_faults();
    let at = faults.len() - listed.len() + k;
    assert(faults[at] == fault);
    assert(contains(fault, target)) by {
        lemma_contains_itself(target);
        lemma_contains_within("Step "@, target, " in transaction of step "@ + steps[i].0 + " not found"@, target);
        assert("Step "@ + target + (" in transaction of step "@ + steps[i].0 + " not found"@)
            =~= fault);
    }
    lemma_join_contains(faults, ", "@, at, target);
    let graph = join(faults, ", "@);
    let lines = report_lines(config);
    assert(verdict_of(faults, ", "@) == Err::<(), Failure>(Failure::Validation(graph)));
    assert(lines[0] == "Step check failed"@ && lines[1] == graph);
    lemma_join_contains(lines, "\n"@, 1, target);
    lemma_contains_itself(lines[0]);
    lemma_join_contains(lines, "\n"@, 0, lines[0]);
    reveal_strlit("Step check failed");
}

proof fn lemma_description_fault_listed(globals: Store, upto: Seq<(Seq<char>, Step)>, i: int)
    requires
        0 <= i < upto.len(),
        missing_reports(upto[i].1.description.1.deep_view(), globals).len() > 0,
    ensures
        description_faults(globals, upto).len() > 0,
    decreases upto.len(),
{
    if i < upto.len() - 1 {
        lemma_description_fault_listed(globals, upto.drop_last(), i);
    }
}

/// A script that passes validation has a closed graph: its start step
/// exists, and every transition leads to a step that exists or to `end`.
/// It has no step named `end`, and declares no variable named `input`. And
/// it is well typed.
pub proof fn lemma_valid_script(config: SakikoConfig)
    requires
        validate(config) is Ok,
    ensures
        closed_graph(config),
        !has_key(config.steps(), "end"@),
        !config.globals().contains_key("input"@),
        well_typed(config),
{
    let globals = config.globals();
    assert(report_lines(config).len() == 0);
    assert forall|i: int, j: int|
        0 <= i < config.steps().len() && 0 <= j < config.steps()[i].1.transaction@.len() implies {
        let t = #[trigger] config.steps()[i].1.transaction@[j];
        &&& crate::compare::audited(t.compares.0@, globals)
        &&& crate::operation::audited(t.operation.0@, globals)
    } by {
        let steps = config.steps();
        let t = steps[i].1.transaction@[j];
        assert(step_faults(Aspect::Compares, steps, globals, steps).len() == 0);
        assert(step_faults(Aspect::Operations, steps, globals, steps).len() == 0);
        if transaction_fault(Aspect::Compares, steps, globals, steps[i].0, t) is Some {
            let k = lemma_step_fault_listed(Aspect::Compares, steps, globals, steps, i, j);
        }
        if transaction_fault(Aspect::Operations, steps, globals, steps[i].0, t) is Some {
            let k = lemma_step_fault_listed(Aspect::Operations, steps, globals, steps, i, j);
        }
        crate::compare::lemma_audit_reports_none(t.compares.0@, globals);
        crate::operation::lemma_audit_reports_none(t.operation.0@, globals);
    }
    assert forall|i: int| 0 <= i < config.steps().len() implies all_known(
        (#[trigger] config.steps()[i]).1.description.1.deep_view(),
        globals,
    ) by {
        let names = config.steps()[i].1.description.1.deep_view();
        assert(description_faults(globals, config.steps()).len() == 0);
        if missing_reports(names, globals).len() > 0 {
            lemma_description_fault_listed(globals, config.steps(), i);
        }
        lemma_missing_reports_none(names, globals);
    }
    lemma_closed_graph(config);
}

/// A script that passes validation is sound.
pub proof fn lemma_valid_is_sound(config: SakikoConfig)
    requires
        validate(config) is Ok,
    ensures
        sound(config),
        !config.globals().contains_key("input"@),
{
    lemma_valid_script(config);
}

proof fn lemma_closed_graph(config: SakikoConfig)
    requires
        validate(config) is Ok,
    ensures
        closed_graph(config),
        !has_key(config.steps(), "end"@),
        !config.globals().contains_key("input"@),
{
    let steps = config.steps();
    let listed = step_faults(Aspect::Targets, steps, config.globals(), steps);
    assert(report_lines(config).len() == 0);
    assert(verdict_of(config.graph_faults(), ", "@) is Ok);
    assert(config.graph_faults().len() == 0);
    assert(listed.len() == 0);
    assert forall|i: int, j: int|
        0 <= i < steps.len() && 0 <= j < steps[i].1.transaction@.len() implies on_graph(
        config,
        (#[trigger] steps[i].1.transaction@[j]).step@,
    ) by {
        if !on_graph(config, steps[i].1.transaction@[j].step@) {
            let k = lemma_step_fault_listed(Aspect::Targets, steps, config.globals(), steps, i, j);
        }
    }
}

} // verus!
