//! A session: one conversation that walks a script.
//!
//! The host drives it in turns. In each turn ([`Session::turn`]) the session
//! goes on as far as it can without saying anything, says what its step
//! says, and moves on by itself where it can. Where it cannot, the host hands
//! it the next input ([`Session::handle_input`]). The parts of a turn can be
//! called one by one as well: [`Session::need_stop`], [`Session::output`],
//! [`Session::handle_empty_input`].

use std::sync::Arc;
use vstd::prelude::*;
use crate::compare::{fold, lemma_audited_guard_holds};
use crate::config::{closed_graph, on_graph, well_typed, SakikoConfig, Step, Transaction};
use crate::dict::{key_at, lookup, position};
use crate::error::{outcome, ruled_out, Error, Failure};
use crate::float::FloatUnit;
use crate::operation::{
    lemma_audited_runs, lemma_covers_shape, lemma_runs_keeps_shape, lemma_same_shape_chain, runs,
    same_shape,
};
use crate::output::lemma_checked_output_renders;
use crate::trusted::{regex_found, regex_search, regex_valid};
use crate::variable::{covers, Store, Value, VariableType, Variables};

verus! {

/// A conversation: the script it walks, its own variables, and the step it is at.
#[derive(Debug, Clone)]
pub struct Session {
    config: Arc<SakikoConfig>,
    variables: Variables,
    now_step: String,
}

/// What changes in a session: its variables and the step it is at.
pub struct State {
    pub store: Store,
    pub at: Seq<char>,
}

/// The most steps without output that a session goes through in one go.
pub const SILENT_STEP_LIMIT: u64 = 0xffff_ffff_ffff_ffff;

/// The step named `at`, if the script has it.
pub open spec fn step_of(config: SakikoConfig, at: Seq<char>) -> Option<Step> {
    lookup(config.steps(), at)
}

/// Whether `input` matches `pattern`: where the pattern is a regular
/// expression, that it is found somewhere in the input; else, that the input
/// is the pattern.
pub open spec fn accepts(pattern: Seq<char>, input: Seq<char>) -> bool {
    if regex_valid(pattern) {
        regex_found(pattern, input)
    } else {
        pattern == input
    }
}

/// The transition taken without input, among those from number `from` on:
/// the first with an empty pattern whose guard holds on `store`. A guard that
/// cannot be evaluated, met before such a transition, is a failure.
pub open spec fn silent_choice(transactions: Seq<Transaction>, store: Store, from: int) -> Result<
    Option<int>,
    Failure,
>
    decreases transactions.len() - from,
{
    if from < 0 || from >= transactions.len() {
        Ok(None)
    } else if transactions[from].pattern@.len() != 0 {
        silent_choice(transactions, store, from + 1)
    } else {
        match fold(transactions[from].compares.0@, store) {
            Err(e) => Err(e),
            Ok(true) => Ok(Some(from)),
            Ok(false) => silent_choice(transactions, store, from + 1),
        }
    }
}

/// The transition taken on `input`, among those from number `from` on: the
/// first with a pattern, not empty, that the input matches, and whose guard
/// holds on `store`. A guard that cannot be evaluated, met before such a
/// transition, is a failure.
pub open spec fn input_choice(
    transactions: Seq<Transaction>,
    store: Store,
    input: Seq<char>,
    from: int,
) -> Result<Option<int>, Failure>
    decreases transactions.len() - from,
{
    if from < 0 || from >= transactions.len() {
        Ok(None)
    } else if transactions[from].pattern@.len() == 0 || !accepts(
        transactions[from].pattern@,
        input,
    ) {
        input_choice(transactions, store, input, from + 1)
    } else {
        match fold(transactions[from].compares.0@, store) {
            Err(e) => Err(e),
            Ok(true) => Ok(Some(from)),
            Ok(false) => input_choice(transactions, store, input, from + 1),
        }
    }
}

/// Whether taking the transition `t` in the state `pre` can end with the
/// result `r` and the state `post`: its instructions are run, with `unit`
/// for the floating-point results, and where none fails the session is at
/// the step the transition leads to; where one fails, the session stays at
/// its step.
pub open spec fn takes<U: FloatUnit>(
    unit: &U,
    t: Transaction,
    pre: State,
    r: Result<(), Failure>,
    post: State,
) -> bool {
    &&& runs(unit, t.operation.0@, pre.store, r, post.store)
    &&& post.at == (if r is Ok {
        t.step@
    } else {
        pre.at
    })
}

/// A result without what it holds on success.
pub open spec fn plain<T>(r: Result<T, Failure>) -> Result<(), Failure> {
    match r {
        Ok(_) => Ok(()),
        Err(e) => Err(e),
    }
}

/// Whether moving on without input from the state `pre` can end with the
/// result `r` and the state `post`. Where the step has a transition to take
/// without input, the session takes it and the result is `true`; where it has
/// none, nothing changes and the result is `false`.
pub open spec fn moves_silently<U: FloatUnit>(
    unit: &U,
    config: SakikoConfig,
    pre: State,
    r: Result<bool, Failure>,
    post: State,
) -> bool {
    match step_of(config, pre.at) {
        None => r == Err::<bool, Failure>(Failure::InvalidStep(pre.at)) && post == pre,
        Some(step) => match silent_choice(step.transaction@, pre.store, 0) {
            Err(e) => r == Err::<bool, Failure>(e) && post == pre,
            Ok(None) => r == Ok::<bool, Failure>(false) && post == pre,
            Ok(Some(k)) => r != Ok::<bool, Failure>(false) && takes(
                unit,
                step.transaction@[k],
                pre,
                plain(r),
                post,
            ),
        },
    }
}

/// The state `pre` once the session has heard `input`.
pub open spec fn heard(pre: State, input: Seq<char>) -> State {
    State { store: pre.store.insert("input"@, Value::Str(input)), at: pre.at }
}

/// Whether handling `input` in the state `pre` can end with the result `r`
/// and the state `post`. The input is stored in the variable `input`, then
/// the transition it chooses is taken. No transition for it is a failure.
pub open spec fn moves_on_input<U: FloatUnit>(
    unit: &U,
    config: SakikoConfig,
    pre: State,
    input: Seq<char>,
    r: Result<(), Failure>,
    post: State,
) -> bool {
    match step_of(config, pre.at) {
        None => r == Err::<(), Failure>(Failure::InvalidStep(pre.at)) && post == pre,
        Some(step) => match input_choice(step.transaction@, heard(pre, input).store, input, 0) {
            Err(e) => r == Err::<(), Failure>(e) && post == heard(pre, input),
            Ok(None) => r == Err::<(), Failure>(Failure::InvalidInput) && post == heard(pre, input),
            Ok(Some(k)) => takes(unit, step.transaction@[k], heard(pre, input), r, post),
        },
    }
}

/// Whether the session has something to say in the state `s`, or has ended:
/// it is at `end`, or at a step whose template is not empty.
pub open spec fn settled(config: SakikoConfig, s: State) -> bool {
    s.at == "end"@ || (step_of(config, s.at) matches Some(step) && step.description.0@.len() != 0)
}

/// Whether a session that has nothing to say in the state `from` moves on
/// silently to the state `to`.
pub open spec fn passes<U: FloatUnit>(
    unit: &U,
    config: SakikoConfig,
    from: State,
    to: State,
) -> bool {
    !settled(config, from) && moves_silently(unit, config, from, Ok::<bool, Failure>(true), to)
}

/// Whether `trace` lists the states of a session that goes on without
/// output until it ends with the result `r` and the state `post`. From each
/// state but the last, which is not settled, the session moved on silently
/// to the next. In the last state it is settled, and all is well; or it
/// cannot move on, and that is the failure; or it has made as many steps as
/// it may.
pub open spec fn settle_trace<U: FloatUnit>(
    unit: &U,
    config: SakikoConfig,
    trace: Seq<State>,
    r: Result<(), Failure>,
    post: State,
) -> bool {
    &&& 1 <= trace.len() <= SILENT_STEP_LIMIT + 1
    &&& forall|j: int| 0 <= j < trace.len() - 1 ==> passes(
        unit,
        config,
        trace[j],
        #[trigger] trace[j + 1],
    )
    &&& if settled(config, trace.last()) {
        r is Ok && post == trace.last()
    } else {
        ||| r == Err::<(), Failure>(Failure::StepLimit) && post == trace.last() && trace.len()
            == SILENT_STEP_LIMIT + 1
        ||| r == Err::<(), Failure>(Failure::NoValidTransition) && post == trace.last()
            && moves_silently(unit, config, trace.last(), Ok::<bool, Failure>(false), trace.last())
        ||| r matches Err(e) && moves_silently(
            unit,
            config,
            trace.last(),
            Err::<bool, Failure>(e),
            post,
        )
    }
}

/// Whether going on without output from the state `pre` can end with the
/// result `r` and the state `post`.
pub open spec fn settles<U: FloatUnit>(
    unit: &U,
    config: SakikoConfig,
    pre: State,
    r: Result<(), Failure>,
    post: State,
) -> bool {
    exists|trace: Seq<State>|
        trace.len() > 0 && trace[0] == pre && settle_trace(unit, config, trace, r, post)
}

/// Whether asking in the state `pre` if the session has ended can end with
/// the result `r` and the state `post`. A session at `end` has ended. Any
/// other goes on without output as far as it can, and has ended if that
/// brought it to `end`.
pub open spec fn stops<U: FloatUnit>(
    unit: &U,
    config: SakikoConfig,
    pre: State,
    r: Result<bool, Failure>,
    post: State,
) -> bool {
    if pre.at == "end"@ {
        r == Ok::<bool, Failure>(true) && post == pre
    } else {
        &&& settles(unit, config, pre, plain(r), post)
        &&& r matches Ok(ended) ==> ended == (post.at == "end"@)
    }
}

/// Whether the session holds its input: the variable `input` is a string.
pub open spec fn hears(s: State) -> bool {
    s.store.contains_key("input"@) && s.store["input"@] is Str
}

/// Whether the two states have the same variables, each of the same type,
/// and the second is on the graph of the script if the graph is closed and
/// the first is on it.
pub open spec fn keeps(config: SakikoConfig, pre: State, post: State) -> bool {
    &&& same_shape(pre.store, post.store)
    &&& closed_graph(config) && on_graph(config, pre.at) ==> on_graph(config, post.at)
}

/// Taking a transition adds no variable, removes none, and changes no
/// variable's type.
pub proof fn lemma_takes_keeps_shape<U: FloatUnit>(
    unit: &U,
    t: Transaction,
    pre: State,
    r: Result<(), Failure>,
    post: State,
)
    requires
        takes(unit, t, pre, r, post),
    ensures
        same_shape(pre.store, post.store),
{
    lemma_runs_keeps_shape(unit, t.operation.0@, pre.store, r, post.store);
}

proof fn lemma_step_is_listed(config: SakikoConfig, at: Seq<char>) -> (i: int)
    requires
        step_of(config, at) is Some,
    ensures
        0 <= i < config.steps().len(),
        config.steps()[i].1 == step_of(config, at)->0,
{
    let i = position(config.steps(), at);
    assert(key_at(config.steps(), at, i));
    i
}

/// Moving on without input keeps the variables and their types, and keeps
/// the session on a closed graph.
pub proof fn lemma_moves_silently_keeps<U: FloatUnit>(
    unit: &U,
    config: SakikoConfig,
    pre: State,
    r: Result<bool, Failure>,
    post: State,
)
    requires
        moves_silently(unit, config, pre, r, post),
    ensures
        keeps(config, pre, post),
{
    if let Some(step) = step_of(config, pre.at) {
        if let Ok(Some(k)) = silent_choice(step.transaction@, pre.store, 0) {
            lemma_silent_choice_is_first(step.transaction@, pre.store, 0);
            lemma_takes_keeps_shape(unit, step.transaction@[k], pre, plain(r), post);
            let i = lemma_step_is_listed(config, pre.at);
            assert(config.steps()[i].1.transaction@[k].step@ == step.transaction@[k].step@);
        }
    }
}

/// Whether the transition `t` can be taken without input on `store`: its
/// pattern is empty and its guard holds.
pub open spec fn open_silently(t: Transaction, store: Store) -> bool {
    t.pattern@.len() == 0 && fold(t.compares.0@, store) == Ok::<bool, Failure>(true)
}

/// Whether the transition `t` can be taken on `input` on `store`: its pattern
/// is not empty, the input matches it, and its guard holds.
pub open spec fn open_to(t: Transaction, store: Store, input: Seq<char>) -> bool {
    t.pattern@.len() != 0 && accepts(t.pattern@, input) && fold(t.compares.0@, store) == Ok::<
        bool,
        Failure,
    >(true)
}

/// The first match wins: the transition taken without input is one that
/// can be taken, and none before it can.
pub proof fn lemma_silent_choice_is_first(transactions: Seq<Transaction>, store: Store, from: int)
    requires
        0 <= from,
    ensures
        match silent_choice(transactions, store, from) {
            Ok(Some(k)) => {
                &&& from <= k < transactions.len()
                &&& open_silently(transactions[k], store)
                &&& forall|j: int| from <= j < k ==> !open_silently(#[trigger] transactions[j], store)
            },
            Ok(None) => forall|j: int|
                from <= j < transactions.len() ==> !open_silently(#[trigger] transactions[j], store),
            Err(_) => true,
        },
    decreases transactions.len() - from,
{
    if from < transactions.len() {
        lemma_silent_choice_is_first(transactions, store, from + 1);
    }
}

/// The first match wins: the transition taken on an input is one that can
/// be taken on it, and none before it can.
pub proof fn lemma_input_choice_is_first(
    transactions: Seq<Transaction>,
    store: Store,
    input: Seq<char>,
    from: int,
)
    requires
        0 <= from,
    ensures
        match input_choice(transactions, store, input, from) {
            Ok(Some(k)) => {
                &&& from <= k < transactions.len()
                &&& open_to(transactions[k], store, input)
                &&& forall|j: int|
                    from <= j < k ==> !open_to(#[trigger] transactions[j], store, input)
            },
            Ok(None) => forall|j: int|
                from <= j < transactions.len() ==> !open_to(
                    #[trigger] transactions[j],
                    store,
                    input,
                ),
            Err(_) => true,
        },
    decreases transactions.len() - from,
{
    if from < transactions.len() {
        lemma_input_choice_is_first(transactions, store, input, from + 1);
    }
}

/// Handling an input keeps the variables and their types as they are once
/// the input is stored, and keeps the session on a closed graph. A session
/// that held an input before holds one after, and has the variables it had.
pub proof fn lemma_moves_on_input_keeps<U: FloatUnit>(
    unit: &U,
    config: SakikoConfig,
    pre: State,
    input: Seq<char>,
    r: Result<(), Failure>,
    post: State,
)
    requires
        moves_on_input(unit, config, pre, input, r, post),
    ensures
        post == pre || keeps(config, heard(pre, input), post),
        hears(pre) ==> hears(post) && keeps(config, pre, post),
{
    if let Some(step) = step_of(config, pre.at) {
        let then = heard(pre, input);
        if let Ok(Some(k)) = input_choice(step.transaction@, then.store, input, 0) {
            lemma_input_choice_is_first(step.transaction@, then.store, input, 0);
            lemma_takes_keeps_shape(unit, step.transaction@[k], then, r, post);
            let i = lemma_step_is_listed(config, pre.at);
            assert(config.steps()[i].1.transaction@[k].step@ == step.transaction@[k].step@);
        }
        if hears(pre) {
            assert(same_shape(pre.store, then.store));
            assert(same_shape(then.store, post.store));
            lemma_same_shape_chain(pre.store, then.store, post.store);
            assert(then.store["input"@].kind() == post.store["input"@].kind());
            assert(on_graph(config, pre.at) ==> on_graph(config, then.at));
        }
    }
}

proof fn lemma_trace_keeps<U: FloatUnit>(unit: &U, config: SakikoConfig, trace: Seq<State>, j: int)
    requires
        0 <= j < trace.len(),
        forall|j: int| 0 <= j < trace.len() - 1 ==> passes(
            unit,
            config,
            trace[j],
            #[trigger] trace[j + 1],
        ),
    ensures
        keeps(config, trace[0], trace[j]),
    decreases j,
{
    if j > 0 {
        lemma_trace_keeps(unit, config, trace, j - 1);
        assert(passes(unit, config, trace[j - 1], trace[j - 1 + 1]));
        lemma_moves_silently_keeps(unit, config, trace[j - 1], Ok::<bool, Failure>(true), trace[j]);
        lemma_same_shape_chain(trace[0].store, trace[j - 1].store, trace[j].store);
    }
}

/// Going on without output keeps the variables and their types, and keeps
/// the session on a closed graph.
pub proof fn lemma_settles_keeps<U: FloatUnit>(
    unit: &U,
    config: SakikoConfig,
    pre: State,
    r: Result<(), Failure>,
    post: State,
)
    requires
        settles(unit, config, pre, r, post),
    ensures
        keeps(config, pre, post),
{
    let trace = choose|trace: Seq<State>|
        trace.len() > 0 && trace[0] == pre && settle_trace(unit, config, trace, r, post);
    lemma_trace_keeps(unit, config, trace, trace.len() - 1);
    if !settled(config, trace.last()) {
        if let Err(e) = r {
            if moves_silently(unit, config, trace.last(), Err::<bool, Failure>(e), post) {
                lemma_moves_silently_keeps(
                    unit,
                    config,
                    trace.last(),
                    Err::<bool, Failure>(e),
                    post,
                );
                lemma_same_shape_chain(pre.store, trace.last().store, post.store);
            }
        }
    }
}

/// On a closed graph, a session that is on the graph and not at its end is
/// at a step of the script: it does not fail for want of its step.
pub proof fn lemma_step_exists(config: SakikoConfig, s: State)
    requires
        closed_graph(config),
        on_graph(config, s.at),
        s.at != "end"@,
    ensures
        step_of(config, s.at) is Some,
{
}

/// Whether the script is sound: its graph is closed and it is well typed.
/// A script that passes validation is sound.
pub open spec fn sound(config: SakikoConfig) -> bool {
    closed_graph(config) && well_typed(config)
}

/// Whether the state fits the script: the session has the variables that
/// the script declares, with their types, holds its input, and is on the
/// graph.
pub open spec fn fits(config: SakikoConfig, s: State) -> bool {
    covers(config.globals(), s.store) && hears(s) && on_graph(config, s.at)
}

/// A failure that a sound script rules out does not occur.
pub open spec fn safe<T>(r: Result<T, Failure>) -> bool {
    r matches Err(e) ==> !ruled_out(e)
}

proof fn lemma_sound_silent_choice(
    config: SakikoConfig,
    i: int,
    store: Store,
    from: int,
)
    requires
        well_typed(config),
        0 <= i < config.steps().len(),
        covers(config.globals(), store),
        0 <= from,
    ensures
        silent_choice(config.steps()[i].1.transaction@, store, from) is Ok,
    decreases config.steps()[i].1.transaction@.len() - from,
{
    let transactions = config.steps()[i].1.transaction@;
    if from < transactions.len() {
        let t = config.steps()[i].1.transaction@[from];
        lemma_audited_guard_holds(t.compares.0@, config.globals(), store);
        lemma_sound_silent_choice(config, i, store, from + 1);
    }
}

proof fn lemma_sound_input_choice(
    config: SakikoConfig,
    i: int,
    store: Store,
    input: Seq<char>,
    from: int,
)
    requires
        well_typed(config),
        0 <= i < config.steps().len(),
        covers(config.globals(), store),
        0 <= from,
    ensures
        input_choice(config.steps()[i].1.transaction@, store, input, from) is Ok,
    decreases config.steps()[i].1.transaction@.len() - from,
{
    let transactions = config.steps()[i].1.transaction@;
    if from < transactions.len() {
        let t = config.steps()[i].1.transaction@[from];
        lemma_audited_guard_holds(t.compares.0@, config.globals(), store);
        lemma_sound_input_choice(config, i, store, input, from + 1);
    }
}

proof fn lemma_sound_takes<U: FloatUnit>(
    unit: &U,
    config: SakikoConfig,
    i: int,
    k: int,
    pre: State,
    r: Result<(), Failure>,
    post: State,
)
    requires
        sound(config),
        0 <= i < config.steps().len(),
        0 <= k < config.steps()[i].1.transaction@.len(),
        covers(config.globals(), pre.store),
        hears(pre),
        on_graph(config, pre.at),
        takes(unit, config.steps()[i].1.transaction@[k], pre, r, post),
    ensures
        fits(config, post),
        safe(r),
{
    let t = config.steps()[i].1.transaction@[k];
    lemma_audited_runs(unit, t.operation.0@, config.globals(), pre.store, r, post.store);
}

/// In a sound script, a session that fits the script and is not at its end
/// moves on without input without a failure that the checks rule out, and
/// still fits the script.
pub proof fn lemma_sound_moves_silently<U: FloatUnit>(
    unit: &U,
    config: SakikoConfig,
    pre: State,
    r: Result<bool, Failure>,
    post: State,
)
    requires
        sound(config),
        fits(config, pre),
        pre.at != "end"@,
        moves_silently(unit, config, pre, r, post),
    ensures
        fits(config, post),
        safe(r),
{
    let i = lemma_step_is_listed(config, pre.at);
    let step = step_of(config, pre.at)->0;
    lemma_sound_silent_choice(config, i, pre.store, 0);
    lemma_silent_choice_is_first(step.transaction@, pre.store, 0);
    if let Ok(Some(k)) = silent_choice(step.transaction@, pre.store, 0) {
        lemma_sound_takes(unit, config, i, k, pre, plain(r), post);
    }
}

/// In a sound script, a session that fits the script and is not at its end
/// handles an input without a failure that the checks rule out, and still
/// fits the script.
pub proof fn lemma_sound_moves_on_input<U: FloatUnit>(
    unit: &U,
    config: SakikoConfig,
    pre: State,
    input: Seq<char>,
    r: Result<(), Failure>,
    post: State,
)
    requires
        sound(config),
        fits(config, pre),
        pre.at != "end"@,
        moves_on_input(unit, config, pre, input, r, post),
    ensures
        fits(config, post),
        safe(r),
{
    let i = lemma_step_is_listed(config, pre.at);
    let step = step_of(config, pre.at)->0;
    let then = heard(pre, input);
    assert(same_shape(pre.store, then.store));
    lemma_covers_shape(config.globals(), pre.store, then.store);
    lemma_sound_input_choice(config, i, then.store, input, 0);
    lemma_input_choice_is_first(step.transaction@, then.store, input, 0);
    if let Ok(Some(k)) = input_choice(step.transaction@, then.store, input, 0) {
        lemma_sound_takes(unit, config, i, k, then, r, post);
    }
}

proof fn lemma_sound_trace<U: FloatUnit>(unit: &U, config: SakikoConfig, trace: Seq<State>, j: int)
    requires
        sound(config),
        0 <= j < trace.len(),
        fits(config, trace[0]),
        forall|j: int| 0 <= j < trace.len() - 1 ==> passes(
            unit,
            config,
            trace[j],
            #[trigger] trace[j + 1],
        ),
    ensures
        fits(config, trace[j]),
    decreases j,
{
    if j > 0 {
        lemma_sound_trace(unit, config, trace, j - 1);
        assert(passes(unit, config, trace[j - 1], trace[j - 1 + 1]));
        lemma_sound_moves_silently(unit, config, trace[j - 1], Ok::<bool, Failure>(true), trace[j]);
    }
}

/// In a sound script, a session that fits the script goes on without
/// output without a failure that the checks rule out, and still fits the
/// script.
pub proof fn lemma_sound_settles<U: FloatUnit>(
    unit: &U,
    config: SakikoConfig,
    pre: State,
    r: Result<(), Failure>,
    post: State,
)
    requires
        sound(config),
        fits(config, pre),
        settles(unit, config, pre, r, post),
    ensures
        fits(config, post),
        safe(r),
{
    let trace = choose|trace: Seq<State>|
        trace.len() > 0 && trace[0] == pre && settle_trace(unit, config, trace, r, post);
    lemma_sound_trace(unit, config, trace, trace.len() - 1);
    if !settled(config, trace.last()) {
        if let Err(e) = r {
            if moves_silently(unit, config, trace.last(), Err::<bool, Failure>(e), post) {
                lemma_sound_moves_silently(
                    unit,
                    config,
                    trace.last(),
                    Err::<bool, Failure>(e),
                    post,
                );
            }
        }
    }
}

/// In a sound script, a session that fits the script and is not at its end
/// has something to say: rendering its output does not fail.
pub proof fn lemma_sound_spoken(config: SakikoConfig, s: State)
    requires
        sound(config),
        fits(config, s),
        s.at != "end"@,
    ensures
        spoken(config, s) is Ok,
{
    let i = lemma_step_is_listed(config, s.at);
    lemma_checked_output_renders(config.steps()[i].1.description, config.globals(), s.store);
}

/// A session at the start of a sound script that declares no variable named
/// `input` fits the script.
pub proof fn lemma_sound_start(config: SakikoConfig)
    requires
        sound(config),
        !config.globals().contains_key("input"@),
    ensures
        fits(
            config,
            State {
                store: config.globals().insert("input"@, Value::Str(Seq::empty())),
                at: config.start(),
            },
        ),
{
}

/// What the session says in the state `s`: the output of its step, rendered
/// on its variables.
pub open spec fn spoken(config: SakikoConfig, s: State) -> Result<Seq<char>, Failure> {
    match step_of(config, s.at) {
        None => Err(Failure::InvalidStep(s.at)),
        Some(step) => step.description.rendered(s.store),
    }
}

/// A rendering, as the text or the failure it is.
pub open spec fn said(r: Result<String, Error>) -> Result<Seq<char>, Failure> {
    match r {
        Ok(text) => Ok(text@),
        Err(e) => Err(e@),
    }
}

/// How a turn of a session ends.
#[derive(Debug, PartialEq)]
pub enum Turn {
    /// The session has come to its end.
    End,
    /// The session said this and moved on by itself: the next turn follows.
    Say(String),
    /// The session said this and waits for an input.
    Ask(String),
}

/// What a [`Turn`] is to the contracts.
pub enum Move {
    End,
    Say(Seq<char>),
    Ask(Seq<char>),
}

impl View for Turn {
    type V = Move;

    open spec fn view(&self) -> Move {
        match self {
            Turn::End => Move::End,
            Turn::Say(text) => Move::Say(text@),
            Turn::Ask(text) => Move::Ask(text@),
        }
    }
}

/// A turn's result, as the move or the failure it is.
pub open spec fn moved(r: Result<Turn, Error>) -> Result<Move, Failure> {
    match r {
        Ok(turn) => Ok(turn@),
        Err(e) => Err(e@),
    }
}

/// Whether a turn from the state `pre` can end with the result `r` and the
/// state `post` by way of the state `mid`: asking whether the session has
/// ended gives `ended` and `mid`. A failure there, or the end, is the turn's
/// result. Else the session says in `mid` what its step says, and moves on
/// without input to `post` if it can.
pub open spec fn turns_by<U: FloatUnit>(
    unit: &U,
    config: SakikoConfig,
    pre: State,
    ended: Result<bool, Failure>,
    mid: State,
    r: Result<Move, Failure>,
    post: State,
) -> bool {
    &&& stops(unit, config, pre, ended, mid)
    &&& match ended {
        Err(e) => r == Err::<Move, Failure>(e) && post == mid,
        Ok(true) => r == Ok::<Move, Failure>(Move::End) && post == mid,
        Ok(false) => match spoken(config, mid) {
            Err(e) => r == Err::<Move, Failure>(e) && post == mid,
            Ok(text) => match r {
                Ok(Move::End) => false,
                Ok(Move::Say(said)) => said == text && moves_silently(
                    unit,
                    config,
                    mid,
                    Ok::<bool, Failure>(true),
                    post,
                ),
                Ok(Move::Ask(said)) => said == text && moves_silently(
                    unit,
                    config,
                    mid,
                    Ok::<bool, Failure>(false),
                    post,
                ),
                Err(e) => moves_silently(unit, config, mid, Err::<bool, Failure>(e), post),
            },
        },
    }
}

/// Whether a turn from the state `pre` can end with the result `r` and the
/// state `post`.
pub open spec fn turns<U: FloatUnit>(
    unit: &U,
    config: SakikoConfig,
    pre: State,
    r: Result<Move, Failure>,
    post: State,
) -> bool {
    exists|ended: Result<bool, Failure>, mid: State| turns_by(
        unit,
        config,
        pre,
        ended,
        mid,
        r,
        post,
    )
}

/// What a session says is a function of the script and the state it is in:
/// asked twice with nothing in between, it says the same both times.
pub proof fn lemma_output_repeats(
    config: SakikoConfig,
    s: State,
    first: Result<String, Error>,
    second: Result<String, Error>,
)
    requires
        said(first) == spoken(config, s),
        said(second) == spoken(config, s),
    ensures
        said(first) == said(second),
{
}

fn pick_silent(transactions: &Vec<Transaction>, variables: &Variables) -> (r: Result<
    Option<usize>,
    Error,
>)
    ensures
        match r {
            Ok(Some(k)) => k < transactions.len() && silent_choice(transactions@, variables@, 0)
                == Ok::<Option<int>, Failure>(Some(k as int)),
            Ok(None) => silent_choice(transactions@, variables@, 0) == Ok::<Option<int>, Failure>(
                None,
            ),
            Err(e) => silent_choice(transactions@, variables@, 0) == Err::<Option<int>, Failure>(
                e@,
            ),
        },
{
    let mut i: usize = 0;
    while i < transactions.len()
        invariant
            i <= transactions.len(),
            silent_choice(transactions@, variables@, 0) == silent_choice(
                transactions@,
                variables@,
                i as int,
            ),
        decreases transactions.len() - i,
    {
        if transactions[i].pattern.as_str().is_empty() {
            match transactions[i].compares.calc(variables) {
                Ok(true) => {
                    return Ok(Some(i));
                },
                Ok(false) => {},
                Err(e) => {
                    return Err(e);
                },
            }
        }
        i += 1;
    }
    Ok(None)
}

fn pattern_accepts(pattern: &str, input: &str) -> (r: bool)
    ensures
        r == accepts(pattern@, input@),
{
    match regex_search(pattern, input) {
        Some(found) => found,
        None => *pattern == *input,
    }
}

fn pick_for_input(transactions: &Vec<Transaction>, variables: &Variables, input: &str) -> (r:
    Result<Option<usize>, Error>)
    ensures
        match r {
            Ok(Some(k)) => k < transactions.len() && input_choice(
                transactions@,
                variables@,
                input@,
                0,
            ) == Ok::<Option<int>, Failure>(Some(k as int)),
            Ok(None) => input_choice(transactions@, variables@, input@, 0) == Ok::<
                Option<int>,
                Failure,
            >(None),
            Err(e) => input_choice(transactions@, variables@, input@, 0) == Err::<
                Option<int>,
                Failure,
            >(e@),
        },
{
    let mut i: usize = 0;
    while i < transactions.len()
        invariant
            i <= transactions.len(),
            input_choice(transactions@, variables@, input@, 0) == input_choice(
                transactions@,
                variables@,
                input@,
                i as int,
            ),
        decreases transactions.len() - i,
    {
        let pattern = transactions[i].pattern.as_str();
        if !pattern.is_empty() && pattern_accepts(pattern, input) {
            match transactions[i].compares.calc(variables) {
                Ok(true) => {
                    return Ok(Some(i));
                },
                Ok(false) => {},
                Err(e) => {
                    return Err(e);
                },
            }
        }
        i += 1;
    }
    Ok(None)
}

fn take<U: FloatUnit>(
    t: &Transaction,
    variables: &mut Variables,
    now_step: &mut String,
    unit: &U,
) -> (r: Result<(), Error>)
    ensures
        takes(
            unit,
            *t,
            State { store: old(variables)@, at: old(now_step)@ },
            outcome(r),
            State { store: final(variables)@, at: final(now_step)@ },
        ),
        same_shape(old(variables)@, final(variables)@),
{
    t.operation.calculate(variables, unit)?;
    *now_step = t.step.clone();
    Ok(())
}

impl Session {
    /// The script the session walks.
    pub closed spec fn script(&self) -> SakikoConfig {
        *self.config
    }

    /// The variables of the session and the step it is at.
    pub closed spec fn state(&self) -> State {
        State { store: self.variables@, at: self.now_step@ }
    }

    /// A session at the start of `config`, with the variables that the script
    /// declares and an empty `input`.
    pub fn new(config: Arc<SakikoConfig>) -> (r: Session)
        ensures
            r.script() == *config,
            r.state() == (State {
                store: config.globals().insert("input"@, Value::Str(Seq::empty())),
                at: config.start(),
            }),
            hears(r.state()),
            closed_graph(*config) ==> on_graph(*config, r.state().at),
    {
        let mut variables = config.get_variables().clone();
        variables.insert(String::from_str("input"), VariableType::Str(String::new()));
        let now_step = String::from_str(config.get_start_step());
        Session { config, variables, now_step }
    }

    /// The name of the bot.
    pub fn get_bot_name(&self) -> (r: &str)
        ensures
            r@ == self.script().bot_name(),
    {
        self.config.get_bot_name()
    }

    /// Whether the session has come to its end.
    pub fn is_end(&self) -> (r: bool)
        ensures
            r == (self.state().at == "end"@),
    {
        *self.now_step.as_str() == *"end"
    }

    /// What the session says at its step.
    pub fn output(&self) -> (r: Result<String, Error>)
        ensures
            said(r) == spoken(self.script(), self.state()),
    {
        match self.config.get_step(self.now_step.as_str()) {
            Some(step) => step.description.fmt(&self.variables),
            None => Err(Error::InvalidStep(self.now_step.clone())),
        }
    }

    /// Moves on without input where the step allows it: takes the first
    /// transition with an empty pattern whose guard holds. Says whether it
    /// took one.
    pub fn handle_empty_input<U: FloatUnit>(&mut self, unit: &U) -> (r: Result<bool, Error>)
        ensures
            final(self).script() == old(self).script(),
            moves_silently(
                unit,
                old(self).script(),
                old(self).state(),
                outcome(r),
                final(self).state(),
            ),
            keeps(old(self).script(), old(self).state(), final(self).state()),
    {
        proof {
            let config = self.script();
            let pre = self.state();
            assert forall|r: Result<bool, Failure>, post: State|
                moves_silently(unit, config, pre, r, post) implies keeps(config, pre, post) by {
                lemma_moves_silently_keeps(unit, config, pre, r, post);
            }
        }
        let step = match self.config.get_step(self.now_step.as_str()) {
            Some(step) => step,
            None => {
                return Err(Error::InvalidStep(self.now_step.clone()));
            },
        };
        match pick_silent(&step.transaction, &self.variables)? {
            Some(k) => {
                take(&step.transaction[k], &mut self.variables, &mut self.now_step, unit)?;
                Ok(true)
            },
            None => Ok(false),
        }
    }

    /// Goes on, step by step, as long as the step says nothing: until the
    /// session is at `end` or at a step with something to say. A step that
    /// says nothing and has no transition to take without input is a failure.
    pub fn handle_empty_output<U: FloatUnit>(&mut self, unit: &U) -> (r: Result<(), Error>)
        ensures
            final(self).script() == old(self).script(),
            settles(unit, old(self).script(), old(self).state(), outcome(r), final(self).state()),
            keeps(old(self).script(), old(self).state(), final(self).state()),
    {
        let r = self.settle(unit);
        proof {
            lemma_settles_keeps(
                unit,
                old(self).script(),
                old(self).state(),
                outcome(r),
                self.state(),
            );
        }
        r
    }

    fn settle<U: FloatUnit>(&mut self, unit: &U) -> (r: Result<(), Error>)
        ensures
            final(self).script() == old(self).script(),
            settles(unit, old(self).script(), old(self).state(), outcome(r), final(self).state()),
    {
        let ghost mut trace: Seq<State> = seq![self.state()];
        let mut budget: u64 = SILENT_STEP_LIMIT;
        loop
            invariant
                self.script() == old(self).script(),
                trace.len() == SILENT_STEP_LIMIT - budget + 1,
                trace[0] == old(self).state(),
                trace.last() == self.state(),
                forall|j: int|
                    0 <= j < trace.len() - 1 ==> passes(
                        unit,
                        self.script(),
                        trace[j],
                        #[trigger] trace[j + 1],
                    ),
            decreases budget,
        {
            if self.is_end() {
                assert(settle_trace(
                    unit,
                    self.script(),
                    trace,
                    Ok::<(), Failure>(()),
                    self.state(),
                ));
                return Ok(());
            }
            let step = match self.config.get_step(self.now_step.as_str()) {
                Some(step) => step,
                None => {
                    let e = Error::InvalidStep(self.now_step.clone());
                    assert(moves_silently(
                        unit,
                        self.script(),
                        trace.last(),
                        Err::<bool, Failure>(e@),
                        self.state(),
                    ));
                    assert(settle_trace(
                        unit,
                        self.script(),
                        trace,
                        Err::<(), Failure>(e@),
                        self.state(),
                    ));
                    return Err(e);
                },
            };
            if !step.description.is_empty() {
                assert(settle_trace(
                    unit,
                    self.script(),
                    trace,
                    Ok::<(), Failure>(()),
                    self.state(),
                ));
                return Ok(());
            }
            if budget == 0 {
                assert(settle_trace(
                    unit,
                    self.script(),
                    trace,
                    Err::<(), Failure>(Failure::StepLimit),
                    self.state(),
                ));
                return Err(Error::StepLimit);
            }
            let k = match pick_silent(&step.transaction, &self.variables) {
                Ok(Some(k)) => k,
                Ok(None) => {
                    assert(settle_trace(
                        unit,
                        self.script(),
                        trace,
                        Err::<(), Failure>(Failure::NoValidTransition),
                        self.state(),
                    ));
                    return Err(Error::NoValidTransition);
                },
                Err(e) => {
                    assert(moves_silently(
                        unit,
                        self.script(),
                        trace.last(),
                        Err::<bool, Failure>(e@),
                        self.state(),
                    ));
                    assert(settle_trace(
                        unit,
                        self.script(),
                        trace,
                        Err::<(), Failure>(e@),
                        self.state(),
                    ));
                    return Err(e);
                },
            };
            match take(&step.transaction[k], &mut self.variables, &mut self.now_step, unit) {
                Ok(_) => {
                    proof {
                        trace = trace.push(self.state());
                    }
                    budget = budget - 1;
                },
                Err(e) => {
                    assert(moves_silently(
                        unit,
                        self.script(),
                        trace.last(),
                        Err::<bool, Failure>(e@),
                        self.state(),
                    ));
                    assert(settle_trace(
                        unit,
                        self.script(),
                        trace,
                        Err::<(), Failure>(e@),
                        self.state(),
                    ));
                    return Err(e);
                },
            }
        }
    }

    /// Handles an input: stores it in the variable `input`, and takes the
    /// first transition whose pattern it matches and whose guard holds.
    pub fn handle_input<U: FloatUnit>(&mut self, input: &str, unit: &U) -> (r: Result<(), Error>)
        ensures
            final(self).script() == old(self).script(),
            moves_on_input(
                unit,
                old(self).script(),
                old(self).state(),
                input@,
                outcome(r),
                final(self).state(),
            ),
            hears(old(self).state()) ==> hears(final(self).state()) && keeps(
                old(self).script(),
                old(self).state(),
                final(self).state(),
            ),
    {
        proof {
            let config = self.script();
            let pre = self.state();
            assert forall|r: Result<(), Failure>, post: State|
                moves_on_input(unit, config, pre, input@, r, post) && hears(pre) implies hears(post)
                && keeps(config, pre, post) by {
                lemma_moves_on_input_keeps(unit, config, pre, input@, r, post);
            }
        }
        let step = match self.config.get_step(self.now_step.as_str()) {
            Some(step) => step,
            None => {
                return Err(Error::InvalidStep(self.now_step.clone()));
            },
        };
        self.variables.insert(String::from_str("input"), VariableType::Str(String::from_str(input)));
        match pick_for_input(&step.transaction, &self.variables, input)? {
            Some(k) => take(&step.transaction[k], &mut self.variables, &mut self.now_step, unit),
            None => Err(Error::InvalidInput),
        }
    }

    /// One turn of the session: goes on as far as it can without output;
    /// unless that was the end, says what the step says; and moves on where
    /// the step lets it move on without input.
    pub fn turn<U: FloatUnit>(&mut self, unit: &U) -> (r: Result<Turn, Error>)
        ensures
            final(self).script() == old(self).script(),
            turns(unit, old(self).script(), old(self).state(), moved(r), final(self).state()),
    {
        let ended = self.need_stop(unit);
        let ghost mid = self.state();
        let ghost config = self.script();
        match ended {
            Err(e) => {
                assert(turns_by(
                    unit,
                    config,
                    old(self).state(),
                    outcome(ended),
                    mid,
                    Err::<Move, Failure>(e@),
                    mid,
                ));
                Err(e)
            },
            Ok(true) => {
                assert(turns_by(
                    unit,
                    config,
                    old(self).state(),
                    outcome(ended),
                    mid,
                    Ok::<Move, Failure>(Move::End),
                    mid,
                ));
                Ok(Turn::End)
            },
            Ok(false) => {
                let text = match self.output() {
                    Ok(text) => text,
                    Err(e) => {
                        assert(turns_by(
                            unit,
                            config,
                            old(self).state(),
                            outcome(ended),
                            mid,
                            Err::<Move, Failure>(e@),
                            mid,
                        ));
                        return Err(e);
                    },
                };
                let r = match self.handle_empty_input(unit) {
                    Ok(true) => Ok(Turn::Say(text)),
                    Ok(false) => Ok(Turn::Ask(text)),
                    Err(e) => Err(e),
                };
                assert(turns_by(
                    unit,
                    config,
                    old(self).state(),
                    outcome(ended),
                    mid,
                    moved(r),
                    self.state(),
                ));
                r
            },
        }
    }

    /// Whether the session has ended, after it has gone on as far as it can
    /// without output.
    pub fn need_stop<U: FloatUnit>(&mut self, unit: &U) -> (r: Result<bool, Error>)
        ensures
            final(self).script() == old(self).script(),
            stops(unit, old(self).script(), old(self).state(), outcome(r), final(self).state()),
            keeps(old(self).script(), old(self).state(), final(self).state()),
    {
        if self.is_end() {
            return Ok(true);
        }
        self.handle_empty_output(unit)?;
        Ok(self.is_end())
    }
}

} // verus!
