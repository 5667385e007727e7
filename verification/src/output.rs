//! What a step says: a template, and the variables whose values fill it.

use vstd::prelude::*;
use crate::compare::{conclude, verdict_of};
use crate::error::{outcome, Error, Failure};
use crate::text::chars_of;
use crate::variable::{covers, Value, Variables};

verus! {

/// A template and the names of the variables that fill its markers `{}`, the
/// first name the first marker, and so on.
#[derive(Debug, PartialEq)]
pub struct Output(pub String, pub Vec<String>);

/// Whether a marker `{}` begins at place `i` of `template`.
pub open spec fn marker_at(template: Seq<char>, i: int) -> bool {
    0 <= i && i + 1 < template.len() && template[i] == '{' && template[i + 1] == '}'
}

/// The place of the first marker at or after `from`; the template's length
/// where there is none.
pub open spec fn next_marker(template: Seq<char>, from: int) -> int
    decreases template.len() - from,
{
    if from + 1 >= template.len() {
        template.len() as int
    } else if marker_at(template, from) {
        from
    } else {
        next_marker(template, from + 1)
    }
}

/// The template from place `from` on, its markers filled in turn with the
/// texts from number `k` on. Markers beyond the last text stay as they are.
pub open spec fn fill_from(template: Seq<char>, from: int, texts: Seq<Seq<char>>, k: int) -> Seq<
    char,
>
    decreases texts.len() - k,
{
    let at = next_marker(template, from);
    if k < 0 || k >= texts.len() || at >= template.len() {
        template.subrange(from, template.len() as int)
    } else {
        template.subrange(from, at) + texts[k] + fill_from(template, at + 2, texts, k + 1)
    }
}

/// The template with its markers filled in turn with the texts. Where there
/// are more markers than texts the later markers stay as they are; where
/// there are more texts than markers the later texts are not used.
pub open spec fn fill(template: Seq<char>, texts: Seq<Seq<char>>) -> Seq<char> {
    fill_from(template, 0, texts, 0)
}

/// The pieces of the template from place `from` on: what stands before the
/// first marker, between each two markers, and after the last.
pub open spec fn pieces_from(template: Seq<char>, from: int) -> Seq<Seq<char>>
    decreases template.len() - from,
{
    let at = next_marker(template, from);
    if from < 0 || at + 2 > template.len() || at < from {
        seq![template.subrange(from, template.len() as int)]
    } else {
        seq![template.subrange(from, at)] + pieces_from(template, at + 2)
    }
}

/// The pieces of the template: what stands before the first marker, between
/// each two markers, and after the last.
pub open spec fn pieces(template: Seq<char>) -> Seq<Seq<char>> {
    pieces_from(template, 0)
}

/// The pieces with the texts between them: a piece, a text, a piece, and so
/// on, for as long as there is a piece and a text to follow.
pub open spec fn weave(pieces: Seq<Seq<char>>, texts: Seq<Seq<char>>) -> Seq<char>
    decreases pieces.len(),
{
    if pieces.len() == 0 {
        Seq::empty()
    } else if pieces.len() == 1 || texts.len() == 0 {
        pieces[0]
    } else {
        pieces[0] + texts[0] + weave(pieces.skip(1), texts.skip(1))
    }
}

/// The first marker at or after a place is not before it, and is a marker
/// unless it is the end of the template.
pub proof fn lemma_next_marker(template: Seq<char>, from: int)
    requires
        0 <= from <= template.len(),
    ensures
        from <= next_marker(template, from) <= template.len(),
        next_marker(template, from) < template.len() ==> marker_at(
            template,
            next_marker(template, from),
        ),
        forall|i: int| from <= i < next_marker(template, from) ==> !marker_at(template, i),
    decreases template.len() - from,
{
    if from + 1 < template.len() && !marker_at(template, from) {
        lemma_next_marker(template, from + 1);
    }
}

proof fn lemma_fill_weaves_from(template: Seq<char>, from: int, texts: Seq<Seq<char>>, k: int)
    requires
        0 <= from <= template.len(),
        0 <= k <= texts.len(),
        texts.len() - k == pieces_from(template, from).len() - 1,
    ensures
        fill_from(template, from, texts, k) == weave(pieces_from(template, from), texts.skip(k)),
    decreases template.len() - from,
{
    lemma_next_marker(template, from);
    let at = next_marker(template, from);
    if at < template.len() {
        let rest = pieces_from(template, at + 2);
        let all = pieces_from(template, from);
        assert(all.skip(1) =~= rest);
        assert(texts.skip(k).skip(1) =~= texts.skip(k + 1));
        lemma_fill_weaves_from(template, at + 2, texts, k + 1);
    }
}

/// A template that has as many markers as there are texts, filled, is its
/// pieces with the texts between them, each text in the place of one
/// marker: taking the pieces away from the filled template leaves the texts.
pub proof fn lemma_fill_weaves(template: Seq<char>, texts: Seq<Seq<char>>)
    requires
        texts.len() == pieces(template).len() - 1,
    ensures
        fill(template, texts) == weave(pieces(template), texts),
{
    assert(texts.skip(0) =~= texts);
    lemma_fill_weaves_from(template, 0, texts, 0);
}

/// The first of the names from number `from` on that `store` does not have.
pub open spec fn first_missing(names: Seq<Seq<char>>, store: Map<Seq<char>, Value>, from: int) -> Option<
    Seq<char>,
>
    decreases names.len() - from,
{
    if from < 0 || from >= names.len() {
        None
    } else if !store.contains_key(names[from]) {
        Some(names[from])
    } else {
        first_missing(names, store, from + 1)
    }
}

/// The display texts of the variables named, in order.
pub open spec fn texts_of(names: Seq<Seq<char>>, store: Map<Seq<char>, Value>) -> Seq<Seq<char>> {
    Seq::new(names.len(), |i: int| store[names[i]].render())
}

/// The report of a variable that an output names and the store does not have.
pub open spec fn missing_report(name: Seq<char>) -> Seq<char> {
    "Variable not found: "@ + name
}

/// The reports of the names that `store` does not have, in order.
pub open spec fn missing_reports(names: Seq<Seq<char>>, store: Map<Seq<char>, Value>) -> Seq<
    Seq<char>,
>
    decreases names.len(),
{
    if names.len() == 0 {
        Seq::empty()
    } else if store.contains_key(names.last()) {
        missing_reports(names.drop_last(), store)
    } else {
        missing_reports(names.drop_last(), store).push(missing_report(names.last()))
    }
}

/// Whether `store` has every one of the names.
pub open spec fn all_known(names: Seq<Seq<char>>, store: Map<Seq<char>, Value>) -> bool {
    forall|i: int| 0 <= i < names.len() ==> store.contains_key(#[trigger] names[i])
}

/// A check of an output reports nothing exactly when every name is known.
pub proof fn lemma_missing_reports_none(names: Seq<Seq<char>>, store: Map<Seq<char>, Value>)
    ensures
        missing_reports(names, store).len() == 0 <==> all_known(names, store),
    decreases names.len(),
{
    if names.len() > 0 {
        lemma_missing_reports_none(names.drop_last(), store);
        if all_known(names, store) {
            assert forall|i: int| 0 <= i < names.drop_last().len() implies store.contains_key(
                #[trigger] names.drop_last()[i],
            ) by {
                assert(names.drop_last()[i] == names[i]);
            }
            assert(store.contains_key(names[names.len() - 1]));
        }
        if all_known(names.drop_last(), store) && store.contains_key(names.last()) {
            assert forall|i: int| 0 <= i < names.len() implies store.contains_key(
                #[trigger] names[i],
            ) by {
                if i < names.len() - 1 {
                    assert(names.drop_last()[i] == names[i]);
                }
            }
        }
    }
}

/// Where every name is known, none is missing.
pub proof fn lemma_known_none_missing(names: Seq<Seq<char>>, store: Map<Seq<char>, Value>, from: int)
    requires
        all_known(names, store),
        0 <= from,
    ensures
        first_missing(names, store, from) is None,
    decreases names.len() - from,
{
    if from < names.len() {
        assert(store.contains_key(names[from]));
        lemma_known_none_missing(names, store, from + 1);
    }
}

/// An output that passed its check against the declared variables can be
/// rendered on every store that has those variables.
pub proof fn lemma_checked_output_renders(
    output: Output,
    declared: Map<Seq<char>, Value>,
    store: Map<Seq<char>, Value>,
)
    requires
        all_known(output.1.deep_view(), declared),
        covers(declared, store),
    ensures
        output.rendered(store) is Ok,
{
    let names = output.1.deep_view();
    assert forall|i: int| 0 <= i < names.len() implies store.contains_key(#[trigger] names[i]) by {
        assert(declared.contains_key(names[i]));
    }
    lemma_known_none_missing(names, store, 0);
}

fn fill_template(template: &str, texts: &Vec<String>) -> (r: String)
    ensures
        r@ == fill(template@, texts.deep_view()),
{
    let chars = chars_of(template);
    let n = chars.len();
    let mut out = String::new();
    let mut from: usize = 0;
    let mut k: usize = 0;
    let mut exhausted = false;
    while k < texts.len() && !exhausted
        invariant
            chars@ == template@,
            n == chars@.len(),
            from <= n,
            k <= texts.len(),
            exhausted ==> next_marker(template@, from as int) >= n,
            out@ + fill_from(template@, from as int, texts.deep_view(), k as int) == fill(
                template@,
                texts.deep_view(),
            ),
        decreases texts.len() - k + (if exhausted { 0int } else { 1int }),
    {
        let mut at: usize = from;
        while at < n && at + 1 < n && !(chars[at] == '{' && chars[at + 1] == '}')
            invariant
                chars@ == template@,
                n == chars@.len(),
                from <= at <= n,
                next_marker(template@, from as int) == next_marker(template@, at as int),
            decreases n - at,
        {
            at += 1;
        }
        if at >= n || at + 1 >= n {
            exhausted = true;
        } else {
            assert(marker_at(template@, at as int));
            let ghost before = out@;
            let ghost piece = template@.subrange(from as int, at as int) + texts.deep_view()[k as int];
            let ghost rest = fill_from(template@, at + 2, texts.deep_view(), k + 1);
            out.append(template.substring_char(from, at));
            out.append(texts[k].as_str());
            assert(out@ =~= before + piece);
            assert(before + (piece + rest) =~= before + piece + rest);
            from = at + 2;
            k += 1;
        }
    }
    out.append(template.substring_char(from, n));
    assert(fill_from(template@, from as int, texts.deep_view(), k as int) == template@.subrange(
        from as int,
        n as int,
    ));
    out
}

impl Output {
    /// What rendering this output on `store` gives: the filled template, or
    /// the first of its variables that `store` does not have.
    pub open spec fn rendered(self, store: Map<Seq<char>, Value>) -> Result<Seq<char>, Failure> {
        match first_missing(self.1.deep_view(), store, 0) {
            Some(name) => Err(Failure::VariableNotFound(name)),
            None => Ok(fill(self.0@, texts_of(self.1.deep_view(), store))),
        }
    }

    /// The output with the template `name` and the variables `vars`.
    pub fn new(name: String, vars: Vec<String>) -> (r: Output)
        ensures
            r.0 == name,
            r.1 == vars,
    {
        Output(name, vars)
    }

    /// Whether the template is empty: the step then says nothing.
    pub fn is_empty(&self) -> (r: bool)
        ensures
            r == (self.0@.len() == 0),
    {
        self.0.as_str().is_empty()
    }

    /// Renders the output: the template with its markers filled, in order,
    /// by the display texts of the variables.
    pub fn fmt(&self, variables: &Variables) -> (r: Result<String, Error>)
        ensures
            match r {
                Ok(text) => self.rendered(variables@) == Ok::<Seq<char>, Failure>(text@),
                Err(e) => self.rendered(variables@) == Err::<Seq<char>, Failure>(e@),
            },
    {
        let mut texts: Vec<String> = Vec::new();
        let mut i: usize = 0;
        while i < self.1.len()
            invariant
                i <= self.1.len(),
                texts@.len() == i,
                first_missing(self.1.deep_view(), variables@, 0) == first_missing(
                    self.1.deep_view(),
                    variables@,
                    i as int,
                ),
                forall|j: int|
                    0 <= j < i ==> (#[trigger] texts@[j])@ == variables@[self.1@[j]@].render(),
            decreases self.1.len() - i,
        {
            match variables.get(self.1[i].as_str()) {
                Some(value) => {
                    texts.push(value.to_string());
                },
                None => {
                    return Err(Error::VariableNotFound(self.1[i].clone()));
                },
            }
            i += 1;
        }
        assert(texts.deep_view() =~= texts_of(self.1.deep_view(), variables@));
        Ok(fill_template(self.0.as_str(), &texts))
    }

    /// Checks that `variables` has every variable of the output, and reports
    /// all that it does not have.
    pub fn check(&self, variables: &Variables) -> (r: Result<(), Error>)
        ensures
            outcome(r) == verdict_of(missing_reports(self.1.deep_view(), variables@), ", "@),
    {
        let mut errors: Vec<String> = Vec::new();
        let mut i: usize = 0;
        while i < self.1.len()
            invariant
                i <= self.1.len(),
                errors.deep_view() == missing_reports(self.1.deep_view().take(i as int), variables@),
            decreases self.1.len() - i,
        {
            proof {
                assert(self.1.deep_view().take(i + 1).drop_last() =~= self.1.deep_view().take(
                    i as int,
                ));
            }
            if variables.get(self.1[i].as_str()).is_none() {
                let mut report = String::from_str("Variable not found: ");
                report.append(self.1[i].as_str());
                errors.push(report);
                assert(errors.deep_view() =~= missing_reports(
                    self.1.deep_view().take(i as int),
                    variables@,
                ).push(missing_report(self.1[i as int]@)));
            }
            i += 1;
        }
        assert(self.1.deep_view().take(i as int) =~= self.1.deep_view());
        conclude(&errors, ", ")
    }
}

impl Default for Output {
    fn default() -> (r: Output)
        ensures
            r.0@ == Seq::<char>::empty(),
            r.1@ == Seq::<String>::empty(),
    {
        Output(String::new(), Vec::new())
    }
}

impl Clone for Output {
    fn clone(&self) -> (r: Output)
        ensures
            r.0 == self.0,
            r.1@ == self.1@,
    {
        let names = self.1.clone();
        assert(names@ =~= self.1@);
        Output(self.0.clone(), names)
    }
}

} // verus!
