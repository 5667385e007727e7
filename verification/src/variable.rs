//! The values a script's variables hold, and the store that names them.

use vstd::prelude::*;
use crate::dict::{as_map, lemma_deepen_keys, lemma_deepen_put, lemma_put, Dict};
use crate::float::{Float, FloatValue};
use crate::text::{decimal, int_to_string, join, join_strings};

verus! {

/// The value of a variable: a string, a 32-bit integer or a floating-point
/// number, a list of one of these, or a dictionary from strings to one of these.
#[derive(Debug, PartialEq)]
pub enum VariableType {
    Str(String),
    Int(i32),
    Float(Float),
    StrVec(Vec<String>),
    IntVec(Vec<i32>),
    FloatVec(Vec<Float>),
    StrDic(Dict<String>),
    IntDic(Dict<i32>),
    FloatDic(Dict<Float>),
}

/// What a [`VariableType`] is to the contracts. A dictionary is the sequence
/// of its entries, in the order in which it shows them.
pub enum Value {
    Str(Seq<char>),
    Int(i32),
    Float(FloatValue),
    StrVec(Seq<Seq<char>>),
    IntVec(Seq<i32>),
    FloatVec(Seq<FloatValue>),
    StrDic(Seq<(Seq<char>, Seq<char>)>),
    IntDic(Seq<(Seq<char>, i32)>),
    FloatDic(Seq<(Seq<char>, FloatValue)>),
}

/// The variables of a store, each name with its value.
pub type Store = Map<Seq<char>, Value>;

/// Whether `store` has every variable that `declared` has, with the same type.
pub open spec fn covers(declared: Store, store: Store) -> bool {
    forall|k: Seq<char>| #[trigger]
        declared.contains_key(k) ==> store.contains_key(k) && store[k].kind() == declared[k].kind()
}

/// The type of a value: which of the nine shapes it has.
pub enum Kind {
    Str,
    Int,
    Float,
    StrVec,
    IntVec,
    FloatVec,
    StrDic,
    IntDic,
    FloatDic,
}

impl Value {
    /// The type of this value.
    pub open spec fn kind(self) -> Kind {
        match self {
            Value::Str(_) => Kind::Str,
            Value::Int(_) => Kind::Int,
            Value::Float(_) => Kind::Float,
            Value::StrVec(_) => Kind::StrVec,
            Value::IntVec(_) => Kind::IntVec,
            Value::FloatVec(_) => Kind::FloatVec,
            Value::StrDic(_) => Kind::StrDic,
            Value::IntDic(_) => Kind::IntDic,
            Value::FloatDic(_) => Kind::FloatDic,
        }
    }

    /// Whether the value is an integer or a floating-point number.
    pub open spec fn is_number(self) -> bool {
        self is Int || self is Float
    }

    /// Whether the value is a list.
    pub open spec fn is_vector(self) -> bool {
        self is StrVec || self is IntVec || self is FloatVec
    }

    /// Whether the value is a dictionary.
    pub open spec fn is_dict(self) -> bool {
        self is StrDic || self is IntDic || self is FloatDic
    }

    /// The text that displays the value: a string as it is, an integer in
    /// decimal, a floating-point number by its display text, a list as its
    /// elements' texts with commas between them, a dictionary as one line
    /// `key: value` for each entry with a newline between each two lines.
    pub open spec fn render(self) -> Seq<char> {
        match self {
            Value::Str(s) => s,
            Value::Int(i) => decimal(i as int),
            Value::Float(f) => f.text,
            Value::StrVec(v) => join(v, seq![',']),
            Value::IntVec(v) => join(int_texts(v), seq![',']),
            Value::FloatVec(v) => join(float_texts(v), seq![',']),
            Value::StrDic(d) => lines(d),
            Value::IntDic(d) => lines(int_entries(d)),
            Value::FloatDic(d) => lines(float_entries(d)),
        }
    }
}

/// The decimal numerals of the integers of `v`.
pub open spec fn int_texts(v: Seq<i32>) -> Seq<Seq<char>> {
    Seq::new(v.len(), |i: int| decimal(v[i] as int))
}

/// The display texts of the numbers of `v`.
pub open spec fn float_texts(v: Seq<FloatValue>) -> Seq<Seq<char>> {
    Seq::new(v.len(), |i: int| v[i].text)
}

/// The entries of `d`, each integer as its decimal numeral.
pub open spec fn int_entries(d: Seq<(Seq<char>, i32)>) -> Seq<(Seq<char>, Seq<char>)> {
    Seq::new(d.len(), |i: int| (d[i].0, decimal(d[i].1 as int)))
}

/// The entries of `d`, each number as its display text.
pub open spec fn float_entries(d: Seq<(Seq<char>, FloatValue)>) -> Seq<(Seq<char>, Seq<char>)> {
    Seq::new(d.len(), |i: int| (d[i].0, d[i].1.text))
}

/// One line of a displayed dictionary: the key, a colon and a space, and the
/// value.
pub open spec fn entry_line(key: Seq<char>, value: Seq<char>) -> Seq<char> {
    key + seq![':', ' '] + value
}

/// The lines of the entries, in order.
pub open spec fn entry_lines(entries: Seq<(Seq<char>, Seq<char>)>) -> Seq<Seq<char>> {
    Seq::new(entries.len(), |i: int| entry_line(entries[i].0, entries[i].1))
}

/// The lines of the entries with a newline between each two neighbours, and
/// none after the last.
pub open spec fn lines(entries: Seq<(Seq<char>, Seq<char>)>) -> Seq<char> {
    join(entry_lines(entries), seq!['\n'])
}

impl DeepView for VariableType {
    type V = Value;

    open spec fn deep_view(&self) -> Value {
        match self {
            VariableType::Str(s) => Value::Str(s@),
            VariableType::Int(i) => Value::Int(*i),
            VariableType::Float(f) => Value::Float(f@),
            VariableType::StrVec(v) => Value::StrVec(v.deep_view()),
            VariableType::IntVec(v) => Value::IntVec(v@),
            VariableType::FloatVec(v) => Value::FloatVec(v.deep_view()),
            VariableType::StrDic(d) => Value::StrDic(d.deep_view()),
            VariableType::IntDic(d) => Value::IntDic(d@),
            VariableType::FloatDic(d) => Value::FloatDic(d.deep_view()),
        }
    }
}

impl View for VariableType {
    type V = Value;

    open spec fn view(&self) -> Value {
        self.deep_view()
    }
}

fn line(key: &str, value: &str) -> (r: String)
    ensures
        r@ == entry_line(key@, value@),
{
    proof {
        reveal_strlit(": ");
    }
    let mut r = String::from_str(key);
    r.append(": ");
    r.append(value);
    assert(r@ =~= entry_line(key@, value@));
    r
}

fn newline() -> (r: &'static str)
    ensures
        r@ == seq!['\n'],
{
    proof {
        reveal_strlit("\n");
    }
    let r = "\n";
    assert(r@ =~= seq!['\n']);
    r
}

fn comma() -> (r: &'static str)
    ensures
        r@ == seq![','],
{
    proof {
        reveal_strlit(",");
    }
    let r = ",";
    assert(r@ =~= seq![',']);
    r
}

fn texts_of_ints(v: &Vec<i32>) -> (r: Vec<String>)
    ensures
        r.deep_view() == int_texts(v@),
{
    let mut r: Vec<String> = Vec::new();
    let mut i: usize = 0;
    while i < v.len()
        invariant
            i <= v.len(),
            r@.len() == i,
            forall|j: int| 0 <= j < i ==> (#[trigger] r@[j])@ == decimal(v@[j] as int),
        decreases v.len() - i,
    {
        r.push(int_to_string(v[i]));
        i += 1;
    }
    assert(r.deep_view() =~= int_texts(v@));
    r
}

fn texts_of_floats(v: &Vec<Float>) -> (r: Vec<String>)
    ensures
        r.deep_view() == float_texts(v.deep_view()),
{
    let mut r: Vec<String> = Vec::new();
    let mut i: usize = 0;
    while i < v.len()
        invariant
            i <= v.len(),
            r@.len() == i,
            forall|j: int| 0 <= j < i ==> (#[trigger] r@[j])@ == v@[j].text@,
        decreases v.len() - i,
    {
        r.push(v[i].text.clone());
        i += 1;
    }
    assert(r.deep_view() =~= float_texts(v.deep_view()));
    r
}

impl VariableType {
    /// Whether the two values have the same type, whatever they hold.
    pub fn is_same_type(&self, other: &VariableType) -> (r: bool)
        ensures
            r == (self@.kind() == other@.kind()),
    {
        match (self, other) {
            (VariableType::Str(_), VariableType::Str(_)) => true,
            (VariableType::Int(_), VariableType::Int(_)) => true,
            (VariableType::Float(_), VariableType::Float(_)) => true,
            (VariableType::StrVec(_), VariableType::StrVec(_)) => true,
            (VariableType::IntVec(_), VariableType::IntVec(_)) => true,
            (VariableType::FloatVec(_), VariableType::FloatVec(_)) => true,
            (VariableType::StrDic(_), VariableType::StrDic(_)) => true,
            (VariableType::IntDic(_), VariableType::IntDic(_)) => true,
            (VariableType::FloatDic(_), VariableType::FloatDic(_)) => true,
            _ => false,
        }
    }

    /// Whether the value is an integer or a floating-point number.
    pub fn is_number(&self) -> (r: bool)
        ensures
            r == self@.is_number(),
    {
        match self {
            VariableType::Int(_) | VariableType::Float(_) => true,
            _ => false,
        }
    }

    /// Whether the value is a list.
    pub fn is_vector(&self) -> (r: bool)
        ensures
            r == self@.is_vector(),
    {
        match self {
            VariableType::StrVec(_) | VariableType::IntVec(_) | VariableType::FloatVec(_) => true,
            _ => false,
        }
    }

    /// Whether the value is a dictionary.
    pub fn is_dict(&self) -> (r: bool)
        ensures
            r == self@.is_dict(),
    {
        match self {
            VariableType::StrDic(_) | VariableType::IntDic(_) | VariableType::FloatDic(_) => true,
            _ => false,
        }
    }

    /// The text that displays the value.
    pub fn to_string(&self) -> (r: String)
        ensures
            r@ == self@.render(),
    {
        match self {
            VariableType::Str(s) => s.clone(),
            VariableType::Int(i) => int_to_string(*i),
            VariableType::Float(f) => f.text.clone(),
            VariableType::StrVec(v) => join_strings(v, comma()),
            VariableType::IntVec(v) => {
                let texts = texts_of_ints(v);
                join_strings(&texts, comma())
            },
            VariableType::FloatVec(v) => {
                let texts = texts_of_floats(v);
                join_strings(&texts, comma())
            },
            VariableType::StrDic(d) => {
                let mut texts: Vec<String> = Vec::new();
                let n = d.len();
                let mut i: usize = 0;
                while i < n
                    invariant
                        i <= n,
                        n == d@.len(),
                        texts@.len() == i,
                        forall|j: int|
                            0 <= j < i ==> (#[trigger] texts@[j])@ == entry_line(
                                d@[j].0,
                                d@[j].1@,
                            ),
                    decreases n - i,
                {
                    texts.push(line(d.key(i).as_str(), d.value(i).as_str()));
                    i += 1;
                }
                assert(texts.deep_view() =~= entry_lines(d.deep_view()));
                join_strings(&texts, newline())
            },
            VariableType::IntDic(d) => {
                let mut texts: Vec<String> = Vec::new();
                let n = d.len();
                let mut i: usize = 0;
                while i < n
                    invariant
                        i <= n,
                        n == d@.len(),
                        texts@.len() == i,
                        forall|j: int|
                            0 <= j < i ==> (#[trigger] texts@[j])@ == entry_line(
                                d@[j].0,
                                decimal(d@[j].1 as int),
                            ),
                    decreases n - i,
                {
                    let value = int_to_string(*d.value(i));
                    texts.push(line(d.key(i).as_str(), value.as_str()));
                    i += 1;
                }
                assert(texts.deep_view() =~= entry_lines(int_entries(d@)));
                join_strings(&texts, newline())
            },
            VariableType::FloatDic(d) => {
                let mut texts: Vec<String> = Vec::new();
                let n = d.len();
                let mut i: usize = 0;
                while i < n
                    invariant
                        i <= n,
                        n == d@.len(),
                        texts@.len() == i,
                        forall|j: int|
                            0 <= j < i ==> (#[trigger] texts@[j])@ == entry_line(
                                d@[j].0,
                                d@[j].1.text@,
                            ),
                    decreases n - i,
                {
                    texts.push(line(d.key(i).as_str(), d.value(i).text.as_str()));
                    i += 1;
                }
                assert(texts.deep_view() =~= entry_lines(float_entries(d.deep_view())));
                join_strings(&texts, newline())
            },
        }
    }
}

impl Clone for VariableType {
    fn clone(&self) -> (r: VariableType)
        ensures
            r@ == self@,
    {
        match self {
            VariableType::Str(s) => VariableType::Str(s.clone()),
            VariableType::Int(i) => VariableType::Int(*i),
            VariableType::Float(f) => VariableType::Float(f.clone()),
            VariableType::StrVec(v) => {
                let r = v.clone();
                assert(r.deep_view() =~= v.deep_view());
                VariableType::StrVec(r)
            },
            VariableType::IntVec(v) => {
                let r = v.clone();
                assert(r@ =~= v@);
                VariableType::IntVec(r)
            },
            VariableType::FloatVec(v) => {
                let r = v.clone();
                assert(r.deep_view() =~= v.deep_view());
                VariableType::FloatVec(r)
            },
            VariableType::StrDic(d) => {
                let r = d.clone();
                assert(r.deep_view() =~= d.deep_view());
                VariableType::StrDic(r)
            },
            VariableType::IntDic(d) => {
                let r = d.clone();
                assert forall|i: int| 0 <= i < r@.len() implies r@[i] == d@[i] by {
                    assert(cloned(d@[i].1, r@[i].1));
                }
                assert(r@ =~= d@);
                VariableType::IntDic(r)
            },
            VariableType::FloatDic(d) => {
                let r = d.clone();
                assert(r.deep_view() =~= d.deep_view());
                VariableType::FloatDic(r)
            },
        }
    }
}

/// The variables of a script or of a session, each under its name.
#[derive(Debug, PartialEq)]
pub struct Variables(pub Dict<VariableType>);

impl View for Variables {
    type V = Map<Seq<char>, Value>;

    open spec fn view(&self) -> Map<Seq<char>, Value> {
        as_map(self.0.deep_view())
    }
}

impl Variables {
    /// The store without variables.
    pub fn new() -> (r: Variables)
        ensures
            r@ == Map::<Seq<char>, Value>::empty(),
    {
        let r = Variables(Dict::new());
        assert(r.0.deep_view() =~= Seq::empty());
        assert(r@ =~= Map::<Seq<char>, Value>::empty());
        r
    }

    /// Gives the variable `key` the value `value`, whether or not it had one.
    pub fn insert(&mut self, key: String, value: VariableType)
        ensures
            final(self)@ == old(self)@.insert(key@, value@),
    {
        let _ = self.0.len();
        proof {
            lemma_deepen_keys(self.0@, key@);
            lemma_deepen_put(self.0@, key@, value);
            lemma_put(self.0.deep_view(), key@, value@);
        }
        self.0.insert(key, value);
    }

    /// The value of the variable `key`, if there is such a variable.
    pub fn get(&self, key: &str) -> (r: Option<&VariableType>)
        ensures
            match r {
                Some(v) => self@.contains_key(key@) && self@[key@] == v@,
                None => !self@.contains_key(key@),
            },
    {
        let _ = self.0.len();
        proof {
            lemma_deepen_keys(self.0@, key@);
        }
        self.0.get(key)
    }

    /// The value of the variable `key`, to be changed in place, if there is
    /// such a variable. No other variable changes.
    pub fn get_mut(&mut self, key: &str) -> (r: Option<&mut VariableType>)
        ensures
            match r {
                Some(v) => {
                    &&& old(self)@.contains_key(key@)
                    &&& old(self)@[key@] == v@
                    &&& final(self)@ == old(self)@.insert(key@, final(v)@)
                },
                None => !old(self)@.contains_key(key@) && final(self)@ == old(self)@,
            },
    {
        let _ = self.0.len();
        proof {
            lemma_deepen_keys(self.0@, key@);
        }
        match self.0.get_mut(key) {
            Some(v) => {
                proof {
                    lemma_deepen_put(old(self).0@, key@, *final(v));
                    lemma_put(old(self).0.deep_view(), key@, final(v)@);
                }
                Some(v)
            },
            None => None,
        }
    }

    /// Whether a variable is named `input`.
    pub fn has_input(&self) -> (r: bool)
        ensures
            r == self@.contains_key("input"@),
    {
        let _ = self.0.len();
        proof {
            lemma_deepen_keys(self.0@, "input"@);
        }
        self.0.contains_key("input")
    }
}

impl Clone for Variables {
    fn clone(&self) -> (r: Variables)
        ensures
            r@ == self@,
    {
        let map = self.0.clone();
        assert(map.deep_view() =~= self.0.deep_view());
        Variables(map)
    }
}

} // verus!
