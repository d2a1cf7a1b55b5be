//! The dynamically-typed values a deployment supplies for its variables:
//! strings, booleans, numbers, lists and string-keyed maps, as a tagged
//! union, together with the name-to-value map the serializer consumes.
//!
//! A number is carried as its decimal rendering, so the union holds plain
//! values only. Members the serializer does not print (nested structures,
//! nulls) are marked `Other` and skipped, never an error.

use vstd::prelude::*;

verus! {

broadcast use crate::text::lemma_vec_char_deep_view;

// ─── Scalars and composite members ──────────────────────────────────────────

/// A printable scalar: a string, a boolean, or a number's rendering.
#[derive(Debug, Clone)]
pub enum Scalar {
    Text(String),
    Flag(bool),
    Num(String),
}

/// View of `Scalar`.
pub enum ScalarV {
    Text(Seq<char>),
    Flag(bool),
    Num(Seq<char>),
}

impl View for Scalar {
    type V = ScalarV;

    open spec fn view(&self) -> ScalarV {
        match self {
            Scalar::Text(s) => ScalarV::Text(s@),
            Scalar::Flag(b) => ScalarV::Flag(*b),
            Scalar::Num(n) => ScalarV::Num(n@),
        }
    }
}

impl DeepView for Scalar {
    type V = ScalarV;

    open spec fn deep_view(&self) -> ScalarV {
        self.view()
    }
}

/// The value of a map member or object field: a printable scalar, or
/// anything else, which the serializer skips.
#[derive(Debug, Clone)]
pub enum FieldVal {
    Sc(Scalar),
    Other,
}

/// View of `FieldVal`.
pub enum FieldValV {
    Sc(ScalarV),
    Other,
}

impl View for FieldVal {
    type V = FieldValV;

    open spec fn view(&self) -> FieldValV {
        match self {
            FieldVal::Sc(s) => FieldValV::Sc(s@),
            FieldVal::Other => FieldValV::Other,
        }
    }
}

impl DeepView for FieldVal {
    type V = FieldValV;

    open spec fn deep_view(&self) -> FieldValV {
        self.view()
    }
}

/// One element of a list value: a scalar, an object of named fields, or
/// anything else, which the serializer prints as `null` or skips.
#[derive(Debug, Clone)]
pub enum ListItem {
    Sc(Scalar),
    Obj(Vec<(String, FieldVal)>),
    Other,
}

/// View of `ListItem`.
pub enum ListItemV {
    Sc(ScalarV),
    Obj(Seq<(Seq<char>, FieldValV)>),
    Other,
}

impl View for ListItem {
    type V = ListItemV;

    open spec fn view(&self) -> ListItemV {
        match self {
            ListItem::Sc(s) => ListItemV::Sc(s@),
            ListItem::Obj(fields) => ListItemV::Obj(fields.deep_view()),
            ListItem::Other => ListItemV::Other,
        }
    }
}

impl DeepView for ListItem {
    type V = ListItemV;

    open spec fn deep_view(&self) -> ListItemV {
        self.view()
    }
}

// ─── The value union ────────────────────────────────────────────────────────

/// A runtime value for one variable.
#[derive(Debug, Clone)]
pub enum Value {
    Text(String),
    Flag(bool),
    Num(String),
    List(Vec<ListItem>),
    Obj(Vec<(String, FieldVal)>),
    Null,
}

/// View of `Value`.
pub enum ValueV {
    Text(Seq<char>),
    Flag(bool),
    Num(Seq<char>),
    List(Seq<ListItemV>),
    Obj(Seq<(Seq<char>, FieldValV)>),
    Null,
}

impl View for Value {
    type V = ValueV;

    open spec fn view(&self) -> ValueV {
        match self {
            Value::Text(s) => ValueV::Text(s@),
            Value::Flag(b) => ValueV::Flag(*b),
            Value::Num(n) => ValueV::Num(n@),
            Value::List(items) => ValueV::List(items.deep_view()),
            Value::Obj(fields) => ValueV::Obj(fields.deep_view()),
            Value::Null => ValueV::Null,
        }
    }
}

impl DeepView for Value {
    type V = ValueV;

    open spec fn deep_view(&self) -> ValueV {
        self.view()
    }
}

// ─── The value map ──────────────────────────────────────────────────────────

/// The name of a value binding, looked up from the most recent binding.
pub open spec fn lookup(entries: Seq<(Seq<char>, ValueV)>, name: Seq<char>) -> Option<ValueV>
    decreases entries.len(),
{
    if entries.len() == 0 {
        None
    } else if entries.last().0 == name {
        Some(entries.last().1)
    } else {
        lookup(entries.drop_last(), name)
    }
}

/// Mapping from variable name to value. A later binding for the same name
/// overrides an earlier one, exactly as a map insert would.
#[derive(Debug, Clone)]
pub struct ValueMap {
    pub entries: Vec<(String, Value)>,
}

impl View for ValueMap {
    type V = Seq<(Seq<char>, ValueV)>;

    open spec fn view(&self) -> Seq<(Seq<char>, ValueV)> {
        self.entries.deep_view()
    }
}

impl ValueMap {
    /// A map with no bindings.
    pub fn new() -> (r: ValueMap)
        ensures
            r@ == Seq::<(Seq<char>, ValueV)>::empty(),
    {
        let r = ValueMap { entries: Vec::new() };
        proof {
            assert(r@ =~~= Seq::<(Seq<char>, ValueV)>::empty());
        }
        r
    }

    /// Bind `name` to `value`, overriding any earlier binding.
    pub fn insert(&mut self, name: String, value: Value)
        ensures
            final(self)@ == old(self)@.push((name@, value@)),
    {
        let ghost prev = self@;
        self.entries.push((name, value));
        proof {
            assert(self@ =~~= prev.push((self.entries@.last().0@, self.entries@.last().1@)));
        }
    }

    /// The value bound to `name`, if any.
    pub fn get(&self, name: &str) -> (r: Option<&Value>)
        ensures
            match r {
                Some(v) => lookup(self@, name@) == Some(v@),
                None => lookup(self@, name@) is None,
            },
    {
        let nv = crate::text::chars_of(name);
        let mut j: usize = self.entries.len();
        proof {
            assert(self@.subrange(0, j as int) =~~= self@);
        }
        while j > 0
            invariant
                j <= self.entries.len(),
                self@.len() == self.entries.len(),
                nv@ == name@,
                lookup(self@, name@) == lookup(self@.subrange(0, j as int), name@),
            decreases j,
        {
            let entry_name = crate::text::chars_of(self.entries[j - 1].0.as_str());
            proof {
                assert(self@[j - 1].0 == self.entries@[j - 1].0@);
                assert(self@.subrange(0, j as int).last() == self@[j - 1]);
            }
            if crate::text::eq_chars(&entry_name, &nv) {
                return Some(&self.entries[j - 1].1);
            }
            proof {
                assert(self@.subrange(0, j as int).drop_last() =~~= self@.subrange(0, j - 1));
            }
            j = j - 1;
        }
        proof {
            assert(self@.subrange(0, 0) =~~= Seq::<(Seq<char>, ValueV)>::empty());
        }
        None
    }

    /// The number of bindings.
    pub fn len(&self) -> (r: usize)
        ensures
            r == self@.len(),
    {
        self.entries.len()
    }
}

} // verus!
