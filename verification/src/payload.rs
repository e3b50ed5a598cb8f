//! The attributes of an inventory item: a mapping from field names to
//! values, with no schema beyond that.

use crate::table::{
    distinct_keys, lemma_table_absent, lemma_table_append, lemma_table_overwrite,
    lemma_table_value, table,
};
use vstd::prelude::*;

verus! {

/// One attribute value.
#[derive(Debug, PartialEq, Eq)]
pub enum Value {
    Text(String),
    Number(i64),
    Flag(bool),
}

/// What a `Value` stands for.
pub enum ValueView {
    Text(Seq<char>),
    Number(i64),
    Flag(bool),
}

impl View for Value {
    type V = ValueView;

    open spec fn view(&self) -> ValueView {
        match self {
            Value::Text(s) => ValueView::Text(s@),
            Value::Number(n) => ValueView::Number(*n),
            Value::Flag(b) => ValueView::Flag(*b),
        }
    }
}

impl Clone for Value {
    fn clone(&self) -> (copy: Self)
        ensures
            copy@ == self@,
    {
        match self {
            Value::Text(s) => Value::Text(s.clone()),
            Value::Number(n) => Value::Number(*n),
            Value::Flag(b) => Value::Flag(*b),
        }
    }
}

/// A named attribute.
#[derive(Debug)]
pub struct Field {
    pub name: String,
    pub value: Value,
}

/// The rows that a list of fields stands for: name and value of each, in
/// order.
pub open spec fn entries(fields: Seq<Field>) -> Seq<(Seq<char>, ValueView)> {
    fields.map_values(|f: Field| (f.name@, f.value@))
}

/// The attributes of one item.
#[derive(Debug)]
pub struct Payload {
    fields: Vec<Field>,
}

impl View for Payload {
    type V = Map<Seq<char>, ValueView>;

    closed spec fn view(&self) -> Map<Seq<char>, ValueView> {
        table(entries(self.fields@))
    }
}

impl Payload {
    #[verifier::type_invariant]
    spec fn names_are_distinct(self) -> bool {
        distinct_keys(entries(self.fields@))
    }

    /// A payload without attributes.
    pub fn new() -> (p: Payload)
        ensures
            p@ == Map::<Seq<char>, ValueView>::empty(),
    {
        Payload { fields: Vec::new() }
    }

    /// Position of the field called `name`, if there is one.
    fn position(&self, name: &String) -> (at: Option<usize>)
        ensures
            match at {
                Some(i) => i < self.fields@.len() && self.fields@[i as int].name@ == name@,
                None => forall|i: int|
                    0 <= i < self.fields@.len() ==> (#[trigger] self.fields@[i]).name@ != name@,
            },
    {
        let mut i: usize = 0;
        while i < self.fields.len()
            invariant
                i <= self.fields@.len(),
                forall|k: int| 0 <= k < i ==> (#[trigger] self.fields@[k]).name@ != name@,
            decreases self.fields@.len() - i,
        {
            if self.fields[i].name == *name {
                return Some(i);
            }
            i = i + 1;
        }
        None
    }

    /// The value stored under `name`.
    pub fn get(&self, name: &str) -> (found: Option<&Value>)
        ensures
            match found {
                Some(v) => self@.contains_key(name@) && self@[name@] == v@,
                None => !self@.contains_key(name@),
            },
    {
        let key = name.to_owned();
        match self.position(&key) {
            Some(i) => {
                proof {
                    use_type_invariant(self);
                    lemma_table_value(entries(self.fields@), i as int);
                }
                Some(&self.fields[i].value)
            },
            None => {
                proof {
                    lemma_table_absent(entries(self.fields@), name@);
                }
                None
            },
        }
    }

    /// The attributes as a list, each name once.
    pub fn fields(&self) -> (rows: &[Field])
        ensures
            table(entries(rows@)) == self@,
            distinct_keys(entries(rows@)),
    {
        proof {
            use_type_invariant(self);
        }
        self.fields.as_slice()
    }

    /// Stores `value` under `name`, replacing what was there.
    pub fn set(&mut self, name: &str, value: Value)
        ensures
            final(self)@ == old(self)@.insert(name@, value@),
    {
        let key = name.to_owned();
        proof {
            use_type_invariant(&*self);
        }
        let field = Field { name: key, value };
        let at = self.position(&field.name);
        let mut fields: Vec<Field> = Vec::new();
        core::mem::swap(&mut self.fields, &mut fields);
        match at {
            Some(i) => {
                proof {
                    lemma_table_overwrite(entries(fields@), i as int, field.value@);
                    assert(entries(fields@.update(i as int, field)) == entries(fields@).update(
                        i as int,
                        (field.name@, field.value@),
                    ));
                }
                fields.set(i, field);
            },
            None => {
                proof {
                    lemma_table_append(entries(fields@), field.name@, field.value@);
                    assert(entries(fields@.push(field)) == entries(fields@).push(
                        (field.name@, field.value@),
                    ));
                }
                fields.push(field);
            },
        }
        self.fields = fields;
    }

    /// This payload with `value` stored under `name`.
    pub fn with(self, name: &str, value: Value) -> (p: Payload)
        ensures
            p@ == self@.insert(name@, value@),
    {
        let mut p = self;
        p.set(name, value);
        p
    }

    /// Lays `patch` over this payload: each attribute of the patch is
    /// stored, and the attributes it does not name are left alone.
    pub fn merge(&mut self, patch: &Payload)
        ensures
            final(self)@ == old(self)@.union_prefer_right(patch@),
    {
        let mut i: usize = 0;
        assert(patch.fields@.take(0) == Seq::<Field>::empty());
        assert(self@ == self@.union_prefer_right(Map::<Seq<char>, ValueView>::empty()));
        while i < patch.fields.len()
            invariant
                i <= patch.fields@.len(),
                self@ == old(self)@.union_prefer_right(table(entries(patch.fields@.take(i as int)))),
            decreases patch.fields@.len() - i,
        {
            let ghost done = table(entries(patch.fields@.take(i as int)));
            let field = &patch.fields[i];
            self.set(field.name.as_str(), field.value.clone());
            proof {
                let next = entries(patch.fields@.take(i + 1));
                assert(next.drop_last() == entries(patch.fields@.take(i as int)));
                assert(next.last() == (field.name@, field.value@));
                assert(old(self)@.union_prefer_right(done).insert(field.name@, field.value@)
                    == old(self)@.union_prefer_right(done.insert(field.name@, field.value@)));
            }
            i = i + 1;
        }
        assert(patch.fields@.take(patch.fields@.len() as int) == patch.fields@);
    }
}

impl Clone for Payload {
    fn clone(&self) -> (copy: Self)
        ensures
            copy@ == self@,
    {
        let mut fields: Vec<Field> = Vec::new();
        let mut i: usize = 0;
        while i < self.fields.len()
            invariant
                i <= self.fields@.len(),
                fields@.len() == i,
                forall|k: int|
                    0 <= k < i ==> (#[trigger] self.fields@[k]).name@ == fields@[k].name@
                        && self.fields@[k].value@ == fields@[k].value@,
            decreases self.fields@.len() - i,
        {
            let field = &self.fields[i];
            fields.push(Field { name: field.name.clone(), value: field.value.clone() });
            i = i + 1;
        }
        proof {
            use_type_invariant(self);
            assert(entries(fields@) == entries(self.fields@));
        }
        Payload { fields }
    }
}

} // verus!
