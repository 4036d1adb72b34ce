//! One input row: an ordered sequence of field values, consumed read-only by
//! the evaluator.

use vstd::prelude::*;
use crate::value::{SpecValue, Value};

verus! {

/// A record: fields addressed by 1-based position.
#[derive(Debug)]
pub struct Record {
    pub fields: Vec<Value>,
}

impl View for Record {
    type V = Seq<SpecValue>;

    open spec fn view(&self) -> Seq<SpecValue> {
        self.fields@.map_values(|v: Value| v@)
    }
}

impl Record {
    /// Builds a record from its field values, in order.
    pub fn from_fields(fields: Vec<Value>) -> (r: Record)
        ensures
            r@ == fields@.map_values(|v: Value| v@),
    {
        Record { fields }
    }

    /// Builds a record whose fields are exactly the given texts, in order.
    pub fn from_texts(texts: Vec<String>) -> (r: Record)
        ensures
            r@ == texts@.map_values(|t: String| SpecValue::String(t@)),
    {
        let mut vals: Vec<Value> = Vec::new();
        let mut i: usize = 0;
        while i < texts.len()
            invariant
                i <= texts.len(),
                vals@.len() == i,
                forall|j: int| 0 <= j < i ==> vals@[j]@ == SpecValue::String(texts@[j]@),
            decreases texts.len() - i,
        {
            vals.push(Value::String(texts[i].clone()));
            i = i + 1;
        }
        let r = Record { fields: vals };
        proof {
            assert(r@ =~= texts@.map_values(|t: String| SpecValue::String(t@)));
        }
        r
    }

    /// The number of fields.
    pub fn field_count(&self) -> (n: usize)
        ensures
            n == self@.len(),
    {
        self.fields.len()
    }

    /// The field at a 1-based position, when the position is in range.
    pub fn get(&self, position: usize) -> (r: Option<&Value>)
        ensures
            match r {
                Some(v) => 1 <= position <= self@.len() && v@ == self@[position - 1],
                None => !(1 <= position <= self@.len()),
            },
    {
        if position >= 1 && position <= self.fields.len() {
            Some(&self.fields[position - 1])
        } else {
            None
        }
    }
}

} // verus!
