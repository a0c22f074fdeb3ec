//! The schema of a message: which type the field of each number holds.
use vstd::prelude::*;
use crate::cursor::TagValue;
use crate::render::{render, rendered, PBType, ReprError, Value};

verus! {

/// One field of a message: its name, its number and the type it holds.
#[derive(Clone, Debug)]
pub struct PBField {
    pub name: String,
    pub tag: u8,
    pub field_type: PBType,
}

/// A message: its name and its fields. A schema is written down once and
/// only read afterwards.
#[derive(Clone, Debug)]
pub struct PBMessage {
    pub name: String,
    pub fields: Vec<PBField>,
}

/// The type that `fields` gives the field numbered `tag`: that of the first
/// entry with this number, if there is one.
pub open spec fn schema_type(fields: Seq<PBField>, tag: u8) -> Option<PBType>
    decreases fields.len(),
{
    if fields.len() == 0 {
        None
    } else if fields[0].tag == tag {
        Some(fields[0].field_type)
    } else {
        schema_type(fields.skip(1), tag)
    }
}

impl PBMessage {
    /// The type of the field numbered `tag`, if the message has such a field.
    pub fn field_type(&self, tag: u8) -> (r: Option<PBType>)
        ensures
            r == schema_type(self.fields@, tag),
    {
        let mut i: usize = 0;
        proof {
            assert(self.fields@.skip(0) == self.fields@);
        }
        while i < self.fields.len()
            invariant
                i <= self.fields@.len(),
                schema_type(self.fields@, tag) == schema_type(self.fields@.skip(i as int), tag),
            decreases self.fields@.len() - i,
        {
            if self.fields[i].tag == tag {
                return Some(self.fields[i].field_type);
            }
            proof {
                assert(self.fields@.skip(i as int).skip(1) == self.fields@.skip(i as int + 1));
            }
            i += 1;
        }
        None
    }

    /// Renders a decoded field as the type that the message gives its
    /// number. A field whose number the message does not know is not
    /// rendered.
    pub fn render_field<'a>(&self, field: &TagValue<'a>) -> (r: Option<Result<Value, ReprError>>)
        ensures
            match schema_type(self.fields@, field.tag) {
                None => r is None,
                Some(schema) => r matches Some(result) && match rendered(
                    schema,
                    field.wire_type,
                    field.value@,
                ) {
                    Ok(value) => result matches Ok(v) && v@ == value,
                    Err(e) => result matches Err(err) && err == e,
                },
            },
    {
        match self.field_type(field.tag) {
            None => None,
            Some(schema) => Some(render(schema, field.wire_type, field.value)),
        }
    }
}

} // verus!
