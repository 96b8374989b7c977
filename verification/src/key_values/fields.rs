//! Reading a text in key-value form as a record with named fields.
//!
//! The text is read as a map first, so a key that comes twice keeps its
//! last value. Then each field takes the value of its name. A key that
//! names no field is passed over. A field whose name does not come is an
//! error, unless its shape is optional: then it is absent.

use crate::entries::lookup;
use crate::key_values::de::{read, read_element, Error, ErrorView};
use crate::key_values::{decode_spec, KeyValues};
use crate::shape::{list_view, Scalar, ScalarView, Shape};
use crate::text::chars_of;
use vstd::prelude::*;
use vstd::string::StringExecFns;

verus! {

/// One field of a record: its name and the shape of its value.
#[derive(Debug, PartialEq, Eq)]
pub struct Field {
    pub name: String,
    pub shape: Shape,
}

/// What is said of a field that does not come.
pub open spec fn missing_message(name: Seq<char>) -> Seq<char> {
    "missing field `"@ + name + "`"@
}

/// The value of the field of the name `name` and the shape `shape` in the
/// map `pairs`.
pub open spec fn field_spec(pairs: Seq<(Seq<char>, Seq<char>)>, name: Seq<char>, shape: Shape)
    -> Result<ScalarView, ErrorView> {
    match lookup(pairs, name) {
        Some(text) => read_element(text, shape),
        None => if shape is Optional {
            Ok(ScalarView::Absent)
        } else {
            Err(ErrorView::Message(missing_message(name)))
        },
    }
}

/// The values of the fields `fields` in the map `pairs`, added to `acc` in
/// the order of the fields. The first field that has no value gives the
/// error.
pub open spec fn values_from(
    pairs: Seq<(Seq<char>, Seq<char>)>,
    fields: Seq<Field>,
    acc: Seq<ScalarView>,
) -> Result<Seq<ScalarView>, ErrorView>
    decreases fields.len(),
{
    if fields.len() == 0 {
        Ok(acc)
    } else {
        match field_spec(pairs, fields[0].name@, fields[0].shape) {
            Err(e) => Err(e),
            Ok(v) => values_from(pairs, fields.drop_first(), acc.push(v)),
        }
    }
}

/// The values of the fields `fields` in the map `pairs`, in the order of
/// the fields.
pub open spec fn values_spec(pairs: Seq<(Seq<char>, Seq<char>)>, fields: Seq<Field>) -> Result<
    Seq<ScalarView>,
    ErrorView,
> {
    values_from(pairs, fields, Seq::empty())
}

/// The values of the fields `fields` that the text `s` states.
pub open spec fn from_str_spec(s: Seq<char>, fields: Seq<Field>) -> Result<
    Seq<ScalarView>,
    ErrorView,
> {
    match decode_spec(s) {
        Err(e) => Err(e),
        Ok(pairs) => values_spec(pairs, fields),
    }
}

/// The values that were read, or the reason why none were.
pub open spec fn values_outcome(r: Result<Vec<Scalar>, Error>) -> Result<
    Seq<ScalarView>,
    ErrorView,
> {
    match r {
        Ok(values) => Ok(list_view(values@)),
        Err(e) => Err(e@),
    }
}

/// One value that was read, or the reason why none was.
pub open spec fn value_outcome(r: Result<Scalar, Error>) -> Result<ScalarView, ErrorView> {
    match r {
        Ok(v) => Ok(v@),
        Err(e) => Err(e@),
    }
}

/// The value of the field `field` in the map `map`.
pub fn field_value(map: &KeyValues, field: &Field) -> (r: Result<Scalar, Error>)
    ensures
        value_outcome(r) == field_spec(map@, field.name@, field.shape),
{
    match map.get(field.name.as_str()) {
        Some(text) => read(&chars_of(text.as_str()), &field.shape),
        None => match &field.shape {
            Shape::Optional(_) => Ok(Scalar::Absent),
            _ => Err(
                Error::Message(
                    String::from_str("missing field `").concat(field.name.as_str()).concat("`"),
                ),
            ),
        },
    }
}

/// The values of the fields `fields` in the map `map`, in the order of the
/// fields.
pub fn values_of(map: &KeyValues, fields: &Vec<Field>) -> (r: Result<Vec<Scalar>, Error>)
    ensures
        values_outcome(r) == values_spec(map@, fields@),
{
    let mut values: Vec<Scalar> = Vec::new();
    let mut i: usize = 0;
    assert(fields@.skip(0) =~= fields@);
    assert(list_view(values@) =~= Seq::empty());
    while i < fields.len()
        invariant
            0 <= i <= fields.len(),
            values_spec(map@, fields@) == values_from(
                map@,
                fields@.skip(i as int),
                list_view(values@),
            ),
        decreases fields.len() - i,
    {
        let ghost before = list_view(values@);
        proof {
            assert(fields@.skip(i as int)[0] == fields@[i as int]);
            assert(fields@.skip(i as int).drop_first() =~= fields@.skip(i + 1));
        }
        match field_value(map, &fields[i]) {
            Ok(v) => {
                let ghost added = v@;
                values.push(v);
                assert(list_view(values@) =~= before.push(added));
            },
            Err(e) => {
                return Err(e);
            },
        }
        i = i + 1;
    }
    Ok(values)
}

/// Reads the text `s` in key-value form as a record of the fields `fields`
/// and gives the value of each, in the order of the fields.
pub fn from_str(s: &str, fields: &Vec<Field>) -> (r: Result<Vec<Scalar>, Error>)
    ensures
        values_outcome(r) == from_str_spec(s@, fields@),
{
    match KeyValues::from_str(s) {
        Ok(map) => values_of(&map, fields),
        Err(e) => Err(e),
    }
}

} // verus!
