//! Decoding of loosely typed wire tuples `[op, e, a, v]` into datoms.
use vstd::prelude::*;

use serde_json::Value;

use crate::entity::{Datom, DatomOp};
use crate::json::{as_array, as_str, json_array, json_str, value_clone};
use crate::text::{chars_of, str_eq};

verus! {

/// Why a wire tuple is not a datom.
#[derive(Debug)]
pub enum ParseError {
    /// The tuple is not a JSON array.
    NotAList,
    /// The array does not have four items.
    WrongArity,
    /// The operation is not a string.
    OpNotString,
    /// The operation is a string that names no supported operation.
    UnsupportedOp(String),
    /// The entity id is not a string.
    EntityNotString,
    /// The attribute name is not a string.
    AttributeNotString,
}

/// The message of a parse error.
pub open spec fn message_spec(e: ParseError) -> Seq<char> {
    match e {
        ParseError::NotAList => "Datom must be an array"@,
        ParseError::WrongArity => "Datom list must have 4 items"@,
        ParseError::OpNotString => "Datom op must be a string"@,
        ParseError::UnsupportedOp(op) => "Unsupported op: "@ + op@,
        ParseError::EntityNotString => "Datom e must be a string"@,
        ParseError::AttributeNotString => "Datom a must be a string"@,
    }
}

impl ParseError {
    /// A message that names the field that failed.
    pub fn message(&self) -> (r: String)
        ensures
            r@ == message_spec(*self),
    {
        match self {
            ParseError::NotAList => "Datom must be an array".to_owned(),
            ParseError::WrongArity => "Datom list must have 4 items".to_owned(),
            ParseError::OpNotString => "Datom op must be a string".to_owned(),
            ParseError::UnsupportedOp(op) => {
                let mut m = "Unsupported op: ".to_owned();
                m.append(op.as_str());
                m
            },
            ParseError::EntityNotString => "Datom e must be a string".to_owned(),
            ParseError::AttributeNotString => "Datom a must be a string".to_owned(),
        }
    }
}

/// `s` without its leading colons.
pub open spec fn strip_colons(s: Seq<char>) -> Seq<char>
    decreases s.len(),
{
    if s.len() > 0 && s[0] == ':' {
        strip_colons(s.drop_first())
    } else {
        s
    }
}

/// The operation an op string names: `db/add` or `db/retract`, leading colons ignored.
pub open spec fn op_spec(s: Seq<char>) -> Option<DatomOp> {
    if strip_colons(s) == "db/add"@ {
        Some(DatomOp::Add)
    } else if strip_colons(s) == "db/retract"@ {
        Some(DatomOp::Retract)
    } else {
        None
    }
}

/// Reads an operation name, leading colons stripped.
pub fn normalize_op(op: &str) -> (r: Option<DatomOp>)
    ensures
        r == op_spec(op@),
{
    let chars = chars_of(op);
    let mut k: usize = 0;
    proof {
        assert(op@.subrange(0, op@.len() as int) =~= op@);
    }
    while k < chars.len() && chars[k] == ':'
        invariant
            chars@ == op@,
            k <= chars@.len(),
            strip_colons(op@) == strip_colons(op@.subrange(k as int, op@.len() as int)),
        decreases chars@.len() - k,
    {
        proof {
            assert(op@.subrange(k as int, op@.len() as int).drop_first() =~= op@.subrange(
                k + 1,
                op@.len() as int,
            ));
        }
        k = k + 1;
    }
    let rest = op.substring_char(k, chars.len());
    assert(strip_colons(op@) == rest@);
    if str_eq(rest, "db/add") {
        Some(DatomOp::Add)
    } else if str_eq(rest, "db/retract") {
        Some(DatomOp::Retract)
    } else {
        None
    }
}

/// Whether `r` is what decoding the wire tuple `value` gives.
pub open spec fn parsed_as(value: Value, r: Result<Datom, ParseError>) -> bool {
    match json_array(value) {
        None => r matches Err(ParseError::NotAList),
        Some(items) => if items.len() != 4 {
            r matches Err(ParseError::WrongArity)
        } else if json_str(items[0]) is None {
            r matches Err(ParseError::OpNotString)
        } else if op_spec(json_str(items[0])->0) is None {
            r matches Err(ParseError::UnsupportedOp(op)) && op@ == json_str(items[0])->0
        } else if json_str(items[1]) is None {
            r matches Err(ParseError::EntityNotString)
        } else if json_str(items[2]) is None {
            r matches Err(ParseError::AttributeNotString)
        } else {
            r matches Ok(d) && d.op == op_spec(json_str(items[0])->0)->0 && d.e@ == json_str(
                items[1],
            )->0 && d.a@ == json_str(items[2])->0 && d.v == items[3]
        },
    }
}

/// Whether the wire tuple `value` decodes to a datom.
pub open spec fn is_datom(value: Value) -> bool {
    &&& json_array(value) matches Some(items)
    &&& items.len() == 4
    &&& json_str(items[0]) matches Some(op) && op_spec(op) is Some
    &&& json_str(items[1]) is Some
    &&& json_str(items[2]) is Some
}

/// Decodes one wire tuple `[op, e, a, v]`.
pub fn datom_from_value(value: Value) -> (r: Result<Datom, ParseError>)
    ensures
        parsed_as(value, r),
        r is Ok <==> is_datom(value),
{
    let list = match as_array(&value) {
        Some(list) => list,
        None => return Err(ParseError::NotAList),
    };
    if list.len() != 4 {
        return Err(ParseError::WrongArity);
    }
    let op = match as_str(&list[0]) {
        Some(s) => match normalize_op(s) {
            Some(op) => op,
            None => return Err(ParseError::UnsupportedOp(s.to_owned())),
        },
        None => return Err(ParseError::OpNotString),
    };
    let e = match as_str(&list[1]) {
        Some(s) => s.to_owned(),
        None => return Err(ParseError::EntityNotString),
    };
    let a = match as_str(&list[2]) {
        Some(s) => s.to_owned(),
        None => return Err(ParseError::AttributeNotString),
    };
    let v = value_clone(&list[3]);
    Ok(Datom { op, e, a, v })
}

/// Decodes a batch of wire tuples; fails on the first one that is no datom,
/// so that no partial batch comes out.
pub fn parse_batch(values: Vec<Value>) -> (r: Result<Vec<Datom>, ParseError>)
    ensures
        r is Ok <==> forall|i: int| 0 <= i < values@.len() ==> #[trigger] is_datom(values@[i]),
        r matches Ok(ds) ==> ds@.len() == values@.len() && forall|i: int|
            0 <= i < values@.len() ==> #[trigger] parsed_as(values@[i], Ok(ds@[i])),
        r matches Err(e) ==> exists|k: int|
            0 <= k < values@.len() && !is_datom(values@[k]) && parsed_as(values@[k], Err(e))
                && forall|i: int| 0 <= i < k ==> #[trigger] is_datom(values@[i]),
{
    let mut parsed: Vec<Datom> = Vec::new();
    let mut i: usize = 0;
    while i < values.len()
        invariant
            i <= values@.len(),
            parsed@.len() == i,
            forall|j: int| 0 <= j < i ==> #[trigger] is_datom(values@[j]),
            forall|j: int| 0 <= j < i ==> #[trigger] parsed_as(values@[j], Ok(parsed@[j])),
        decreases values@.len() - i,
    {
        let value = value_clone(&values[i]);
        match datom_from_value(value) {
            Ok(d) => parsed.push(d),
            Err(e) => {
                proof {
                    assert(!is_datom(values@[i as int]));
                }
                return Err(e);
            },
        }
        i = i + 1;
    }
    Ok(parsed)
}

} // verus!
