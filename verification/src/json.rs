//! The structured-data collaborator for template records: a JSON data
//! text is parsed and drained in one trusted step whose result is a
//! named function of the text, so the resolution of a template is a
//! function of the project snapshot alone.

use vstd::prelude::*;

verus! {

#[verifier::external_type_specification]
#[verifier::external_body]
pub struct ExJsonValue(serde_json::Value);

/// Whether a text is a well-formed JSON document: a function of the
/// text alone.
pub uninterp spec fn json_parses(s: Seq<char>) -> bool;

/// The records a well-formed JSON data text holds: `None` when the
/// document is not an array; per element, `None` when it is not an
/// object, otherwise its fields in the parsed map's iteration order
/// (sorted by key), each a key with its string value or `None` for a
/// non-string value.  A function of the text alone; meaningful only
/// when `json_parses` holds of the text.
pub uninterp spec fn json_records_of(s: Seq<char>) -> Option<
    Seq<Option<Seq<(Seq<char>, Option<Seq<char>>)>>>,
>;

/// One record of a template's data array, as extracted from the
/// document: either not an object at all, or its fields in order, each
/// a key with its string value or `None` for a non-string value.
pub enum RawRecord {
    NotObject,
    Fields(Vec<(String, Option<String>)>),
}

/// The view of one extracted record.
pub open spec fn raw_record_view(r: RawRecord) -> Option<Seq<(Seq<char>, Option<Seq<char>>)>> {
    match r {
        RawRecord::NotObject => None,
        RawRecord::Fields(f) => Some(
            f@.map_values(
                |p: (String, Option<String>)|
                    (
                        p.0@,
                        match p.1 {
                            Option::Some(v) => Some(v@),
                            Option::None => None,
                        },
                    ),
            ),
        ),
    }
}

/// The views of a list of extracted records.
pub open spec fn raw_records_view(rs: Seq<RawRecord>) -> Seq<
    Option<Seq<(Seq<char>, Option<Seq<char>>)>>,
> {
    rs.map_values(|r: RawRecord| raw_record_view(r))
}

/// Relies on serde_json::from_str::<Value>, Value::as_array,
/// Value::as_object, serde_json::Map iteration (BTreeMap-backed, so
/// deterministic) and Value::as_str: parses a data text and hands its
/// records out as plain values, in document order.  Success and result
/// depend on the text alone; a parse failure is returned as its
/// message.
#[verifier::external_body]
pub(crate) fn json_records(s: &str) -> (r: Result<Option<Vec<RawRecord>>, String>)
    ensures
        r is Ok <==> json_parses(s@),
        r matches Ok(o) ==> (match o {
            Option::Some(rs) => json_records_of(s@) == Some(raw_records_view(rs@)),
            Option::None => json_records_of(s@) is None,
        }),
{
    let v: serde_json::Value =
        serde_json::from_str(s).map_err(|e| format!("JSON decode error: {}", e))?;
    let arr = match v.as_array() {
        Some(a) => a,
        None => return Ok(None),
    };
    Ok(Some(arr.iter().map(|item| match item.as_object() {
        Some(m) => RawRecord::Fields(
            m.iter().map(|(k, val)| (k.clone(), val.as_str().map(|x| x.to_string()))).collect(),
        ),
        None => RawRecord::NotObject,
    }).collect()))
}

} // verus!
