//! JSON, as far as the location service speaks it: a list of texts written,
//! and the texts of a list read.

use vstd::prelude::*;

verus! {

/// A JSON array with, for each value, an object that holds it as text under
/// the key.
pub uninterp spec fn json_objects(key: Seq<char>, values: Seq<Seq<char>>) -> Seq<u8>;

/// What each item of a JSON array holds as text under the key, if it does;
/// none if the bytes are no JSON array.
pub uninterp spec fn json_column(body: Seq<u8>, key: Seq<char>) -> Option<Seq<Option<Seq<char>>>>;

/// Whether a text stands in JSON as it is: it holds printable ASCII characters
/// only, and neither a quotation mark nor a backslash.
pub open spec fn is_plain(text: Seq<char>) -> bool {
    forall|i: int|
        0 <= i < text.len() ==> ' ' <= #[trigger] text[i] <= '~' && text[i] != '"' && text[i]
            != '\\'
}

/// Whether each text of a list is plain.
pub open spec fn all_plain(list: Seq<Seq<char>>) -> bool {
    forall|i: int| 0 <= i < list.len() ==> is_plain(#[trigger] list[i])
}

/// An object that holds a plain value under a plain key.
pub open spec fn object_text(key: Seq<char>, value: Seq<char>) -> Seq<char> {
    seq!['{', '"'] + key + seq!['"', ':', '"'] + value + seq!['"', '}']
}

/// An array of such objects, one for each value.
pub open spec fn objects_text(key: Seq<char>, values: Seq<Seq<char>>) -> Seq<char> {
    seq!['['] + crate::text::joined(
        values.map_values(|value: Seq<char>| object_text(key, value)),
        seq![','],
    ) + seq![']']
}

/// The bytes of an ASCII text.
pub open spec fn ascii_bytes(text: Seq<char>) -> Seq<u8> {
    text.map_values(|c: char| c as u8)
}

/// The texts of one row.
pub open spec fn row_texts(row: Seq<Option<String>>) -> Seq<Option<Seq<char>>> {
    row.map_values(|t: Option<String>| crate::text::text_or_none(t))
}

/// The texts of several rows.
pub open spec fn rows_texts(rows: Seq<Vec<Option<String>>>) -> Seq<Seq<Option<Seq<char>>>> {
    rows.map_values(|row: Vec<Option<String>>| row_texts(row@))
}

/// Writes an array of objects with `serde_json::to_vec`, of one
/// `serde_json::Value` object per value. Claimed: the bytes depend on the key
/// and the values alone, and are named `json_objects`; where the key and the
/// values are plain, they are those of `objects_text`. How other texts are
/// escaped is left unsaid.
#[verifier::external_body]
pub(crate) fn write_objects(key: &str, values: &Vec<String>) -> (r: Vec<u8>)
    ensures
        r@ == json_objects(key@, crate::text::texts(values@)),
        is_plain(key@) && all_plain(crate::text::texts(values@)) ==> r@ == ascii_bytes(
            objects_text(key@, crate::text::texts(values@)),
        ),
{
    let object = |value: &String|
        serde_json::Value::from_iter([(key, serde_json::Value::String(value.clone()))]);
    let items: Vec<serde_json::Value> = values.iter().map(object).collect();
    serde_json::to_vec(&items).unwrap_or_default()
}

/// The texts in place `j` of each row.
pub open spec fn column_texts(rows: Seq<Vec<Option<String>>>, j: int) -> Seq<Option<Seq<char>>> {
    rows.map_values(|row: Vec<Option<String>>| crate::text::text_or_none(row@[j]))
}

/// Reads a JSON array with `serde_json::from_slice`, and of each item, by
/// indexing it with a key and `Value::as_str`, the texts under the keys.
/// Claimed: each row has one place per key; what stands in the place of a key
/// depends on the bytes and that key alone, and is named `json_column`; whether
/// the bytes are read does not depend on the keys. Which bytes are a JSON
/// array, and what it holds, is left unsaid.
#[verifier::external_body]
pub(crate) fn read_rows(body: &[u8], keys: &Vec<&'static str>) -> (r: Option<
    Vec<Vec<Option<String>>>,
>)
    ensures
        match r {
            Some(rows) => {
                &&& forall|i: int|
                    0 <= i < rows@.len() ==> (#[trigger] rows@[i])@.len() == keys@.len()
                &&& forall|j: int|
                    0 <= j < keys@.len() ==> json_column(body@, (#[trigger] keys@[j])@) == Some(
                        column_texts(rows@, j),
                    )
            },
            None => forall|j: int|
                0 <= j < keys@.len() ==> json_column(body@, (#[trigger] keys@[j])@) is None,
        },
{
    match serde_json::from_slice::<Vec<serde_json::Value>>(body) {
        Ok(items) => {
            let row = |item: &serde_json::Value|
                keys.iter().map(|k| item[*k].as_str().map(str::to_string)).collect();
            Some(items.iter().map(row).collect())
        },
        Err(_) => None,
    }
}

} // verus!
