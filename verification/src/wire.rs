//! JSON as the channel engine sees it.
//!
//! Values are held in the `json` crate's `JsonValue`. Verus cannot look inside
//! one, so this module gives each value a mathematical model, [`JsonModel`],
//! and states what every `json` function used by the engine does in terms of
//! that model. Those statements are believed, not proved: they are the whole of
//! what this crate trusts about the `json` crate.

use vstd::prelude::*;

verus! {

/// `json::JsonValue`, opaque: a JSON value as the `json` crate holds it.
#[verifier::external_type_specification]
#[verifier::external_body]
pub struct ExJsonValue(json::JsonValue);

/// `json::number::Number`, opaque: a JSON number as the `json` crate holds
/// it. The engine never looks at one.
#[verifier::external_type_specification]
#[verifier::external_body]
pub struct ExJsonNumber(json::number::Number);

/// `json::Error`, opaque: why a text could not be parsed. The engine only
/// asks whether parsing failed.
#[verifier::external_type_specification]
#[verifier::external_body]
pub struct ExJsonError(json::Error);

/// What a JSON value is, as mathematics.
///
/// Both string representations of the `json` crate (inline and heap) are
/// `Text`. An object is the sequence of its entries in insertion order.
pub enum JsonModel {
    Null,
    Text(Seq<char>),
    Number(json::number::Number),
    Boolean(bool),
    Object(Seq<(Seq<char>, JsonModel)>),
    Array(Seq<JsonModel>),
}

/// The value under `key` in a sequence of entries: the first entry so named.
pub open spec fn entry_lookup(entries: Seq<(Seq<char>, JsonModel)>, key: Seq<char>) -> Option<
    JsonModel,
>
    decreases entries.len(),
{
    if entries.len() == 0 {
        None
    } else if entries[0].0 == key {
        Some(entries[0].1)
    } else {
        entry_lookup(entries.drop_first(), key)
    }
}

/// The entries after `key` is set to `value`: an entry so named is overwritten
/// where it stands, otherwise the new entry goes to the end.
pub open spec fn entry_put(
    entries: Seq<(Seq<char>, JsonModel)>,
    key: Seq<char>,
    value: JsonModel,
) -> Seq<(Seq<char>, JsonModel)>
    decreases entries.len(),
{
    if entries.len() == 0 {
        seq![(key, value)]
    } else if entries[0].0 == key {
        seq![(key, value)] + entries.drop_first()
    } else {
        seq![entries[0]] + entry_put(entries.drop_first(), key, value)
    }
}

impl JsonModel {
    /// The member of an object under `key`; `Null` where there is none, and
    /// for everything that is not an object.
    pub open spec fn member(self, key: Seq<char>) -> JsonModel {
        match self {
            JsonModel::Object(entries) => match entry_lookup(entries, key) {
                Some(value) => value,
                None => JsonModel::Null,
            },
            _ => JsonModel::Null,
        }
    }

    /// An object with `key` set to `value`; anything else is left as it is.
    pub open spec fn with_member(self, key: Seq<char>, value: JsonModel) -> JsonModel {
        match self {
            JsonModel::Object(entries) => JsonModel::Object(entry_put(entries, key, value)),
            _ => self,
        }
    }
}

/// The object built by setting `first_key` and then `second_key` in an empty
/// object. With two different keys that is `{ first_key: first, second_key:
/// second }`; with one key twice, the second value alone.
pub open spec fn pair_model(
    first_key: Seq<char>,
    first: JsonModel,
    second_key: Seq<char>,
    second: JsonModel,
) -> JsonModel {
    JsonModel::Object(Seq::empty()).with_member(first_key, first).with_member(second_key, second)
}

/// An object built from two different keys holds both entries, in order.
pub proof fn lemma_pair_model(
    first_key: Seq<char>,
    first: JsonModel,
    second_key: Seq<char>,
    second: JsonModel,
)
    requires
        first_key != second_key,
    ensures
        pair_model(first_key, first, second_key, second) == JsonModel::Object(
            seq![(first_key, first), (second_key, second)],
        ),
        pair_model(first_key, first, second_key, second).member(first_key) == first,
        pair_model(first_key, first, second_key, second).member(second_key) == second,
{
    let one = seq![(first_key, first)];
    let two = seq![(first_key, first), (second_key, second)];
    assert(entry_put(Seq::empty(), first_key, first) == one);
    assert(one.drop_first() == Seq::<(Seq<char>, JsonModel)>::empty());
    assert(entry_put(one.drop_first(), second_key, second) == seq![(second_key, second)]);
    assert(entry_put(one, second_key, second) == two);
    assert(two.drop_first() == seq![(second_key, second)]);
    assert(entry_lookup(two, first_key) == Some(first));
    assert(entry_lookup(two.drop_first(), second_key) == Some(second));
    assert(entry_lookup(two, second_key) == Some(second));
}

/// The model of a `JsonValue`: what the value holds.
pub uninterp spec fn json_model(value: json::JsonValue) -> JsonModel;

/// What `json::parse` makes of a text: the model of the value it returns, or
/// `None` where it returns an error.
pub uninterp spec fn json_parse_model(text: Seq<char>) -> Option<JsonModel>;

/// The text that `JsonValue::dump` writes for a value with this model.
pub uninterp spec fn json_dump_text(model: JsonModel) -> Seq<char>;

/// The byte that writes the digit zero.
pub const ASCII_ZERO: u8 = 0x30;

/// How many zeros in a row make a text too risky to parse.
///
/// The parser of the `json` crate counts the digits of a fraction in a 16-bit
/// integer, which it lowers once per digit while the digits read so far are
/// worth less than some 18 decimal places. Only zeros keep them worth nothing,
/// so the count can pass its lower end, at 32,768, only in a text that holds
/// at least 32,749 zeros in a row. The limit here stays below that by a
/// margin.
pub const ZERO_RUN_LIMIT: usize = 32_700;

/// Whether `bytes` holds `len` zeros in a row from `start` on.
pub open spec fn zeros_from(bytes: Seq<u8>, start: int, len: int) -> bool {
    &&& 0 <= start
    &&& start + len <= bytes.len()
    &&& forall|k: int| start <= k < start + len ==> #[trigger] bytes[k] == ASCII_ZERO
}

/// Whether `bytes` holds `len` zeros in a row somewhere.
pub open spec fn has_zero_run(bytes: Seq<u8>, len: int) -> bool {
    exists|start: int| #[trigger] zeros_from(bytes, start, len)
}

/// Whether a text may be handed to the parser: its bytes hold no run of
/// `ZERO_RUN_LIMIT` zeros.
pub open spec fn parse_admits(text: Seq<char>) -> bool {
    !has_zero_run(vstd::utf8::encode_utf8(text), ZERO_RUN_LIMIT as int)
}

/// What the engine makes of a text: what the parser makes of it where it may
/// be handed to the parser, and nothing otherwise.
pub open spec fn parsed(text: Seq<char>) -> Option<JsonModel> {
    if parse_admits(text) {
        json_parse_model(text)
    } else {
        None
    }
}

/// `json::parse`: parsing is a function of the text alone. It returns `Ok`
/// with a value whose model is `json_parse_model` of the text, or `Err` where
/// that is `None`. Texts with a long run of zeros are left out, because the
/// parser's count of fraction digits can overflow on them and stop the
/// program.
pub assume_specification[ json::parse ](source: &str) -> (r: Result<json::JsonValue, json::Error>)
    requires
        parse_admits(source@),
    ensures
        match r {
            Ok(value) => json_parse_model(source@) == Some(json_model(value)),
            Err(_) => json_parse_model(source@) is None,
        },
;

/// `JsonValue::dump`: the compact text of a value depends on its model alone.
pub assume_specification[ json::JsonValue::dump ](value: &json::JsonValue) -> (text: String)
    ensures
        text@ == json_dump_text(json_model(*value)),
;

/// `JsonValue::new_object`: an object without entries.
pub assume_specification[ json::JsonValue::new_object ]() -> (object: json::JsonValue)
    ensures
        json_model(object) == JsonModel::Object(Seq::empty()),
;

/// `JsonValue::clone`: the copy holds what the value holds.
pub assume_specification[ <json::JsonValue as Clone>::clone ](value: &json::JsonValue) -> (copy:
    json::JsonValue)
    ensures
        json_model(copy) == json_model(*value),
;

/// `JsonValue::from(String)`: the string value with that text.
pub assume_specification[ <json::JsonValue as From<String>>::from ](text: String) -> (value:
    json::JsonValue)
    ensures
        json_model(value) == JsonModel::Text(text@),
;

/// `JsonValue::as_str`: the text of a string value, `None` for any other.
pub assume_specification<'a>[ json::JsonValue::as_str ](value: &'a json::JsonValue) -> (text:
    Option<&'a str>)
    ensures
        match text {
            Some(s) => json_model(*value) == JsonModel::Text(s@),
            None => !(json_model(*value) is Text),
        },
;

/// `JsonValue::is_string`: true of both string representations only.
pub assume_specification[ json::JsonValue::is_string ](value: &json::JsonValue) -> (r: bool)
    ensures
        r == (json_model(*value) is Text),
;

/// `JsonValue::is_number`: true of numbers only.
pub assume_specification[ json::JsonValue::is_number ](value: &json::JsonValue) -> (r: bool)
    ensures
        r == (json_model(*value) is Number),
;

/// `JsonValue::is_boolean`: true of booleans only.
pub assume_specification[ json::JsonValue::is_boolean ](value: &json::JsonValue) -> (r: bool)
    ensures
        r == (json_model(*value) is Boolean),
;

/// `JsonValue::is_null`: true of null only.
pub assume_specification[ json::JsonValue::is_null ](value: &json::JsonValue) -> (r: bool)
    ensures
        r == (json_model(*value) is Null),
;

/// `JsonValue::is_object`: true of objects only.
pub assume_specification[ json::JsonValue::is_object ](value: &json::JsonValue) -> (r: bool)
    ensures
        r == (json_model(*value) is Object),
;

/// `JsonValue::is_array`: true of arrays only.
pub assume_specification[ json::JsonValue::is_array ](value: &json::JsonValue) -> (r: bool)
    ensures
        r == (json_model(*value) is Array),
;

/// Indexing a `JsonValue` by a string key (`Index<&str>`): the member of an
/// object under that key, and a null for a missing key or a value that is not
/// an object.
#[verifier::external_body]
pub(crate) fn member_of<'a>(value: &'a json::JsonValue, key: &str) -> (member: &'a json::JsonValue)
    ensures
        json_model(*member) == json_model(*value).member(key@),
{
    &value[key]
}

/// `JsonValue::insert`: on an object, sets the entry under `key`, overwriting
/// one that is there and appending otherwise; any other value is left as it is
/// (the crate reports a wrong type, which is dropped here).
#[verifier::external_body]
pub(crate) fn set_member(object: &mut json::JsonValue, key: &str, value: json::JsonValue)
    ensures
        json_model(*final(object)) == json_model(*old(object)).with_member(key@, json_model(value)),
{
    let _ = object.insert(key, value);
}

/// `std::str::from_utf8`: the bytes as text where they are valid UTF-8, and
/// `None` (the standard library's error, dropped here) where they are not.
#[verifier::external_body]
pub(crate) fn text_of_bytes<'a>(bytes: &'a [u8]) -> (text: Option<&'a str>)
    ensures
        match text {
            Some(s) => vstd::utf8::valid_utf8(bytes@) && s@ == vstd::utf8::decode_utf8(bytes@),
            None => !vstd::utf8::valid_utf8(bytes@),
        },
{
    match std::str::from_utf8(bytes) {
        Ok(text) => Some(text),
        Err(_) => None,
    }
}

/// Whether `text` may be handed to the parser.
pub fn admits_parse(text: &str) -> (admitted: bool)
    ensures
        admitted == parse_admits(text@),
{
    let bytes = text.as_bytes();
    let mut run: usize = 0;
    let mut i: usize = 0;
    while i < bytes.len()
        invariant
            i <= bytes.len(),
            bytes@ == vstd::utf8::encode_utf8(text@),
            run <= i,
            run < ZERO_RUN_LIMIT,
            zeros_from(bytes@, i - run, run as int),
            run < i ==> bytes@[i - run - 1] != ASCII_ZERO,
            forall|start: int|
                start + ZERO_RUN_LIMIT <= i ==> !#[trigger] zeros_from(
                    bytes@,
                    start,
                    ZERO_RUN_LIMIT as int,
                ),
        decreases bytes.len() - i,
    {
        if bytes[i] == ASCII_ZERO {
            run += 1;
            if run >= ZERO_RUN_LIMIT {
                proof {
                    assert(zeros_from(bytes@, i + 1 - run, ZERO_RUN_LIMIT as int));
                }
                return false;
            }
            proof {
                assert forall|start: int|
                    start + ZERO_RUN_LIMIT <= i + 1 implies !#[trigger] zeros_from(
                    bytes@,
                    start,
                    ZERO_RUN_LIMIT as int,
                ) by {
                    if start + ZERO_RUN_LIMIT == i + 1 && 0 <= start {
                        assert(start <= i - run < start + ZERO_RUN_LIMIT);
                        assert(bytes@[i - run] != ASCII_ZERO);
                    }
                }
            }
        } else {
            run = 0;
            proof {
                assert forall|start: int|
                    start + ZERO_RUN_LIMIT <= i + 1 implies !#[trigger] zeros_from(
                    bytes@,
                    start,
                    ZERO_RUN_LIMIT as int,
                ) by {
                    if start + ZERO_RUN_LIMIT == i + 1 && 0 <= start {
                        assert(bytes@[i as int] != ASCII_ZERO);
                    }
                }
            }
        }
        i += 1;
    }
    true
}

/// Parses `text`, unless it may not be handed to the parser.
pub fn parse_text(text: &str) -> (value: Option<json::JsonValue>)
    ensures
        match value {
            Some(value) => parsed(text@) == Some(json_model(value)),
            None => parsed(text@) is None,
        },
{
    if !admits_parse(text) {
        return None;
    }
    match json::parse(text) {
        Ok(value) => Some(value),
        Err(_) => None,
    }
}

/// Builds an object by setting `first_key` and then `second_key`.
pub fn pair_object(
    first_key: &str,
    first: json::JsonValue,
    second_key: &str,
    second: json::JsonValue,
) -> (object: json::JsonValue)
    ensures
        json_model(object) == pair_model(
            first_key@,
            json_model(first),
            second_key@,
            json_model(second),
        ),
{
    let mut object = json::JsonValue::new_object();
    set_member(&mut object, first_key, first);
    set_member(&mut object, second_key, second);
    object
}

} // verus!
