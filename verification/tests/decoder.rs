//! The validator behind a real decoder: serde_json decodes JSON text, and
//! everything it finds is passed on to a validator.

use std::collections::BTreeMap;
use std::fmt;
use std::marker::PhantomData;

use serde::de::value::{
    BorrowedBytesDeserializer, BorrowedStrDeserializer, BytesDeserializer,
    EnumAccessDeserializer, Error as PlainError, SeqDeserializer, U8Deserializer,
};
use serde::de::{
    Deserialize, DeserializeSeed, Deserializer, EnumAccess, Error, IgnoredAny, IntoDeserializer,
    MapAccess, SeqAccess, Unexpected, Visitor,
};
use serdeval::{
    Descriptor, Event, Foreign, MapOf, Position, Request, SeqOf, Shape, Status, Validator,
    ValueKind,
};

/// The types whose own decoding stands for the foreign parts of a shape, by
/// the place where the part stands.
trait Delegates<'de> {
    /// Decodes a foreign element of a sequence, and a foreign value at the
    /// top.
    type Element: Deserialize<'de>;
    /// Decodes a foreign key.
    type Key: Deserialize<'de>;
    /// Decodes a foreign value of a key/value collection.
    type Value: Deserialize<'de>;
}

/// For shapes without foreign parts.
struct NoDelegate;

impl<'de> Delegates<'de> for NoDelegate {
    type Element = IgnoredAny;
    type Key = IgnoredAny;
    type Value = IgnoredAny;
}

/// For a sequence whose elements are decoded as `T`.
struct ElementsOf<T>(PhantomData<T>);

impl<'de, T: Deserialize<'de>> Delegates<'de> for ElementsOf<T> {
    type Element = T;
    type Key = IgnoredAny;
    type Value = IgnoredAny;
}

/// For a key/value collection whose keys are decoded as `K` and whose
/// values as `V`.
struct EntriesOf<K, V>(PhantomData<(K, V)>);

impl<'de, K: Deserialize<'de>, V: Deserialize<'de>> Delegates<'de> for EntriesOf<K, V> {
    type Element = IgnoredAny;
    type Key = K;
    type Value = V;
}

/// Drives a decoder for the one value that is due and reports to the
/// validator.
struct Walk<'v, 'a, F> {
    validator: &'v mut Validator<'a>,
    delegates: PhantomData<F>,
}

impl<'v, 'a, F> Walk<'v, 'a, F> {
    /// A walk that reports to `validator`.
    fn new(validator: &'v mut Validator<'a>) -> Self {
        Walk { validator, delegates: PhantomData }
    }

    fn announce<E: Error>(self, kind: ValueKind, found: Unexpected) -> Result<Self, E> {
        let expected = self.validator.expecting();
        match self.validator.feed(Event::Value(kind)) {
            Status::Failed(_) => Err(E::invalid_type(found, &expected)),
            _ => Ok(self),
        }
    }

    fn leaf<E: Error>(self, kind: ValueKind, found: Unexpected) -> Result<(), E> {
        self.announce(kind, found).map(drop)
    }

    fn close<E: Error>(self) -> Result<(), E> {
        match self.validator.feed(Event::End) {
            Status::Failed(_) => Err(E::custom("the collection cannot end here")),
            _ => Ok(()),
        }
    }
}

impl<'de, 'v, 'a, F: Delegates<'de>> DeserializeSeed<'de> for Walk<'v, 'a, F> {
    type Value = ();

    fn deserialize<D: Deserializer<'de>>(self, decoder: D) -> Result<(), D::Error> {
        let validator = self.validator;
        let result = match validator.request() {
            Some(Request::Scalar) => decoder.deserialize_str(Walk::<F>::new(&mut *validator)),
            Some(Request::Sequence) => decoder.deserialize_seq(Walk::<F>::new(&mut *validator)),
            Some(Request::Mapping) => decoder.deserialize_map(Walk::<F>::new(&mut *validator)),
            Some(Request::Any) => decoder.deserialize_any(Walk::<F>::new(&mut *validator)),
            Some(Request::Foreign) => {
                let taken = match validator.position() {
                    Position::Key => F::Key::deserialize(decoder).map(drop),
                    Position::Value => F::Value::deserialize(decoder).map(drop),
                    Position::Element | Position::Top => F::Element::deserialize(decoder).map(drop),
                };
                if taken.is_ok() {
                    validator.feed(Event::Delegated);
                }
                taken
            }
            None => Err(D::Error::custom("the validation has stopped")),
        };
        if result.is_err() {
            validator.feed(Event::Fault);
        }
        result
    }
}

impl<'de, 'v, 'a, F: Delegates<'de>> Visitor<'de> for Walk<'v, 'a, F> {
    type Value = ();

    fn expecting(&self, formatter: &mut fmt::Formatter) -> fmt::Result {
        formatter.write_str(self.validator.expecting())
    }

    fn visit_bool<E: Error>(self, v: bool) -> Result<(), E> {
        self.leaf(ValueKind::Bool, Unexpected::Bool(v))
    }

    fn visit_i8<E: Error>(self, v: i8) -> Result<(), E> {
        self.leaf(ValueKind::I8, Unexpected::Signed(i64::from(v)))
    }

    fn visit_i16<E: Error>(self, v: i16) -> Result<(), E> {
        self.leaf(ValueKind::I16, Unexpected::Signed(i64::from(v)))
    }

    fn visit_i32<E: Error>(self, v: i32) -> Result<(), E> {
        self.leaf(ValueKind::I32, Unexpected::Signed(i64::from(v)))
    }

    fn visit_i64<E: Error>(self, v: i64) -> Result<(), E> {
        self.leaf(ValueKind::I64, Unexpected::Signed(v))
    }

    fn visit_i128<E: Error>(self, _: i128) -> Result<(), E> {
        self.leaf(ValueKind::I128, Unexpected::Other("a 128-bit integer"))
    }

    fn visit_u8<E: Error>(self, v: u8) -> Result<(), E> {
        self.leaf(ValueKind::U8, Unexpected::Unsigned(u64::from(v)))
    }

    fn visit_u16<E: Error>(self, v: u16) -> Result<(), E> {
        self.leaf(ValueKind::U16, Unexpected::Unsigned(u64::from(v)))
    }

    fn visit_u32<E: Error>(self, v: u32) -> Result<(), E> {
        self.leaf(ValueKind::U32, Unexpected::Unsigned(u64::from(v)))
    }

    fn visit_u64<E: Error>(self, v: u64) -> Result<(), E> {
        self.leaf(ValueKind::U64, Unexpected::Unsigned(v))
    }

    fn visit_u128<E: Error>(self, _: u128) -> Result<(), E> {
        self.leaf(ValueKind::U128, Unexpected::Other("a 128-bit integer"))
    }

    fn visit_f32<E: Error>(self, v: f32) -> Result<(), E> {
        self.leaf(ValueKind::F32, Unexpected::Float(f64::from(v)))
    }

    fn visit_f64<E: Error>(self, v: f64) -> Result<(), E> {
        self.leaf(ValueKind::F64, Unexpected::Float(v))
    }

    fn visit_char<E: Error>(self, v: char) -> Result<(), E> {
        self.leaf(ValueKind::Char, Unexpected::Char(v))
    }

    fn visit_str<E: Error>(self, v: &str) -> Result<(), E> {
        self.leaf(ValueKind::Text, Unexpected::Str(v))
    }

    fn visit_borrowed_str<E: Error>(self, v: &'de str) -> Result<(), E> {
        self.leaf(ValueKind::BorrowedText, Unexpected::Str(v))
    }

    fn visit_string<E: Error>(self, v: String) -> Result<(), E> {
        self.leaf(ValueKind::OwnedText, Unexpected::Str(&v))
    }

    fn visit_bytes<E: Error>(self, v: &[u8]) -> Result<(), E> {
        self.leaf(ValueKind::Bytes, Unexpected::Bytes(v))
    }

    fn visit_borrowed_bytes<E: Error>(self, v: &'de [u8]) -> Result<(), E> {
        self.leaf(ValueKind::BorrowedBytes, Unexpected::Bytes(v))
    }

    fn visit_byte_buf<E: Error>(self, v: Vec<u8>) -> Result<(), E> {
        self.leaf(ValueKind::OwnedBytes, Unexpected::Bytes(&v))
    }

    fn visit_none<E: Error>(self) -> Result<(), E> {
        self.leaf(ValueKind::Absent, Unexpected::Option)
    }

    fn visit_some<D: Deserializer<'de>>(self, decoder: D) -> Result<(), D::Error> {
        self.announce(ValueKind::Present, Unexpected::Option)?.deserialize(decoder)
    }

    fn visit_unit<E: Error>(self) -> Result<(), E> {
        self.leaf(ValueKind::Unit, Unexpected::Unit)
    }

    fn visit_newtype_struct<D: Deserializer<'de>>(self, decoder: D) -> Result<(), D::Error> {
        self.announce(ValueKind::Wrapper, Unexpected::NewtypeStruct)?.deserialize(decoder)
    }

    fn visit_seq<A: SeqAccess<'de>>(self, mut seq: A) -> Result<(), A::Error> {
        let validator = self.announce(ValueKind::Sequence, Unexpected::Seq)?.validator;
        while validator.position() == Position::Element {
            if seq.next_element_seed(Walk::<F>::new(&mut *validator))?.is_none() {
                return Walk::<F>::new(validator).close();
            }
        }
        Err(A::Error::custom("the validation left the sequence before its end"))
    }

    fn visit_map<A: MapAccess<'de>>(self, mut map: A) -> Result<(), A::Error> {
        let validator = self.announce(ValueKind::Mapping, Unexpected::Map)?.validator;
        while validator.position() == Position::Key {
            if map.next_key_seed(Walk::<F>::new(&mut *validator))?.is_none() {
                return Walk::<F>::new(validator).close();
            }
            map.next_value_seed(Walk::<F>::new(&mut *validator))?;
        }
        Err(A::Error::custom("the validation left the collection before its end"))
    }

    fn visit_enum<A: EnumAccess<'de>>(self, _: A) -> Result<(), A::Error> {
        self.leaf(ValueKind::Variant, Unexpected::Enum)
    }
}

/// Validates the one value that `decoder` is positioned at against `shape`,
/// with `F` for its foreign parts.
fn validate<'de, F, D>(shape: &Shape, decoder: D) -> Result<(), D::Error>
where
    F: Delegates<'de>,
    D: Deserializer<'de>,
{
    let mut validator = Validator::new(shape);
    Walk::<F>::new(&mut validator).deserialize(decoder)?;
    match validator.status() {
        Status::Done => Ok(()),
        _ => Err(D::Error::custom("the decoder returned before the value was complete")),
    }
}

/// A sequence whose elements decode as `T`.
#[derive(Debug)]
struct Sequence<T>(PhantomData<T>);

/// A key/value collection whose keys decode as `K` and whose values decode
/// as `V`.
#[derive(Debug)]
struct Mapping<K, V>(PhantomData<(K, V)>);

/// A single textual scalar.
#[derive(Clone, Copy, Debug, PartialEq, Eq, Default)]
struct Str;

/// Any value whatsoever.
#[derive(Clone, Copy, Debug, PartialEq, Eq, Default)]
struct Any;

impl<'de, T: Deserialize<'de>> Deserialize<'de> for Sequence<T> {
    fn deserialize<D>(deserializer: D) -> Result<Self, D::Error>
    where
        D: Deserializer<'de>,
    {
        let shape = SeqOf::<Foreign>::shape();
        validate::<ElementsOf<T>, D>(&shape, deserializer).map(|()| Sequence(PhantomData))
    }
}

impl<'de, K, V> Deserialize<'de> for Mapping<K, V>
where
    K: Deserialize<'de>,
    V: Deserialize<'de>,
{
    fn deserialize<D>(deserializer: D) -> Result<Self, D::Error>
    where
        D: Deserializer<'de>,
    {
        let shape = MapOf::<Foreign, Foreign>::shape();
        validate::<EntriesOf<K, V>, D>(&shape, deserializer).map(|()| Mapping(PhantomData))
    }
}

impl<'de> Deserialize<'de> for Str {
    fn deserialize<D>(deserializer: D) -> Result<Self, D::Error>
    where
        D: Deserializer<'de>,
    {
        let shape = serdeval::Str::shape();
        validate::<NoDelegate, D>(&shape, deserializer).map(|()| Str)
    }
}

impl<'de> Deserialize<'de> for Any {
    fn deserialize<D>(deserializer: D) -> Result<Self, D::Error>
    where
        D: Deserializer<'de>,
    {
        let shape = serdeval::Any::shape();
        validate::<NoDelegate, D>(&shape, deserializer).map(|()| Any)
    }
}


/// Decodes `text` as JSON and validates it against `shape`, all of it by one
/// validator.
fn check(shape: &Shape, text: &str) -> Result<(), serde_json::Error> {
    let mut decoder = serde_json::Deserializer::from_str(text);
    validate::<NoDelegate, _>(shape, &mut decoder)?;
    decoder.end()
}

#[test]
fn deserialize_seq() {
    let json = serde_json::Value::Array(vec![serde_json::Value::from(1)]);
    let json = json.to_string();

    let _: Sequence<i32> = serde_json::from_str(&json).unwrap();

    let json = serde_json::Value::from(1);
    let json = json.to_string();

    assert!(serde_json::from_str::<Sequence<i32>>(&json).is_err());
}

#[test]
fn deserialize_str() {
    let json = serde_json::Value::from("hello");
    let json = json.to_string();

    let _: Str = serde_json::from_str(&json).unwrap();
}

#[test]
fn deserialize_map() {
    let mut object = serde_json::Map::new();
    object.insert("hello".to_string(), serde_json::Value::from(1));
    let json = serde_json::Value::Object(object);
    let json = json.to_string();

    let _: Mapping<Str, i32> = serde_json::from_str(&json).unwrap();

    let json = serde_json::Value::from(1);
    let json = json.to_string();

    assert!(serde_json::from_str::<Sequence<i32>>(&json).is_err());
}

#[test]
fn deserialize_any() {
    let mut object = serde_json::Map::new();
    object.insert("hello".to_string(), serde_json::Value::from(1));
    object.insert("blabla".to_string(), serde_json::Value::from("hello"));
    let json = serde_json::Value::Object(object);
    let json = json.to_string();

    let _: Any = serde_json::from_str(&json).unwrap();

    // invalid json
    let json = r##"{"hello": {1: "blabla"}}"##;
    assert!(serde_json::from_str::<Sequence<i32>>(&json).is_err());
}

#[test]
fn any_rejects_a_key_that_is_no_string() {
    let json = r##"{"hello": {1: "blabla"}}"##;
    assert!(serde_json::from_str::<Any>(json).is_err());
}

#[test]
fn any_accepts_a_deep_mix() {
    let json = r#"{"a": [1, -2, 2.5, "x", null, true, {"b": [[], {}]}], "c": {"d": {"e": [[[0]]]}}}"#;
    let _: Any = serde_json::from_str(json).unwrap();
}

#[test]
fn any_accepts_each_json_scalar() {
    for json in ["null", "true", "false", "0", "-7", "18446744073709551615", "1.5e3", "\"text\""] {
        let _: Any = serde_json::from_str(json).unwrap();
    }
}

#[test]
fn any_rejects_input_that_stops_early() {
    for json in ["", "[1, 2", "{\"a\": ", "{\"a\"", "[[1]", "\"open"] {
        assert!(serde_json::from_str::<Any>(json).is_err(), "{json}");
    }
}

#[test]
fn any_rejects_what_follows_the_value() {
    assert!(serde_json::from_str::<Any>("1 2").is_err());
    assert!(serde_json::from_str::<Any>("[] []").is_err());
}

#[test]
fn empty_collections_are_valid() {
    let _: Sequence<i32> = serde_json::from_str("[]").unwrap();
    let _: Sequence<Str> = serde_json::from_str("[]").unwrap();
    let _: Mapping<Str, i32> = serde_json::from_str("{}").unwrap();
    let _: Mapping<Str, Any> = serde_json::from_str("{}").unwrap();
}

#[test]
fn sequence_rejects_an_element_of_another_shape() {
    let _: Sequence<Str> = serde_json::from_str(r#"["a", "b"]"#).unwrap();
    assert!(serde_json::from_str::<Sequence<Str>>(r#"["a", 1]"#).is_err());
    assert!(serde_json::from_str::<Sequence<i32>>(r#"[1, "a"]"#).is_err());
}

#[test]
fn sequence_rejects_what_is_no_sequence() {
    for json in ["1", "\"a\"", "true", "null", "{}", "{\"a\": [1]}"] {
        assert!(serde_json::from_str::<Sequence<Any>>(json).is_err(), "{json}");
    }
}

#[test]
fn map_rejects_what_is_no_map() {
    for json in ["1", "\"a\"", "true", "null", "[]", "[{\"a\": 1}]"] {
        assert!(serde_json::from_str::<Mapping<Str, Any>>(json).is_err(), "{json}");
    }
}

#[test]
fn map_rejects_a_value_of_another_shape() {
    let _: Mapping<Str, Str> = serde_json::from_str(r#"{"a": "x", "b": "y"}"#).unwrap();
    assert!(serde_json::from_str::<Mapping<Str, Str>>(r#"{"a": "x", "b": 2}"#).is_err());
    assert!(serde_json::from_str::<Mapping<Str, i32>>(r#"{"a": 1, "b": "y"}"#).is_err());
}

#[test]
fn scalar_rejects_what_is_no_text() {
    for json in ["1", "1.5", "true", "null", "[]", "{}", "[\"a\"]"] {
        assert!(serde_json::from_str::<Str>(json).is_err(), "{json}");
    }
}

#[test]
fn nested_descriptors_validate_in_depth() {
    let _: Sequence<Sequence<Str>> = serde_json::from_str(r#"[["a"], [], ["b", "c"]]"#).unwrap();
    assert!(serde_json::from_str::<Sequence<Sequence<Str>>>(r#"[["a"], [1]]"#).is_err());
    let _: Mapping<Str, Sequence<Mapping<Str, Any>>> =
        serde_json::from_str(r#"{"k": [{"x": 1}, {"y": [null]}]}"#).unwrap();
    assert!(serde_json::from_str::<Mapping<Str, Sequence<Mapping<Str, Any>>>>(r#"{"k": [{"x": 1}, 2]}"#).is_err());
}

#[test]
fn a_mismatch_names_the_expected_shape() {
    let error = serde_json::from_str::<Sequence<i32>>("1").unwrap_err();
    assert_eq!(error.to_string(), "invalid type: integer `1`, expected a Seq at line 1 column 1");
    let error = serde_json::from_str::<Mapping<Str, i32>>("1").unwrap_err();
    assert_eq!(error.to_string(), "invalid type: integer `1`, expected a Map at line 1 column 1");
    let error = serde_json::from_str::<Str>("1").unwrap_err();
    assert_eq!(error.to_string(), "invalid type: integer `1`, expected a String at line 1 column 1");
}

#[test]
fn the_decoder_error_comes_through_unchanged() {
    let json = "[1, 2";
    let plain = serde_json::from_str::<serde_json::Value>(json).unwrap_err();
    let ours = serde_json::from_str::<Any>(json).unwrap_err();
    assert_eq!(ours.to_string(), plain.to_string());
    let foreign = serde_json::from_str::<Vec<i32>>(r#"[1, "a"]"#).unwrap_err();
    let ours = serde_json::from_str::<Sequence<i32>>(r#"[1, "a"]"#).unwrap_err();
    assert_eq!(ours.to_string(), foreign.to_string());
}

#[test]
fn one_validator_follows_a_whole_shape() {
    let shape = MapOf::<serdeval::Str, SeqOf<serdeval::Any>>::shape();
    check(&shape, r#"{"k": [1, "x", [true]], "l": []}"#).unwrap();
    assert!(check(&shape, r#"{"k": 1}"#).is_err());
    assert!(check(&shape, r#"{"k": [1], "l": {}}"#).is_err());
    let shape = SeqOf::<SeqOf<serdeval::Str>>::shape();
    check(&shape, r#"[["a"], [], ["b", "c"]]"#).unwrap();
    assert!(check(&shape, r#"[["a"], [1]]"#).is_err());
    assert!(check(&shape, r#"[["a"], "b"]"#).is_err());
}

#[test]
fn the_validator_is_done_and_empty_after_a_value() {
    let shape = serdeval::Any::shape();
    let mut validator = Validator::new(&shape);
    let mut decoder = serde_json::Deserializer::from_str(r#"{"a": [[1, 2], {"b": [3]}]}"#);
    Walk::<NoDelegate>::new(&mut validator).deserialize(&mut decoder).unwrap();
    assert_eq!(validator.status(), Status::Done);
    assert_eq!(validator.depth(), 0);
    assert_eq!(validator.request(), None);
}

#[test]
fn the_validator_records_the_decoder_failure() {
    let shape = serdeval::Any::shape();
    let mut validator = Validator::new(&shape);
    let mut decoder = serde_json::Deserializer::from_str("[1, [2, ");
    assert!(Walk::<NoDelegate>::new(&mut validator).deserialize(&mut decoder).is_err());
    assert_eq!(validator.status(), Status::Failed(serdeval::ValidationError::Decoder));
    assert_eq!(validator.depth(), 2);
}

#[test]
fn a_mismatch_that_the_decoder_finds_is_the_decoders_error() {
    let shape = SeqOf::<serdeval::Str>::shape();
    let mut validator = Validator::new(&shape);
    let mut decoder = serde_json::Deserializer::from_str(r#"["a", ["b"]]"#);
    assert!(Walk::<NoDelegate>::new(&mut validator).deserialize(&mut decoder).is_err());
    assert_eq!(validator.status(), Status::Failed(serdeval::ValidationError::Decoder));
    assert_eq!(validator.depth(), 1);
}

/// Validates what a decoder of serde's own finds, one that pays no heed to
/// what is asked of it.
fn plain<'de, D>(shape: &Shape, decoder: D) -> (Result<(), PlainError>, Status)
where
    D: Deserializer<'de, Error = PlainError>,
{
    let mut validator = Validator::new(shape);
    let result = Walk::<NoDelegate>::new(&mut validator).deserialize(decoder);
    (result, validator.status())
}

const MISMATCH: Status = Status::Failed(serdeval::ValidationError::Mismatch);

#[test]
fn the_validator_finds_the_mismatch_where_the_decoder_does_not() {
    let scalar = serdeval::Str::shape();
    let (result, status) = plain(&scalar, 1i32.into_deserializer());
    assert_eq!(result.unwrap_err().to_string(), "invalid type: integer `1`, expected a String");
    assert_eq!(status, MISMATCH);
    let sequence = SeqOf::<serdeval::Any>::shape();
    let (result, status) = plain(&sequence, true.into_deserializer());
    assert_eq!(result.unwrap_err().to_string(), "invalid type: boolean `true`, expected a Seq");
    assert_eq!(status, MISMATCH);
    let mapping = MapOf::<serdeval::Str, serdeval::Any>::shape();
    let (result, status) = plain(&mapping, vec![1u8].into_deserializer());
    assert_eq!(result.unwrap_err().to_string(), "invalid type: sequence, expected a Map");
    assert_eq!(status, MISMATCH);
}

/// A decoder that announces what the formats of the other tests never do:
/// an optional value, a wrapper, or bytes in a buffer of their own. It
/// announces the same whatever it is asked for.
enum Odd<D> {
    Absent(PhantomData<D>),
    Present(D),
    Wrapped(D),
    OwnedBytes(Vec<u8>, PhantomData<D>),
}

impl<'de, D: Deserializer<'de>> Deserializer<'de> for Odd<D> {
    type Error = D::Error;

    fn deserialize_any<V: Visitor<'de>>(self, visitor: V) -> Result<V::Value, D::Error> {
        match self {
            Odd::Absent(_) => visitor.visit_none(),
            Odd::Present(inner) => visitor.visit_some(inner),
            Odd::Wrapped(inner) => visitor.visit_newtype_struct(inner),
            Odd::OwnedBytes(bytes, _) => visitor.visit_byte_buf(bytes),
        }
    }

    fn deserialize_bool<V: Visitor<'de>>(self, visitor: V) -> Result<V::Value, D::Error> {
        self.deserialize_any(visitor)
    }

    fn deserialize_i8<V: Visitor<'de>>(self, visitor: V) -> Result<V::Value, D::Error> {
        self.deserialize_any(visitor)
    }

    fn deserialize_i16<V: Visitor<'de>>(self, visitor: V) -> Result<V::Value, D::Error> {
        self.deserialize_any(visitor)
    }

    fn deserialize_i32<V: Visitor<'de>>(self, visitor: V) -> Result<V::Value, D::Error> {
        self.deserialize_any(visitor)
    }

    fn deserialize_i64<V: Visitor<'de>>(self, visitor: V) -> Result<V::Value, D::Error> {
        self.deserialize_any(visitor)
    }

    fn deserialize_u8<V: Visitor<'de>>(self, visitor: V) -> Result<V::Value, D::Error> {
        self.deserialize_any(visitor)
    }

    fn deserialize_u16<V: Visitor<'de>>(self, visitor: V) -> Result<V::Value, D::Error> {
        self.deserialize_any(visitor)
    }

    fn deserialize_u32<V: Visitor<'de>>(self, visitor: V) -> Result<V::Value, D::Error> {
        self.deserialize_any(visitor)
    }

    fn deserialize_u64<V: Visitor<'de>>(self, visitor: V) -> Result<V::Value, D::Error> {
        self.deserialize_any(visitor)
    }

    fn deserialize_f32<V: Visitor<'de>>(self, visitor: V) -> Result<V::Value, D::Error> {
        self.deserialize_any(visitor)
    }

    fn deserialize_f64<V: Visitor<'de>>(self, visitor: V) -> Result<V::Value, D::Error> {
        self.deserialize_any(visitor)
    }

    fn deserialize_char<V: Visitor<'de>>(self, visitor: V) -> Result<V::Value, D::Error> {
        self.deserialize_any(visitor)
    }

    fn deserialize_str<V: Visitor<'de>>(self, visitor: V) -> Result<V::Value, D::Error> {
        self.deserialize_any(visitor)
    }

    fn deserialize_string<V: Visitor<'de>>(self, visitor: V) -> Result<V::Value, D::Error> {
        self.deserialize_any(visitor)
    }

    fn deserialize_bytes<V: Visitor<'de>>(self, visitor: V) -> Result<V::Value, D::Error> {
        self.deserialize_any(visitor)
    }

    fn deserialize_byte_buf<V: Visitor<'de>>(self, visitor: V) -> Result<V::Value, D::Error> {
        self.deserialize_any(visitor)
    }

    fn deserialize_option<V: Visitor<'de>>(self, visitor: V) -> Result<V::Value, D::Error> {
        self.deserialize_any(visitor)
    }

    fn deserialize_unit<V: Visitor<'de>>(self, visitor: V) -> Result<V::Value, D::Error> {
        self.deserialize_any(visitor)
    }

    fn deserialize_seq<V: Visitor<'de>>(self, visitor: V) -> Result<V::Value, D::Error> {
        self.deserialize_any(visitor)
    }

    fn deserialize_map<V: Visitor<'de>>(self, visitor: V) -> Result<V::Value, D::Error> {
        self.deserialize_any(visitor)
    }

    fn deserialize_identifier<V: Visitor<'de>>(self, visitor: V) -> Result<V::Value, D::Error> {
        self.deserialize_any(visitor)
    }

    fn deserialize_ignored_any<V: Visitor<'de>>(self, visitor: V) -> Result<V::Value, D::Error> {
        self.deserialize_any(visitor)
    }

    fn deserialize_unit_struct<V: Visitor<'de>>(
        self,
        _: &'static str,
        visitor: V,
    ) -> Result<V::Value, D::Error> {
        self.deserialize_any(visitor)
    }

    fn deserialize_newtype_struct<V: Visitor<'de>>(
        self,
        _: &'static str,
        visitor: V,
    ) -> Result<V::Value, D::Error> {
        self.deserialize_any(visitor)
    }

    fn deserialize_tuple<V: Visitor<'de>>(self, _: usize, visitor: V) -> Result<V::Value, D::Error> {
        self.deserialize_any(visitor)
    }

    fn deserialize_tuple_struct<V: Visitor<'de>>(
        self,
        _: &'static str,
        _: usize,
        visitor: V,
    ) -> Result<V::Value, D::Error> {
        self.deserialize_any(visitor)
    }

    fn deserialize_struct<V: Visitor<'de>>(
        self,
        _: &'static str,
        _: &'static [&'static str],
        visitor: V,
    ) -> Result<V::Value, D::Error> {
        self.deserialize_any(visitor)
    }

    fn deserialize_enum<V: Visitor<'de>>(
        self,
        _: &'static str,
        _: &'static [&'static str],
        visitor: V,
    ) -> Result<V::Value, D::Error> {
        self.deserialize_any(visitor)
    }
}

type PlainU8 = U8Deserializer<PlainError>;

fn absent() -> Odd<PlainU8> {
    Odd::Absent(PhantomData)
}

fn owned_bytes() -> Odd<PlainU8> {
    Odd::OwnedBytes(vec![1, 2], PhantomData)
}

#[test]
fn any_looks_at_the_value_of_a_present_optional() {
    let any = serdeval::Any::shape();
    let done = (Ok(()), Status::Done);
    assert_eq!(plain(&any, absent()), done);
    assert_eq!(plain(&any, Odd::Present(1u8.into_deserializer())), done);
    assert_eq!(plain(&any, Odd::Present(Odd::Present(absent()))), done);
    assert_eq!(plain(&any, Odd::Present(vec![1u8, 2].into_deserializer())), done);

    let mut broken = serde_json::Deserializer::from_str("[1, 2");
    let mut validator = Validator::new(&any);
    let walk = Walk::<NoDelegate>::new(&mut validator);
    assert!(walk.deserialize(Odd::Present(&mut broken)).is_err());
    assert_eq!(validator.status(), Status::Failed(serdeval::ValidationError::Decoder));
}

#[test]
fn any_looks_at_the_field_of_a_wrapper() {
    let any = serdeval::Any::shape();
    let done = (Ok(()), Status::Done);
    assert_eq!(plain(&any, Odd::Wrapped("field".into_deserializer())), done);
    assert_eq!(plain(&any, Odd::Wrapped(Odd::Present(Odd::Wrapped(owned_bytes())))), done);

    let mut broken = serde_json::Deserializer::from_str("{\"a\": }");
    let mut validator = Validator::new(&any);
    let walk = Walk::<NoDelegate>::new(&mut validator);
    assert!(walk.deserialize(Odd::Wrapped(&mut broken)).is_err());
    assert_eq!(validator.status(), Status::Failed(serdeval::ValidationError::Decoder));
}

#[test]
fn any_takes_a_variant_without_its_payload() {
    let any = serdeval::Any::shape();
    let variant = EnumAccessDeserializer::new(7u32.into_deserializer());
    assert_eq!(plain(&any, variant), (Ok(()), Status::Done));
    let variants = vec![7u32, 8]
        .into_iter()
        .map(|v| EnumAccessDeserializer::new(PlainU32::new(v)));
    assert_eq!(plain(&any, SeqDeserializer::new(variants)), (Ok(()), Status::Done));
}

type PlainU32 = serde::de::value::U32Deserializer<PlainError>;

#[test]
fn the_other_shapes_take_none_of_the_rarer_kinds() {
    let shapes = [
        (serdeval::Str::shape(), "a String"),
        (SeqOf::<serdeval::Any>::shape(), "a Seq"),
        (MapOf::<serdeval::Any, serdeval::Any>::shape(), "a Map"),
    ];
    for (shape, name) in shapes {
        let (result, status) = plain(&shape, absent());
        assert_eq!(result.unwrap_err().to_string(), format!("invalid type: Option value, expected {name}"));
        assert_eq!(status, MISMATCH);
        let (result, status) = plain(&shape, Odd::Present(1u8.into_deserializer()));
        assert_eq!(result.unwrap_err().to_string(), format!("invalid type: Option value, expected {name}"));
        assert_eq!(status, MISMATCH);
        let (result, status) = plain(&shape, Odd::Wrapped(1u8.into_deserializer()));
        assert_eq!(result.unwrap_err().to_string(), format!("invalid type: newtype struct, expected {name}"));
        assert_eq!(status, MISMATCH);
        let (result, status) = plain(&shape, owned_bytes());
        assert_eq!(result.unwrap_err().to_string(), format!("invalid type: byte array, expected {name}"));
        assert_eq!(status, MISMATCH);
        let (result, status) = plain(&shape, EnumAccessDeserializer::new(PlainU32::new(7)));
        assert_eq!(result.unwrap_err().to_string(), format!("invalid type: enum, expected {name}"));
        assert_eq!(status, MISMATCH);
        let (result, status) = plain(&shape, ().into_deserializer());
        assert_eq!(result.unwrap_err().to_string(), format!("invalid type: unit value, expected {name}"));
        assert_eq!(status, MISMATCH);
    }
}

#[test]
fn text_is_taken_in_every_way_it_is_handed_over() {
    let scalar = serdeval::Str::shape();
    assert_eq!(plain(&scalar, "view".into_deserializer()), (Ok(()), Status::Done));
    assert_eq!(plain(&scalar, BorrowedStrDeserializer::new("borrowed")), (Ok(()), Status::Done));
    assert_eq!(plain(&scalar, String::from("owned").into_deserializer()), (Ok(()), Status::Done));
    assert_eq!(plain(&scalar, 'c'.into_deserializer()), (Ok(()), Status::Done));
}

#[test]
fn bytes_are_no_text() {
    let scalar = serdeval::Str::shape();
    let bytes: &[u8] = b"ab";
    assert_eq!(plain(&scalar, BytesDeserializer::new(bytes)).1, MISMATCH);
    assert_eq!(plain(&scalar, BorrowedBytesDeserializer::new(bytes)).1, MISMATCH);
}

#[test]
fn any_takes_each_kind_that_serde_hands_over() {
    let any = serdeval::Any::shape();
    let done = (Ok(()), Status::Done);
    assert_eq!(plain(&any, true.into_deserializer()), done);
    assert_eq!(plain(&any, 1i8.into_deserializer()), done);
    assert_eq!(plain(&any, 1i16.into_deserializer()), done);
    assert_eq!(plain(&any, 1i32.into_deserializer()), done);
    assert_eq!(plain(&any, 1i64.into_deserializer()), done);
    assert_eq!(plain(&any, 1i128.into_deserializer()), done);
    assert_eq!(plain(&any, 1u8.into_deserializer()), done);
    assert_eq!(plain(&any, 1u16.into_deserializer()), done);
    assert_eq!(plain(&any, 1u32.into_deserializer()), done);
    assert_eq!(plain(&any, 1u64.into_deserializer()), done);
    assert_eq!(plain(&any, 1u128.into_deserializer()), done);
    assert_eq!(plain(&any, 1.5f32.into_deserializer()), done);
    assert_eq!(plain(&any, 1.5f64.into_deserializer()), done);
    assert_eq!(plain(&any, 'c'.into_deserializer()), done);
    assert_eq!(plain(&any, "view".into_deserializer()), done);
    assert_eq!(plain(&any, BorrowedStrDeserializer::new("borrowed")), done);
    assert_eq!(plain(&any, String::from("owned").into_deserializer()), done);
    let bytes: &[u8] = b"ab";
    assert_eq!(plain(&any, BytesDeserializer::new(bytes)), done);
    assert_eq!(plain(&any, BorrowedBytesDeserializer::new(bytes)), done);
    assert_eq!(plain(&any, owned_bytes()), done);
    assert_eq!(plain(&any, absent()), done);
    assert_eq!(plain(&any, ().into_deserializer()), done);
    assert_eq!(plain(&any, vec![vec![1u8], vec![]].into_deserializer()), done);
    let mut map = BTreeMap::new();
    map.insert("a", vec![1u8, 2]);
    map.insert("b", vec![]);
    assert_eq!(plain(&any, map.into_deserializer()), done);
}

#[test]
fn a_collection_of_serde_is_held_to_its_shape() {
    let shape = MapOf::<serdeval::Str, SeqOf<serdeval::Str>>::shape();
    let mut map = BTreeMap::new();
    map.insert("a", vec!["x", "y"]);
    map.insert("b", vec![]);
    assert_eq!(plain(&shape, map.into_deserializer()), (Ok(()), Status::Done));
    let mut map = BTreeMap::new();
    map.insert("a", vec![1u8]);
    assert_eq!(plain(&shape, map.into_deserializer()).1, MISMATCH);
    let mut map = BTreeMap::new();
    map.insert(1u8, vec!["x"]);
    assert_eq!(plain(&shape, map.into_deserializer()).1, MISMATCH);
}

#[test]
fn validating_twice_gives_the_same() {
    for json in ["[1]", "1", "{\"a\": [1, 2]}", "[1, 2", "\"x\""] {
        let first = serde_json::from_str::<Sequence<i32>>(json).map(drop).map_err(|e| e.to_string());
        let second = serde_json::from_str::<Sequence<i32>>(json).map(drop).map_err(|e| e.to_string());
        assert_eq!(first, second);
        let first = serde_json::from_str::<Any>(json).map(drop).map_err(|e| e.to_string());
        let second = serde_json::from_str::<Any>(json).map(drop).map_err(|e| e.to_string());
        assert_eq!(first, second);
    }
}
