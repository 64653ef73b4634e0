//! Client-facing core: the tagged-union scalar `Value` with its binary wire
//! codec, the declarative `MeasurementSchema`, decoded result rows, and the
//! error taxonomy shared by every operation.

pub mod direct;
pub mod perm;
pub mod remote;
pub mod tablet;

pub use tablet::{
    spec_col_view, spec_column_wire, spec_is_row_permutation, spec_non_decreasing,
    spec_stable_for, spec_tablet_wire, spec_timestamps_wire, spec_value_payload, Tablet,
};

use vstd::prelude::*;

use crate::bytes::{
    i32_to_u32, i64_to_u64, lemma_i32_u32_round_trip, lemma_i64_u64_round_trip,
    lemma_u32_be_round_trip, lemma_u64_be_round_trip, push_u32_be, push_u64_be, read_u32_be,
    read_u64_be, spec_i32_of_u32, spec_i64_of_u64, spec_u32_be, spec_u32_of_be, spec_u32_of_i32,
    spec_u64_be, spec_u64_of_be, spec_u64_of_i64, u32_to_i32, u64_to_i64,
};
use crate::protocal::{spec_data_type_code, TSCompressionType, TSDataType, TSEncoding};
use std::collections::BTreeMap;
use vstd::string::StringSliceAdditionalSpecFns;

verus! {

/// String-keyed property map attached to a schema or a server request.
pub type Dictionary = BTreeMap<String, String>;

/// Decode failure: the buffer ended before the announced payload, or a text
/// length was negative.
#[derive(Clone, Copy, Debug, Eq, PartialEq, Structural)]
pub enum CodecError {
    Truncated,
}

/// One typed failure per way an operation can go wrong, raised synchronously
/// at the call that caused it.
#[derive(Clone, Debug, Eq, PartialEq)]
pub enum ClientError {
    /// A row's value count does not equal the tablet's column count.
    SchemaMismatch,
    /// A `Null` value was handed to a write path that requires scalars.
    NullNotSupported,
    /// The session was already closed when the operation was attempted.
    SessionClosed,
    /// The server answered with a non-success status code.
    ProtocolStatus { code: i32, message: String },
}

/// Scalar exchanged with the server. Floating-point columns are carried as
/// their IEEE-754 bit patterns, text as its UTF-8 bytes; both keep the wire
/// form byte-exact.
#[derive(Clone, Debug, PartialEq)]
pub enum Value {
    Bool(bool),
    Int32(i32),
    Int64(i64),
    Float(u32),
    Double(u64),
    Text(Vec<u8>),
    Null,
}

/// Mathematical model of a `Value`.
#[verifier::ext_equal]
pub ghost enum ValueV {
    Bool(bool),
    Int32(i32),
    Int64(i64),
    Float(u32),
    Double(u64),
    Text(Seq<u8>),
    Null,
}

impl View for Value {
    type V = ValueV;

    open spec fn view(&self) -> ValueV {
        match self {
            Value::Bool(b) => ValueV::Bool(*b),
            Value::Int32(x) => ValueV::Int32(*x),
            Value::Int64(x) => ValueV::Int64(*x),
            Value::Float(bits) => ValueV::Float(*bits),
            Value::Double(bits) => ValueV::Double(*bits),
            Value::Text(t) => ValueV::Text(t@),
            Value::Null => ValueV::Null,
        }
    }
}

/// A value is well formed when its text payload fits the signed 32-bit
/// length field of the wire form.
pub open spec fn spec_value_wf(v: ValueV) -> bool {
    match v {
        ValueV::Text(p) => p.len() <= 0x7fff_ffff,
        _ => true,
    }
}

/// The wire form of a value: `[tag][payload]`, numerics big-endian, text
/// length-prefixed; `Null` has no wire form of its own.
pub open spec fn spec_encode(v: ValueV) -> Seq<u8> {
    match v {
        ValueV::Bool(b) => seq![0u8, if b { 1u8 } else { 0u8 }],
        ValueV::Int32(x) => seq![1u8] + spec_u32_be(spec_u32_of_i32(x)),
        ValueV::Int64(x) => seq![2u8] + spec_u64_be(spec_u64_of_i64(x)),
        ValueV::Float(bits) => seq![3u8] + spec_u32_be(bits),
        ValueV::Double(bits) => seq![4u8] + spec_u64_be(bits),
        ValueV::Text(p) => seq![5u8] + spec_u32_be(p.len() as u32) + p,
        ValueV::Null => Seq::empty(),
    }
}

/// Decode one value from the front of `s`: the result and how many bytes it
/// consumed. An unrecognized tag is the server's "no value" convention and
/// decodes to `Null`, consuming the tag alone; a missing or short payload,
/// or a negative text length, is `Truncated`.
pub open spec fn spec_decode(s: Seq<u8>) -> Result<(ValueV, int), CodecError> {
    if s.len() < 1 {
        Err(CodecError::Truncated)
    } else if s[0] == 0 {
        if s.len() < 2 {
            Err(CodecError::Truncated)
        } else {
            Ok((ValueV::Bool(s[1] == 1), 2))
        }
    } else if s[0] == 1 {
        if s.len() < 5 {
            Err(CodecError::Truncated)
        } else {
            Ok((ValueV::Int32(spec_i32_of_u32(spec_u32_of_be(s.subrange(1, 5)))), 5))
        }
    } else if s[0] == 2 {
        if s.len() < 9 {
            Err(CodecError::Truncated)
        } else {
            Ok((ValueV::Int64(spec_i64_of_u64(spec_u64_of_be(s.subrange(1, 9)))), 9))
        }
    } else if s[0] == 3 {
        if s.len() < 5 {
            Err(CodecError::Truncated)
        } else {
            Ok((ValueV::Float(spec_u32_of_be(s.subrange(1, 5))), 5))
        }
    } else if s[0] == 4 {
        if s.len() < 9 {
            Err(CodecError::Truncated)
        } else {
            Ok((ValueV::Double(spec_u64_of_be(s.subrange(1, 9))), 9))
        }
    } else if s[0] == 5 {
        if s.len() < 5 {
            Err(CodecError::Truncated)
        } else {
            let n = spec_i32_of_u32(spec_u32_of_be(s.subrange(1, 5)));
            if n < 0 {
                Err(CodecError::Truncated)
            } else if s.len() < 5 + n {
                Err(CodecError::Truncated)
            } else {
                Ok((ValueV::Text(s.subrange(5, 5 + n)), 5 + n))
            }
        }
    } else {
        Ok((ValueV::Null, 1))
    }
}

/// Decoding the wire form of any non-null value yields the value back and
/// consumes the whole wire form.
pub proof fn lemma_codec_round_trip(v: ValueV)
    requires
        !(v is Null),
        spec_value_wf(v),
    ensures
        spec_decode(spec_encode(v)) == Ok::<(ValueV, int), CodecError>(
            (v, spec_encode(v).len() as int),
        ),
{
    let s = spec_encode(v);
    match v {
        ValueV::Bool(b) => {
            assert(spec_decode(s) == Ok::<(ValueV, int), CodecError>((ValueV::Bool(b), 2int)));
        },
        ValueV::Int32(x) => {
            assert(s.subrange(1, 5) =~= spec_u32_be(spec_u32_of_i32(x)));
            lemma_u32_be_round_trip(spec_u32_of_i32(x));
            lemma_i32_u32_round_trip(x);
        },
        ValueV::Int64(x) => {
            assert(s.subrange(1, 9) =~= spec_u64_be(spec_u64_of_i64(x)));
            lemma_u64_be_round_trip(spec_u64_of_i64(x));
            lemma_i64_u64_round_trip(x);
        },
        ValueV::Float(bits) => {
            assert(s.subrange(1, 5) =~= spec_u32_be(bits));
            lemma_u32_be_round_trip(bits);
        },
        ValueV::Double(bits) => {
            assert(s.subrange(1, 9) =~= spec_u64_be(bits));
            lemma_u64_be_round_trip(bits);
        },
        ValueV::Text(p) => {
            let len_word = p.len() as u32;
            assert(s.subrange(1, 5) =~= spec_u32_be(len_word));
            lemma_u32_be_round_trip(len_word);
            assert(spec_i32_of_u32(len_word) == p.len() as int);
            assert(s.subrange(5, 5 + p.len() as int) =~= p);
        },
        ValueV::Null => {},
    }
}

impl Value {
    /// Whether this value is `Null`.
    pub fn is_null(&self) -> (r: bool)
        ensures
            r == (self@ is Null),
    {
        matches!(self, Value::Null)
    }

    /// Whether the value fits the wire format's length fields.
    pub open spec fn wf(&self) -> bool {
        spec_value_wf(self@)
    }

    /// A text value carrying the UTF-8 bytes of `s`.
    pub fn text_from_str(s: &str) -> (r: Value)
        ensures
            r@ == ValueV::Text(s.spec_bytes()),
    {
        let bytes: Vec<u8> = vstd::slice::slice_to_vec(s.as_bytes());
        Value::Text(bytes)
    }

    /// An equal copy of this value.
    pub fn duplicate(&self) -> (r: Value)
        ensures
            r@ == self@,
    {
        match self {
            Value::Bool(b) => Value::Bool(*b),
            Value::Int32(x) => Value::Int32(*x),
            Value::Int64(x) => Value::Int64(*x),
            Value::Float(bits) => Value::Float(*bits),
            Value::Double(bits) => Value::Double(*bits),
            Value::Text(t) => {
                let copy: Vec<u8> = t.clone();
                proof {
                    assert(copy@ =~= t@);
                }
                Value::Text(copy)
            },
            Value::Null => Value::Null,
        }
    }

    /// Serialize this value to its wire form. `Null` encodes to an empty
    /// buffer: its absence travels out-of-band in the null bitmap.
    pub fn encode(&self) -> (r: Vec<u8>)
        requires
            self.wf(),
        ensures
            r@ == spec_encode(self@),
    {
        let mut buf: Vec<u8> = Vec::new();
        match self {
            Value::Bool(b) => {
                buf.push(0u8);
                buf.push(if *b {
                    1u8
                } else {
                    0u8
                });
                proof {
                    assert(buf@ =~= spec_encode(self@));
                }
            },
            Value::Int32(x) => {
                buf.push(1u8);
                let word = i32_to_u32(*x);
                push_u32_be(&mut buf, word);
                proof {
                    assert(buf@ =~= spec_encode(self@));
                }
            },
            Value::Int64(x) => {
                buf.push(2u8);
                let word = i64_to_u64(*x);
                push_u64_be(&mut buf, word);
                proof {
                    assert(buf@ =~= spec_encode(self@));
                }
            },
            Value::Float(bits) => {
                buf.push(3u8);
                push_u32_be(&mut buf, *bits);
                proof {
                    assert(buf@ =~= spec_encode(self@));
                }
            },
            Value::Double(bits) => {
                buf.push(4u8);
                push_u64_be(&mut buf, *bits);
                proof {
                    assert(buf@ =~= spec_encode(self@));
                }
            },
            Value::Text(t) => {
                buf.push(5u8);
                push_u32_be(&mut buf, t.len() as u32);
                buf.extend_from_slice(t.as_slice());
                proof {
                    assert(buf@ =~= spec_encode(self@));
                }
            },
            Value::Null => {
                proof {
                    assert(buf@ =~= spec_encode(self@));
                }
            },
        }
        buf
    }

    /// Decode one value from the front of `bytes`, returning it with the
    /// number of bytes consumed, exactly as `spec_decode` describes.
    pub fn decode(bytes: &Vec<u8>) -> (r: Result<(Value, usize), CodecError>)
        ensures
            match r {
                Ok((v, n)) => spec_decode(bytes@) == Ok::<(ValueV, int), CodecError>(
                    (v@, n as int),
                ) && v.wf() && n <= bytes@.len(),
                Err(e) => spec_decode(bytes@) == Err::<(ValueV, int), CodecError>(e),
            },
    {
        if bytes.len() == 0 {
            return Err(CodecError::Truncated);
        }
        let tag = bytes[0];
        if tag == 0 {
            if bytes.len() < 2 {
                return Err(CodecError::Truncated);
            }
            Ok((Value::Bool(bytes[1] == 1), 2))
        } else if tag == 1 {
            if bytes.len() < 5 {
                return Err(CodecError::Truncated);
            }
            let word = read_u32_be(bytes, 1);
            Ok((Value::Int32(u32_to_i32(word)), 5))
        } else if tag == 2 {
            if bytes.len() < 9 {
                return Err(CodecError::Truncated);
            }
            let word = read_u64_be(bytes, 1);
            Ok((Value::Int64(u64_to_i64(word)), 9))
        } else if tag == 3 {
            if bytes.len() < 5 {
                return Err(CodecError::Truncated);
            }
            Ok((Value::Float(read_u32_be(bytes, 1)), 5))
        } else if tag == 4 {
            if bytes.len() < 9 {
                return Err(CodecError::Truncated);
            }
            Ok((Value::Double(read_u64_be(bytes, 1)), 9))
        } else if tag == 5 {
            if bytes.len() < 5 {
                return Err(CodecError::Truncated);
            }
            let len_signed = u32_to_i32(read_u32_be(bytes, 1));
            if len_signed < 0 {
                return Err(CodecError::Truncated);
            }
            let n = len_signed as usize;
            if bytes.len() - 5 < n {
                return Err(CodecError::Truncated);
            }
            let total: usize = bytes.len();
            let mut payload: Vec<u8> = Vec::new();
            let mut i: usize = 0;
            while i < n
                invariant
                    i <= n,
                    5 + n <= total,
                    total == bytes@.len(),
                    payload@ =~= bytes@.subrange(5, 5 + i as int),
                decreases n - i,
            {
                payload.push(bytes[5 + i]);
                i = i + 1;
            }
            proof {
                assert(payload@ =~= bytes@.subrange(5, 5 + n as int));
            }
            Ok((Value::Text(payload), 5 + n))
        } else {
            Ok((Value::Null, 1))
        }
    }
}

/// Relies on `BTreeMap::clone`: the copy holds exactly the entries of the
/// original map.
#[verifier::external_body]
fn clone_dictionary(d: &Dictionary) -> (r: Dictionary)
    ensures
        r@ == d@,
{
    d.clone()
}

/// Declarative description of one measurement column: its name, scalar
/// type, requested encoding and compression, and free-form properties.
#[derive(Clone, Debug, Eq, Hash, Ord, PartialEq, PartialOrd)]
pub struct MeasurementSchema {
    pub measurement: String,
    pub data_type: TSDataType,
    pub encoding: TSEncoding,
    pub compressor: TSCompressionType,
    pub properties: Option<Dictionary>,
}

/// Two schema descriptions carry the same declaration: equal names, types,
/// encodings, compressors and property entries.
pub open spec fn spec_schema_like(a: MeasurementSchema, b: MeasurementSchema) -> bool {
    &&& a.measurement@ == b.measurement@
    &&& a.data_type == b.data_type
    &&& a.encoding == b.encoding
    &&& a.compressor == b.compressor
    &&& match (a.properties, b.properties) {
        (Some(x), Some(y)) => x@ == y@,
        (None, None) => true,
        _ => false,
    }
}

impl MeasurementSchema {
    /// Bundle the five declarative pieces of a column description.
    pub fn new(
        measurement: String,
        data_type: TSDataType,
        encoding: TSEncoding,
        compressor: TSCompressionType,
        properties: Option<Dictionary>,
    ) -> (r: Self)
        ensures
            r.measurement@ == measurement@,
            r.data_type == data_type,
            r.encoding == encoding,
            r.compressor == compressor,
            r.properties == properties,
    {
        Self { measurement, data_type, encoding, compressor, properties }
    }

    /// A copy carrying the same declaration.
    pub fn duplicate(&self) -> (r: Self)
        ensures
            spec_schema_like(r, *self),
    {
        let properties = match &self.properties {
            Some(d) => Some(clone_dictionary(d)),
            None => None,
        };
        Self {
            measurement: self.measurement.clone(),
            data_type: self.data_type,
            encoding: self.encoding,
            compressor: self.compressor,
            properties,
        }
    }
}

/// One decoded result row: its timestamp and the display-ordered values.
#[derive(Clone, Debug)]
pub struct RowRecord {
    pub timestamp: i64,
    pub values: Vec<Value>,
}

/// Caller-visible face of a query result: its column metadata. Rows are
/// drawn through the concrete cursor type, which also reports exhaustion.
pub trait DataSet {
    fn get_column_names(&self) -> Vec<String>;

    fn get_data_types(&self) -> Vec<TSDataType>;

    fn is_ignore_timestamp(&self) -> bool;
}

/// The numeric wire tag of each data type fits in one byte and matches the
/// codec's leading tag.
pub open spec fn spec_tag_of(t: TSDataType) -> u8 {
    spec_data_type_code(t) as u8
}

/// One row's value bytes for the record write operations: each value's
/// full wire form, tag included, concatenated in order.
pub open spec fn spec_row_wire(vals: Seq<ValueV>) -> Seq<u8>
    decreases vals.len(),
{
    if vals.len() == 0 {
        Seq::empty()
    } else {
        spec_row_wire(vals.drop_last()) + spec_encode(vals.last())
    }
}

/// Serialize one row of values for a record write: the concatenation of
/// their wire forms, in order; `Null` values contribute nothing.
pub fn encode_row_values(values: &Vec<Value>) -> (r: Vec<u8>)
    requires
        forall|i: int| 0 <= i < values@.len() ==> spec_value_wf(#[trigger] values@[i]@),
    ensures
        r@ == spec_row_wire(spec_col_view(values@)),
{
    let mut buf: Vec<u8> = Vec::new();
    let n = values.len();
    let ghost vals = spec_col_view(values@);
    let mut i: usize = 0;
    while i < n
        invariant
            i <= n,
            n == values@.len(),
            vals == spec_col_view(values@),
            forall|j: int| 0 <= j < n ==> spec_value_wf(#[trigger] values@[j]@),
            buf@ == spec_row_wire(vals.take(i as int)),
        decreases n - i,
    {
        let mut value_data = values[i].encode();
        buf.append(&mut value_data);
        proof {
            assert(vals.take(i + 1).drop_last() =~= vals.take(i as int));
            assert(vals.take(i + 1).last() == vals[i as int]);
            assert(vals[i as int] == values@[i as int]@);
        }
        i = i + 1;
    }
    proof {
        assert(vals.take(n as int) =~= vals);
    }
    buf
}

/// The stream a column's value buffer stands for once the type tag the
/// server omits is put back in front of its unread part.
pub open spec fn spec_retagged(ty: TSDataType, buf: Seq<u8>, pos: int) -> Seq<u8> {
    seq![spec_tag_of(ty)] + buf.subrange(pos, buf.len() as int)
}

/// Decode the value stored at `pos` of a column value buffer whose type
/// tags were stripped on the wire: conceptually, reinsert the column's tag
/// and run the codec. Returns the value and the position just past it.
pub fn decode_typed(buf: &Vec<u8>, pos: usize, ty: TSDataType) -> (r: Result<
    (Value, usize),
    CodecError,
>)
    requires
        pos <= buf@.len(),
    ensures
        match r {
            Ok((v, newpos)) => {
                &&& pos <= newpos <= buf@.len()
                &&& spec_decode(spec_retagged(ty, buf@, pos as int)) == Ok::<
                    (ValueV, int),
                    CodecError,
                >((v@, 1 + newpos - pos))
                &&& v.wf()
            },
            Err(e) => spec_decode(spec_retagged(ty, buf@, pos as int)) == Err::<
                (ValueV, int),
                CodecError,
            >(e),
        },
{
    let total: usize = buf.len();
    let ghost tagged = spec_retagged(ty, buf@, pos as int);
    proof {
        assert(tagged[0] == spec_tag_of(ty));
        assert(tagged.len() == 1 + buf@.len() - pos);
    }
    match ty {
        TSDataType::Boolean => {
            if total - pos < 1 {
                return Err(CodecError::Truncated);
            }
            proof {
                assert(tagged[1] == buf@[pos as int]);
            }
            Ok((Value::Bool(buf[pos] == 1), pos + 1))
        },
        TSDataType::Int32 => {
            if total - pos < 4 {
                return Err(CodecError::Truncated);
            }
            let word = read_u32_be(buf, pos);
            proof {
                assert(tagged.subrange(1, 5) =~= buf@.subrange(pos as int, pos as int + 4));
            }
            Ok((Value::Int32(u32_to_i32(word)), pos + 4))
        },
        TSDataType::Int64 => {
            if total - pos < 8 {
                return Err(CodecError::Truncated);
            }
            let word = read_u64_be(buf, pos);
            proof {
                assert(tagged.subrange(1, 9) =~= buf@.subrange(pos as int, pos as int + 8));
            }
            Ok((Value::Int64(u64_to_i64(word)), pos + 8))
        },
        TSDataType::Float => {
            if total - pos < 4 {
                return Err(CodecError::Truncated);
            }
            let word = read_u32_be(buf, pos);
            proof {
                assert(tagged.subrange(1, 5) =~= buf@.subrange(pos as int, pos as int + 4));
            }
            Ok((Value::Float(word), pos + 4))
        },
        TSDataType::Double => {
            if total - pos < 8 {
                return Err(CodecError::Truncated);
            }
            let word = read_u64_be(buf, pos);
            proof {
                assert(tagged.subrange(1, 9) =~= buf@.subrange(pos as int, pos as int + 8));
            }
            Ok((Value::Double(word), pos + 8))
        },
        TSDataType::Text => {
            if total - pos < 4 {
                return Err(CodecError::Truncated);
            }
            let word = read_u32_be(buf, pos);
            proof {
                assert(tagged.subrange(1, 5) =~= buf@.subrange(pos as int, pos as int + 4));
            }
            let len_signed = u32_to_i32(word);
            if len_signed < 0 {
                return Err(CodecError::Truncated);
            }
            let n = len_signed as usize;
            if total - (pos + 4) < n {
                return Err(CodecError::Truncated);
            }
            let mut payload: Vec<u8> = Vec::new();
            let mut i: usize = 0;
            while i < n
                invariant
                    i <= n,
                    pos + 4 + n <= total,
                    total == buf@.len(),
                    payload@ =~= buf@.subrange(pos + 4, pos + 4 + i as int),
                decreases n - i,
            {
                payload.push(buf[pos + 4 + i]);
                i = i + 1;
            }
            proof {
                assert(tagged.subrange(5, 5 + n as int) =~= buf@.subrange(
                    pos + 4,
                    pos + 4 + n as int,
                ));
                assert(payload@ =~= tagged.subrange(5, 5 + n as int));
            }
            Ok((Value::Text(payload), pos + 4 + n))
        },
    }
}

} // verus!

