//! Wire-protocol constants and the declarative column metadata enums: the
//! scalar data types a column may carry, the on-disk encodings, and the
//! compression schemes a schema may name.

use vstd::prelude::*;

verus! {

/// Most-significant-bit mask used when testing a null-bitmap byte.
pub const FLAG: u8 = 0x80;

/// Status code: the operation succeeded.
pub const SUCCESS_STATUS: i32 = 200;

pub const STILL_EXECUTING_STATUS: i32 = 201;

pub const INVALID_HANDLE_STATUS: i32 = 202;

pub const INCOMPATIBLE_VERSION: i32 = 203;

pub const NODE_DELETE_FAILED_ERROR: i32 = 298;

pub const ALIAS_ALREADY_EXIST_ERROR: i32 = 299;

pub const PATH_ALREADY_EXIST_ERROR: i32 = 300;

pub const PATH_NOT_EXIST_ERROR: i32 = 301;

pub const UNSUPPORTED_FETCH_METADATA_OPERATION_ERROR: i32 = 302;

pub const METADATA_ERROR: i32 = 303;

pub const TIMESERIES_NOT_EXIST: i32 = 304;

pub const OUT_OF_TTLERROR: i32 = 305;

pub const CONFIG_ADJUSTER: i32 = 306;

pub const MERGE_ERROR: i32 = 307;

pub const SYSTEM_CHECK_ERROR: i32 = 308;

pub const SYNC_DEVICE_OWNER_CONFLICT_ERROR: i32 = 309;

pub const SYNC_CONNECTION_EXCEPTION: i32 = 310;

pub const STORAGE_GROUP_PROCESSOR_ERROR: i32 = 311;

pub const STORAGE_GROUP_ERROR: i32 = 312;

pub const STORAGE_ENGINE_ERROR: i32 = 313;

pub const TSFILE_PROCESSOR_ERROR: i32 = 314;

pub const PATH_ILLEGAL: i32 = 315;

pub const LOAD_FILE_ERROR: i32 = 316;

pub const STORAGE_GROUP_NOT_READY: i32 = 317;

pub const EXECUTE_STATEMENT_ERROR: i32 = 400;

pub const SQLPARSE_ERROR: i32 = 401;

pub const GENERATE_TIME_ZONE_ERROR: i32 = 402;

pub const SET_TIME_ZONE_ERROR: i32 = 403;

pub const NOT_STORAGE_GROUP_ERROR: i32 = 404;

pub const QUERY_NOT_ALLOWED: i32 = 405;

pub const AST_FORMAT_ERROR: i32 = 406;

pub const LOGICAL_OPERATOR_ERROR: i32 = 407;

pub const LOGICAL_OPTIMIZE_ERROR: i32 = 408;

pub const UNSUPPORTED_FILL_TYPE_ERROR: i32 = 409;

pub const PATH_ERRO_R: i32 = 410;

pub const QUERY_PROCESS_ERROR: i32 = 411;

pub const WRITE_PROCESS_ERROR: i32 = 412;

pub const WRITE_PROCESS_REJECT: i32 = 413;

pub const UNSUPPORTED_INDEX_FUNC_ERROR: i32 = 421;

pub const UNSUPPORTED_INDEX_TYPE_ERROR: i32 = 422;

pub const INTERNAL_SERVER_ERROR: i32 = 500;

pub const CLOSE_OPERATION_ERROR: i32 = 501;

pub const READ_ONLY_SYSTEM_ERROR: i32 = 502;

pub const DISK_SPACE_INSUFFICIENT_ERROR: i32 = 503;

pub const START_UP_ERROR: i32 = 504;

pub const SHUT_DOWN_ERROROR: i32 = 505;

/// Status code: an aggregate of per-item sub-statuses.
pub const MULTIPLE_ERROR: i32 = 506;

pub const WRONG_LOGIN_PASSWORD_ERROR: i32 = 600;

pub const NOT_LOGIN_ERROR: i32 = 601;

pub const NO_PERMISSION_ERROR: i32 = 602;

pub const UNINITIALIZED_AUTH_ERROR: i32 = 603;

pub const PARTITION_NOT_READY: i32 = 700;

pub const TIME_OUT: i32 = 701;

pub const NO_LEADER: i32 = 702;

pub const UNSUPPORTED_OPERATION: i32 = 703;

pub const NODE_READ_ONLY: i32 = 704;

pub const CONSISTENCY_FAILURE: i32 = 705;

pub const NO_CONNECTION: i32 = 706;

/// Status code: the server asks the client to redirect; treated as success.
pub const NEED_REDIRECTION: i32 = 707;

/// Scalar type of one column, as named by a measurement schema and as
/// tagged on the wire.
#[derive(Clone, Copy, Debug, Eq, Hash, Ord, PartialEq, PartialOrd, Structural)]
pub enum TSDataType {
    Boolean,
    Int32,
    Int64,
    Float,
    Double,
    Text,
}

/// On-disk encoding a schema may request for a column.
#[derive(Clone, Copy, Debug, Eq, Hash, Ord, PartialEq, PartialOrd, Structural)]
pub enum TSEncoding {
    Plain,
    PlainDictionary,
    RLE,
    Diff,
    Ts2diff,
    Bitmap,
    GorillaV1,
    Regular,
    Gorilla,
}

/// Compression scheme a schema may request for a column.
#[derive(Clone, Copy, Debug, Eq, Hash, Ord, PartialEq, PartialOrd, Structural)]
pub enum TSCompressionType {
    UNCOMPRESSED,
    SNAPPY,
    GZIP,
    LZO,
    SDT,
    PAA,
    PLA,
    LZ4,
}

/// Numeric code of a data type, both in RPC requests and as the leading
/// type-tag byte of an encoded value.
pub open spec fn spec_data_type_code(t: TSDataType) -> int {
    match t {
        TSDataType::Boolean => 0,
        TSDataType::Int32 => 1,
        TSDataType::Int64 => 2,
        TSDataType::Float => 3,
        TSDataType::Double => 4,
        TSDataType::Text => 5,
    }
}

/// Numeric code of an encoding in RPC requests.
pub open spec fn spec_encoding_code(e: TSEncoding) -> int {
    match e {
        TSEncoding::Plain => 0,
        TSEncoding::PlainDictionary => 1,
        TSEncoding::RLE => 2,
        TSEncoding::Diff => 3,
        TSEncoding::Ts2diff => 4,
        TSEncoding::Bitmap => 5,
        TSEncoding::GorillaV1 => 6,
        TSEncoding::Regular => 7,
        TSEncoding::Gorilla => 8,
    }
}

/// Numeric code of a compression scheme in RPC requests.
pub open spec fn spec_compression_code(c: TSCompressionType) -> int {
    match c {
        TSCompressionType::UNCOMPRESSED => 0,
        TSCompressionType::SNAPPY => 1,
        TSCompressionType::GZIP => 2,
        TSCompressionType::LZO => 3,
        TSCompressionType::SDT => 4,
        TSCompressionType::PAA => 5,
        TSCompressionType::PLA => 6,
        TSCompressionType::LZ4 => 7,
    }
}

/// The data type a server-side type name denotes, if any.
pub open spec fn spec_data_type_of_name(s: Seq<char>) -> Option<TSDataType> {
    if s == "BOOLEAN"@ {
        Some(TSDataType::Boolean)
    } else if s == "INT32"@ {
        Some(TSDataType::Int32)
    } else if s == "INT64"@ {
        Some(TSDataType::Int64)
    } else if s == "FLOAT"@ {
        Some(TSDataType::Float)
    } else if s == "DOUBLE"@ {
        Some(TSDataType::Double)
    } else if s == "TEXT"@ {
        Some(TSDataType::Text)
    } else {
        None
    }
}

impl TSDataType {
    /// The data type named by a server-side type string; `None` for an
    /// unknown name.
    pub fn from_name(t: &String) -> (r: Option<TSDataType>)
        ensures
            r == spec_data_type_of_name(t@),
    {
        if *t == "BOOLEAN".to_owned() {
            Some(TSDataType::Boolean)
        } else if *t == "INT32".to_owned() {
            Some(TSDataType::Int32)
        } else if *t == "INT64".to_owned() {
            Some(TSDataType::Int64)
        } else if *t == "FLOAT".to_owned() {
            Some(TSDataType::Float)
        } else if *t == "DOUBLE".to_owned() {
            Some(TSDataType::Double)
        } else if *t == "TEXT".to_owned() {
            Some(TSDataType::Text)
        } else {
            None
        }
    }

    /// The code sent in RPC requests for this data type.
    pub fn to_i32(&self) -> (r: i32)
        ensures
            r as int == spec_data_type_code(*self),
    {
        match self {
            TSDataType::Boolean => 0,
            TSDataType::Int32 => 1,
            TSDataType::Int64 => 2,
            TSDataType::Float => 3,
            TSDataType::Double => 4,
            TSDataType::Text => 5,
        }
    }

    /// The leading type-tag byte of this data type's wire form.
    pub fn tag_byte(&self) -> (r: u8)
        ensures
            r as int == spec_data_type_code(*self),
    {
        match self {
            TSDataType::Boolean => 0,
            TSDataType::Int32 => 1,
            TSDataType::Int64 => 2,
            TSDataType::Float => 3,
            TSDataType::Double => 4,
            TSDataType::Text => 5,
        }
    }
}

impl TSEncoding {
    /// The code sent in RPC requests for this encoding.
    pub fn to_i32(&self) -> (r: i32)
        ensures
            r as int == spec_encoding_code(*self),
    {
        match self {
            TSEncoding::Plain => 0,
            TSEncoding::PlainDictionary => 1,
            TSEncoding::RLE => 2,
            TSEncoding::Diff => 3,
            TSEncoding::Ts2diff => 4,
            TSEncoding::Bitmap => 5,
            TSEncoding::GorillaV1 => 6,
            TSEncoding::Regular => 7,
            TSEncoding::Gorilla => 8,
        }
    }
}

impl TSCompressionType {
    /// The code sent in RPC requests for this compression scheme.
    pub fn to_i32(&self) -> (r: i32)
        ensures
            r as int == spec_compression_code(*self),
    {
        match self {
            TSCompressionType::UNCOMPRESSED => 0,
            TSCompressionType::SNAPPY => 1,
            TSCompressionType::GZIP => 2,
            TSCompressionType::LZO => 3,
            TSCompressionType::SDT => 4,
            TSCompressionType::PAA => 5,
            TSCompressionType::PLA => 6,
            TSCompressionType::LZ4 => 7,
        }
    }
}

} // verus!
