//! The library's error kinds, and the mapping of zlib's status codes onto them.

use vstd::prelude::*;

verus! {

/// Why building an index failed. Every error is fatal to the whole pass.
#[derive(Debug, PartialEq, Eq)]
pub enum ZtocError {
    /// The upstream reader failed.
    Io(String),
    /// The upstream reader ended before the gzip stream did.
    UnexpectedEof,
    /// The inflater reported a fatal status; carries its message.
    Inflate(String),
    /// The inflater asked for a preset dictionary, which gzip never needs.
    NeedDict,
    /// Malformed or unrepresentable data (bad UTF-8, bad header field, an
    /// unsupported entry type, an out-of-range time).
    InvalidData(String),
    /// The stream ended without a single checkpoint.
    EmptyIndex,
}

/// zlib's `Z_OK`.
pub const Z_OK: i32 = 0;
/// zlib's `Z_STREAM_END`: the gzip member is fully decoded.
pub const Z_STREAM_END: i32 = 1;
/// zlib's `Z_NEED_DICT`.
pub const Z_NEED_DICT: i32 = 2;
/// zlib's `Z_STREAM_ERROR`.
pub const Z_STREAM_ERROR: i32 = -2;
/// zlib's `Z_DATA_ERROR`.
pub const Z_DATA_ERROR: i32 = -3;
/// zlib's `Z_MEM_ERROR`.
pub const Z_MEM_ERROR: i32 = -4;
/// zlib's `Z_BUF_ERROR`: no progress was possible.
pub const Z_BUF_ERROR: i32 = -5;
/// zlib's `Z_VERSION_ERROR`.
pub const Z_VERSION_ERROR: i32 = -6;

/// The message used for a failing zlib status when zlib gave none.
pub open spec fn default_zlib_message(ret: i32) -> Seq<char> {
    if ret == Z_STREAM_ERROR {
        "zlib stream error"@
    } else if ret == Z_DATA_ERROR {
        "zlib data error"@
    } else if ret == Z_MEM_ERROR {
        "zlib mem error"@
    } else if ret == Z_BUF_ERROR {
        "zlib buf error"@
    } else if ret == Z_VERSION_ERROR {
        "zlib version error"@
    } else {
        "zlib unknown error"@
    }
}

/// The message of an inflate failure: zlib's own when it gave one.
pub open spec fn zlib_message(ret: i32, msg: Option<String>) -> Seq<char> {
    match msg {
        Some(m) => m@,
        None => default_zlib_message(ret),
    }
}

/// Turns a zlib status code into a result: negative codes are failures that
/// carry zlib's message, or a fixed one naming the code.
pub fn check_error(ret: i32, msg: Option<String>) -> (r: Result<i32, ZtocError>)
    ensures
        ret >= 0 ==> r == Ok::<i32, ZtocError>(ret),
        ret < 0 ==> (r matches Err(ZtocError::Inflate(m)) && m@ == zlib_message(ret, msg)),
{
    if ret >= 0 {
        return Ok(ret);
    }
    let m = match msg {
        Some(m) => m,
        None => {
            if ret == Z_STREAM_ERROR {
                String::from_str("zlib stream error")
            } else if ret == Z_DATA_ERROR {
                String::from_str("zlib data error")
            } else if ret == Z_MEM_ERROR {
                String::from_str("zlib mem error")
            } else if ret == Z_BUF_ERROR {
                String::from_str("zlib buf error")
            } else if ret == Z_VERSION_ERROR {
                String::from_str("zlib version error")
            } else {
                String::from_str("zlib unknown error")
            }
        },
    };
    Err(ZtocError::Inflate(m))
}

} // verus!
