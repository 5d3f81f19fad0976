//! What this crate takes on trust from code it does not verify.
//!
//! Nothing here is proved. Each contract states what the outside function
//! is documented to do, and every proof that uses it rests on that.

use binrw::BinRead;
use std::io::Cursor;
use std::string::FromUtf8Error;
use vstd::prelude::*;
use vstd::utf8::{decode_utf8, valid_utf8};
use crate::format::{u32_in, Endian};

verus! {

/// The error of `binrw`, carried through unread.
#[verifier::external_type_specification]
#[verifier::external_body]
pub struct ExBinrwError(binrw::Error);

/// The error of `String::from_utf8`, carried through unread.
#[verifier::external_type_specification]
#[verifier::external_body]
pub struct ExFromUtf8Error(FromUtf8Error);

/// `String::from_utf8` accepts exactly the byte vectors that are valid
/// UTF-8, and the string it returns holds the characters they encode.
pub assume_specification[ String::from_utf8 ](vec: Vec<u8>) -> (r: Result<String, FromUtf8Error>)
    ensures
        r is Ok <==> valid_utf8(vec@),
        r matches Ok(s) ==> s@ == decode_utf8(vec@),
;

/// Reads a `u32` with `binrw`, by `BinRead::read_options` on a cursor over
/// `bytes`. The read succeeds where `bytes` holds four bytes or more, and
/// then gives the integer that the first four encode in the byte order
/// asked for.
#[verifier::external_body]
pub(crate) fn read_u32(bytes: &[u8], endian: Endian) -> (r: Result<u32, binrw::Error>)
    ensures
        r is Ok <==> bytes@.len() >= 4,
        r matches Ok(v) ==> v == u32_in(bytes@.subrange(0, 4), endian),
{
    let order = match endian {
        Endian::Big => binrw::Endian::Big,
        Endian::Little => binrw::Endian::Little,
    };
    u32::read_options(&mut Cursor::new(bytes), order, ())
}

} // verus!
