//! The text of an HTTP response body.

use vstd::prelude::*;
use vstd::utf8::{decode_utf8, valid_utf8};

use crate::encoding::{str_from_utf8, utf8_fault_fits, DecodeError};

verus! {

/// The message in the first `bytes_read` bytes of the response buffer
/// `buf`, read as UTF-8 text.
pub fn response_message(buf: &[u8], bytes_read: usize) -> (message: Result<String, DecodeError>)
    requires
        bytes_read <= buf@.len(),
    ensures
        message is Ok <==> valid_utf8(buf@.take(bytes_read as int)),
        message matches Ok(text) ==> text@ == decode_utf8(buf@.take(bytes_read as int)),
        message matches Err(e) ==> (e matches DecodeError::Utf8(fault) && utf8_fault_fits(
            buf@.take(bytes_read as int),
            fault,
        )),
{
    match str_from_utf8(&buf[0..bytes_read]) {
        Ok(message) => Ok(message.to_owned()),
        Err(fault) => Err(DecodeError::Utf8(fault)),
    }
}

} // verus!
