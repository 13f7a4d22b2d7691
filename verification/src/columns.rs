//! Numbers on their way into and out of integer columns.

use crate::error::{answers, fault, first, ErrorCode, Fault, StoreError};
use crate::text::{cat, cat3};
use vstd::prelude::*;

verus! {

/// A number that no integer column can hold.
pub open spec fn i64_fault(value: u64, field: Seq<char>) -> Option<Fault> {
    if value > i64::MAX {
        fault(ErrorCode::InvalidPayload, field + " exceeds SQLite integer range"@)
    } else {
        None
    }
}

/// The column value for a number, or the error for one that is out of range.
pub fn to_i64(value: u64, field: &str) -> (result: Result<i64, StoreError>)
    ensures
        answers(result, i64_fault(value, field@)),
        result is Ok ==> result->Ok_0 as int == value as int,
{
    if value > i64::MAX as u64 {
        let message: String = cat(field, " exceeds SQLite integer range");
        return Err(StoreError::new(ErrorCode::InvalidPayload, message.as_str()));
    }
    Ok(value as i64)
}

/// An optional number that no integer column can hold.
pub open spec fn i64_option_fault(value: Option<u64>, field: Seq<char>) -> Option<Fault> {
    match value {
        None => None,
        Some(number) => i64_fault(number, field),
    }
}

/// An optional number as a column holds it.
pub open spec fn i64_option(value: Option<u64>) -> Option<i64> {
    match value {
        None => None,
        Some(number) => Some(number as i64),
    }
}

/// The column value for an optional number.
pub fn to_i64_option(value: Option<u64>, field: &str) -> (result: Result<Option<i64>, StoreError>)
    ensures
        answers(result, i64_option_fault(value, field@)),
        result is Ok ==> (result->Ok_0 is Some <==> value is Some),
        result is Ok && value is Some ==> result->Ok_0->Some_0 as int == value->Some_0 as int,
{
    match value {
        None => Ok(None),
        Some(number) => Ok(Some(to_i64(number, field)?)),
    }
}

/// A stored number that should not be negative and is.
pub open spec fn u64_fault(value: i64, field: Seq<char>) -> Option<Fault> {
    if value < 0 {
        fault(ErrorCode::StorageWriteFailed, "stored "@ + field + " is negative"@)
    } else {
        None
    }
}

/// The number in a column, or the error for a negative one.
pub fn to_u64(value: i64, field: &str) -> (result: Result<u64, StoreError>)
    ensures
        answers(result, u64_fault(value, field@)),
        result is Ok ==> result->Ok_0 == value,
{
    if value < 0 {
        let message: String = cat3("stored ", field, " is negative");
        return Err(StoreError::new(ErrorCode::StorageWriteFailed, message.as_str()));
    }
    Ok(value as u64)
}

/// An optional stored number that should not be negative and is.
pub open spec fn u64_option_fault(value: Option<i64>, field: Seq<char>) -> Option<Fault> {
    match value {
        None => None,
        Some(number) => u64_fault(number, field),
    }
}

/// The optional number in a column that passed its check.
pub open spec fn u64_option(value: Option<i64>) -> Option<u64> {
    match value {
        None => None,
        Some(number) => Some(number as u64),
    }
}

/// The number in an optional column, or the error for a negative one.
pub fn to_u64_option(value: Option<i64>, field: &str) -> (result: Result<Option<u64>, StoreError>)
    ensures
        answers(result, u64_option_fault(value, field@)),
        result is Ok ==> result->Ok_0 == u64_option(value),
{
    match value {
        None => Ok(None),
        Some(number) => Ok(Some(to_u64(number, field)?)),
    }
}

/// A negative stored number, under a code and message of the caller's own.
pub open spec fn unsigned_fault(value: i64, code: ErrorCode, message: Seq<char>) -> Option<Fault> {
    if value < 0 {
        fault(code, message)
    } else {
        None
    }
}

/// The number in a column, or the caller's own error for a negative one.
pub fn to_unsigned(value: i64, code: ErrorCode, message: &str) -> (result: Result<u64, StoreError>)
    ensures
        answers(result, unsigned_fault(value, code, message@)),
        result is Ok ==> result->Ok_0 == value,
{
    if value < 0 {
        return Err(StoreError::new(code, message));
    }
    Ok(value as u64)
}

/// A stored number outside a 32-bit range, under the caller's own message.
pub open spec fn narrow_fault(value: i64, code: ErrorCode, message: Seq<char>) -> Option<Fault> {
    if value < 0 || value > u32::MAX {
        fault(code, message)
    } else {
        None
    }
}

/// The 32-bit number in a column, or the caller's own error.
pub fn to_narrow(value: i64, code: ErrorCode, message: &str) -> (result: Result<u32, StoreError>)
    ensures
        answers(result, narrow_fault(value, code, message@)),
        result is Ok ==> result->Ok_0 == value,
{
    if value < 0 || value > u32::MAX as i64 {
        return Err(StoreError::new(code, message));
    }
    Ok(value as u32)
}

/// A stored number that is negative, or too large for 32 bits.
pub open spec fn u32_fault(value: i64, field: Seq<char>, message: Seq<char>) -> Option<Fault> {
    first(
        u64_fault(value, field),
        narrow_fault(value, ErrorCode::StorageWriteFailed, message),
    )
}

/// The 32-bit number in a column: a negative one is named by its field, one
/// that is too large by the message.
pub fn to_u32(value: i64, field: &str, message: &str) -> (result: Result<u32, StoreError>)
    ensures
        answers(result, u32_fault(value, field@, message@)),
        result is Ok ==> result->Ok_0 == value,
{
    let number: u64 = to_u64(value, field)?;
    to_narrow(value, ErrorCode::StorageWriteFailed, message)
}

/// The number in a column, with a negative one read as zero.
pub open spec fn or_zero(value: i64) -> u64 {
    if value < 0 {
        0
    } else {
        value as u64
    }
}

/// The number in a column, with a negative one read as zero.
pub fn to_u64_or_zero(value: i64) -> (number: u64)
    ensures
        number == or_zero(value),
{
    if value < 0 {
        0
    } else {
        value as u64
    }
}

/// A column takes the numbers up to the largest that it holds, and gives back those that are no
/// less than nothing, or also no more than thirty-two bits hold where that is asked. A number
/// that was taken is given back.
pub proof fn law_columns_hold_their_numbers(value: u64, stored: i64, code: ErrorCode, text: Seq<char>)
    ensures
        i64_fault(value, text) is None <==> value <= i64::MAX,
        i64_fault(value, text) is Some ==> i64_fault(value, text)->Some_0.code
            == ErrorCode::InvalidPayload,
        i64_option_fault(None, text) is None,
        i64_option_fault(Some(value), text) is None <==> value <= i64::MAX,
        u64_fault(stored, text) is None <==> 0 <= stored,
        u64_fault(stored, text) is Some ==> u64_fault(stored, text)->Some_0.code
            == ErrorCode::StorageWriteFailed,
        u64_option_fault(None, text) is None,
        u64_option_fault(Some(stored), text) is None <==> 0 <= stored,
        unsigned_fault(stored, code, text) is None <==> 0 <= stored,
        narrow_fault(stored, code, text) is None <==> 0 <= stored <= u32::MAX,
        u32_fault(stored, text, text) is None <==> 0 <= stored <= u32::MAX,
        0 <= stored ==> or_zero(stored) == stored,
        stored < 0 ==> or_zero(stored) == 0,
        value <= i64::MAX ==> u64_option(i64_option(Some(value))) == Some(value),
        u64_option(None) is None,
        i64_option(None) is None,
{
}

} // verus!
