//! Tool parameters given as numbers or as text: conversion to `usize` with
//! messages that say what was wrong.
use crate::text::{decimal, parse_u64_bytes, parse_u64_spec, push_decimal, push_str, string_from_chars};
use vstd::prelude::*;
use vstd::string::StringSliceAdditionalSpecFns;

verus! {

/// The message for a number above `usize::MAX`.
pub open spec fn too_large_message(v: u64) -> Seq<char> {
    "value "@ + decimal(v as nat) + " is too large (maximum is "@ + decimal(usize::MAX as nat) + ")"@
}

/// A `u64` as `usize`, when it fits.
pub fn from_u64(v: u64) -> (r: Result<usize, String>)
    ensures
        v <= usize::MAX ==> r == Ok::<usize, String>(v as usize),
        v > usize::MAX ==> (r matches Err(m) && m@ == too_large_message(v)),
{
    if v <= usize::MAX as u64 {
        Ok(v as usize)
    } else {
        let mut out: Vec<char> = Vec::new();
        push_str(&mut out, "value ");
        push_decimal(&mut out, v as u128);
        push_str(&mut out, " is too large (maximum is ");
        push_decimal(&mut out, usize::MAX as u128);
        push_str(&mut out, ")");
        Err(string_from_chars(out.as_slice()))
    }
}

/// An `i64` as `usize`: negative values are refused.
pub fn from_i64(v: i64) -> (r: Result<usize, String>)
    ensures
        v < 0 ==> (r matches Err(m) && m@ == "expected a non-negative integer, got -"@ + decimal(
            (-v) as nat,
        )),
        0 <= v <= usize::MAX ==> r == Ok::<usize, String>(v as usize),
        v >= 0 && v > usize::MAX ==> (r matches Err(m) && m@ == too_large_message(v as u64)),
{
    if v < 0 {
        let mut out: Vec<char> = Vec::new();
        push_str(&mut out, "expected a non-negative integer, got -");
        let mag: u128 = (-(v as i128)) as u128;
        push_decimal(&mut out, mag);
        Err(string_from_chars(out.as_slice()))
    } else {
        from_u64(v as u64)
    }
}

/// The `usize` that `str::parse` reads from a text: an optional `+` and
/// decimal digits, at most `usize::MAX`.
pub open spec fn usize_text(s: Seq<u8>) -> Option<int> {
    match parse_u64_spec(s) {
        Some(v) => if v <= usize::MAX {
            Some(v)
        } else {
            None
        },
        None => None,
    }
}

/// A text holding a non-negative integer as `usize`.
pub fn from_str(v: &str) -> (r: Result<usize, String>)
    ensures
        match usize_text(v.spec_bytes()) {
            Some(n) => r == Ok::<usize, String>(n as usize),
            None => r matches Err(m) && m@ == "invalid value \""@ + v@
                + "\": expected a non-negative integer"@,
        },
{
    let b = v.as_bytes();
    let parsed = parse_u64_bytes(b, 0, b.len());
    proof {
        assert(b@.subrange(0, b@.len() as int) == b@);
    }
    match parsed {
        Some(n) if n <= usize::MAX as u64 => Ok(n as usize),
        _ => {
            let mut out: Vec<char> = Vec::new();
            push_str(&mut out, "invalid value \"");
            push_str(&mut out, v);
            push_str(&mut out, "\": expected a non-negative integer");
            Err(string_from_chars(out.as_slice()))
        },
    }
}

} // verus!
