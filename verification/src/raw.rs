//! Plain column values, as one read hands them back: each row of a read
//! is a `Vec<RawValue>` in the column order of its statement.

use vstd::prelude::*;

verus! {

/// One cell of a result row. Cells that cannot be carried as a plain
/// value (floating-point cells of a column the statements do not cast)
/// come back as `Other` and count as absent.
#[derive(Debug)]
pub enum RawValue {
    Null,
    Int(i64),
    Text(String),
    Blob(Vec<u8>),
    Other,
}

/// The text of a cell, if it holds text.
pub open spec fn opt_text(v: RawValue) -> Option<String> {
    if v is Text {
        Some(v->Text_0)
    } else {
        None
    }
}

/// The integer of a cell, if it holds an integer.
pub open spec fn opt_int(v: RawValue) -> Option<i64> {
    if v is Int {
        Some(v->Int_0)
    } else {
        None
    }
}

/// The binary payload of a cell, if it holds one.
pub open spec fn opt_blob(v: RawValue) -> Option<Vec<u8>> {
    if v is Blob {
        Some(v->Blob_0)
    } else {
        None
    }
}

/// The integer of a cell, with an absent value falling back to zero.
pub open spec fn int_or_zero(v: RawValue) -> i64 {
    if v is Int {
        v->Int_0
    } else {
        0
    }
}

/// `v` clamped into `0 ..= hi`.
pub open spec fn spec_clamp(v: i64, hi: u32) -> u32 {
    if v < 0 {
        0u32
    } else if v > hi {
        hi
    } else {
        v as u32
    }
}

/// Clamps a raw integer into `0 ..= hi`.
pub fn clamp_to(v: i64, hi: u32) -> (r: u32)
    ensures
        r == spec_clamp(v, hi),
        r <= hi,
{
    if v < 0 {
        0
    } else if v > hi as i64 {
        hi
    } else {
        v as u32
    }
}

/// The text of a cell, if it holds text.
pub fn take_text(v: RawValue) -> (r: Option<String>)
    ensures
        r == opt_text(v),
{
    match v {
        RawValue::Text(s) => Some(s),
        _ => None,
    }
}

/// The integer of a cell, if it holds an integer.
pub fn take_int(v: RawValue) -> (r: Option<i64>)
    ensures
        r == opt_int(v),
{
    match v {
        RawValue::Int(n) => Some(n),
        _ => None,
    }
}

/// The binary payload of a cell, if it holds one.
pub fn take_blob(v: RawValue) -> (r: Option<Vec<u8>>)
    ensures
        r == opt_blob(v),
{
    match v {
        RawValue::Blob(b) => Some(b),
        _ => None,
    }
}

/// The integer of a cell, with an absent value falling back to zero.
pub fn take_int_or_zero(v: RawValue) -> (r: i64)
    ensures
        r == int_or_zero(v),
{
    match v {
        RawValue::Int(n) => n,
        _ => 0,
    }
}

/// The elements of `v` in reverse order.
pub fn reversed<T>(v: Vec<T>) -> (r: Vec<T>)
    ensures
        r@ == v@.reverse(),
{
    let ghost orig = v@;
    let mut rest = v;
    let mut r: Vec<T> = Vec::new();
    proof {
        assert(orig.take(orig.len() as int) =~= orig);
        assert(orig.skip(orig.len() as int).reverse() =~= Seq::<T>::empty());
    }
    while rest.len() > 0
        invariant
            rest@.len() <= orig.len(),
            rest@ == orig.take(rest@.len() as int),
            r@ == orig.skip(rest@.len() as int).reverse(),
        decreases rest.len(),
    {
        let ghost n: int = rest@.len() as int;
        let x = rest.pop().unwrap();
        r.push(x);
        proof {
            assert(rest@ =~= orig.take(n - 1));
            assert(r@ =~= orig.skip(n - 1).reverse());
        }
    }
    proof {
        assert(orig.skip(0) =~= orig);
        assert(r@ == orig.reverse());
    }
    r
}

} // verus!
