//! The bidirectional value coercion of the relational bridge: a total,
//! deterministic mapping from the dynamic wire shape into the store's
//! five-variant model, and the always-total inverse mapping.
//!
//! Policy for arrays (deliberate, matching the boundary convention): an
//! array whose elements are all numeric is taken to be a binary payload;
//! each element must then be an integral value in [0, 255], and any other
//! element is rejected rather than falling back to text. Arrays holding
//! any non-numeric element, and all objects, are preserved as their
//! canonical serialized text, which the unverified host shell produces.

use vstd::prelude::*;
use vstd::string::*;

use crate::error::{Error, ErrorKind};
use crate::value::{wf_num, DynValue, Num, SqlVal};

verus! {

/// Outcome of coercing one dynamic value: either a finished store value,
/// or the instruction to serialize the value to its canonical text and
/// store that text.
#[derive(Debug, PartialEq)]
pub enum Coerced {
    Value(SqlVal),
    CanonicalText,
}

/// The byte a binary64 bit pattern stands for, when its value is integral
/// and within [0, 255]; `None` otherwise. The definition reads the IEEE 754
/// fields directly: a zero is byte 0; any other negative, subnormal,
/// infinite, or not-a-number pattern is rejected; a normal value with
/// unbiased exponent `k` in [0, 7] is integral exactly when the low
/// `52 - k` mantissa bits are clear, and then equals the remaining
/// significand shifted into place.
pub open spec fn real_byte_of(bits: u64) -> Option<u8> {
    if bits & 0x7FFF_FFFF_FFFF_FFFF == 0 {
        Some(0u8)
    } else if bits >> 63 == 1 {
        None
    } else {
        let e = (bits >> 52) & 0x7FF;
        let f = bits & 0xF_FFFF_FFFF_FFFF;
        if e < 1023 || e > 1030 {
            None
        } else {
            let shift = ((52 - (e - 1023)) as u64);
            if f & (((1u64 << shift) - 1) as u64) == 0 {
                Some(((((1u64 << 52) | f) >> shift) as u8))
            } else {
                None
            }
        }
    }
}

/// Decides `real_byte_of` executably.
pub fn real_to_byte(bits: u64) -> (r: Option<u8>)
    ensures
        r == real_byte_of(bits),
{
    if bits & 0x7FFF_FFFF_FFFF_FFFF == 0 {
        Some(0u8)
    } else if bits >> 63 == 1 {
        None
    } else {
        let e: u64 = (bits >> 52) & 0x7FF;
        let f: u64 = bits & 0xF_FFFF_FFFF_FFFF;
        if e < 1023 || e > 1030 {
            None
        } else {
            let shift: u64 = 52 - (e - 1023);
            assert(1u64 << shift >= 1) by (bit_vector)
                requires
                    45 <= shift <= 52,
            ;
            let mask: u64 = (1u64 << shift) - 1;
            if f & mask == 0 {
                Some((((1u64 << 52) | f) >> shift) as u8)
            } else {
                None
            }
        }
    }
}

/// The byte a numeric element reduces to, if any.
pub open spec fn num_byte(n: Num) -> Option<u8> {
    match n {
        Num::Signed(i) => if 0 <= i && i <= 255 {
            Some(i as u8)
        } else {
            None
        },
        Num::Unsigned(u) => if u <= 255 {
            Some(u as u8)
        } else {
            None
        },
        Num::Real(bits) => real_byte_of(bits),
    }
}

fn num_to_byte(n: &Num) -> (r: Option<u8>)
    ensures
        r == num_byte(*n),
{
    match n {
        Num::Signed(i) => if 0 <= *i && *i <= 255 {
            Some(*i as u8)
        } else {
            None
        },
        Num::Unsigned(u) => if *u <= 255 {
            Some(*u as u8)
        } else {
            None
        },
        Num::Real(bits) => real_to_byte(*bits),
    }
}

/// The byte an array element reduces to, if any: only numeric elements
/// reduce.
pub open spec fn elem_byte(v: DynValue) -> Option<u8> {
    match v {
        DynValue::Number(n) => num_byte(n),
        _ => None,
    }
}

/// Every element of the array is numeric.
pub open spec fn all_numeric(items: Seq<DynValue>) -> bool {
    forall|i: int| 0 <= i < items.len() ==> items[i] is Number
}

/// Every element of the array reduces to a byte.
pub open spec fn all_bytes(items: Seq<DynValue>) -> bool {
    forall|i: int| 0 <= i < items.len() ==> elem_byte(items[i]) is Some
}

/// The byte the element at `i` reduces to (zero when it does not reduce).
pub open spec fn byte_at(items: Seq<DynValue>, i: int) -> u8 {
    match elem_byte(items[i]) {
        Some(b) => b,
        None => 0u8,
    }
}

/// Message of a number outside the signed 64-bit range.
pub open spec fn range_err_text() -> Seq<char> {
    "numeric value exceeds supported range"@
}

/// Message of a numeric array element that is not a byte.
pub open spec fn byte_err_text() -> Seq<char> {
    "array value is not a valid byte"@
}

/// The full coercion relation from a dynamic value to its outcome, the
/// enumerated table of the bridge:
/// null maps to null; a boolean to integer one or zero; a signed number to
/// that integer; an unsigned number to that integer when it fits the
/// signed range and to a range error otherwise; a floating-point number to
/// a real with the same bit pattern; text to text; an all-numeric array to
/// the blob of its byte values, or a value error if any element is not an
/// integral value in [0, 255]; any other array, and every object, to its
/// canonical serialized text.
pub open spec fn coerces_to(v: DynValue, r: Result<Coerced, Error>) -> bool {
    match v {
        DynValue::Null => r == Ok::<Coerced, Error>(Coerced::Value(SqlVal::Null)),
        DynValue::Bool(flag) => r == Ok::<Coerced, Error>(
            Coerced::Value(SqlVal::Integer(if flag { 1i64 } else { 0i64 })),
        ),
        DynValue::Number(n) => match n {
            Num::Signed(i) => r == Ok::<Coerced, Error>(Coerced::Value(SqlVal::Integer(i))),
            Num::Unsigned(u) => if u <= i64::MAX as u64 {
                r == Ok::<Coerced, Error>(Coerced::Value(SqlVal::Integer(u as i64)))
            } else {
                r matches Err(e) && e.kind == ErrorKind::RangeError && e.message@
                    == range_err_text()
            },
            Num::Real(bits) => r == Ok::<Coerced, Error>(Coerced::Value(SqlVal::Real(bits))),
        },
        DynValue::Text(t) => r == Ok::<Coerced, Error>(Coerced::Value(SqlVal::Text(t))),
        DynValue::Array(items) => if all_numeric(items@) {
            if all_bytes(items@) {
                r matches Ok(Coerced::Value(SqlVal::Blob(b))) && b@.len() == items@.len()
                    && (forall|i: int| 0 <= i < items@.len() ==> b@[i] == byte_at(items@, i))
            } else {
                r matches Err(e) && e.kind == ErrorKind::ValueError && e.message@
                    == byte_err_text()
            }
        } else {
            r == Ok::<Coerced, Error>(Coerced::CanonicalText)
        },
        DynValue::Object(_) => r == Ok::<Coerced, Error>(Coerced::CanonicalText),
    }
}

/// Whether coercion of `v` fails (with a range or value error).
pub open spec fn coerce_fails(v: DynValue) -> bool {
    match v {
        DynValue::Number(n) => n matches Num::Unsigned(u) && u > i64::MAX as u64,
        DynValue::Array(items) => all_numeric(items@) && !all_bytes(items@),
        _ => false,
    }
}

fn is_number_val(v: &DynValue) -> (r: bool)
    ensures
        r == (*v is Number),
{
    match v {
        DynValue::Number(_) => true,
        _ => false,
    }
}

/// Coerces one dynamic value into the store's value model.
#[verifier::loop_isolation(false)]
pub fn dyn_to_sql(v: &DynValue) -> (r: Result<Coerced, Error>)
    ensures
        coerces_to(*v, r),
        r is Err <==> coerce_fails(*v),
{
    match v {
        DynValue::Null => Ok(Coerced::Value(SqlVal::Null)),
        DynValue::Bool(flag) => Ok(
            Coerced::Value(SqlVal::Integer(if *flag { 1 } else { 0 })),
        ),
        DynValue::Number(n) => match n {
            Num::Signed(i) => Ok(Coerced::Value(SqlVal::Integer(*i))),
            Num::Unsigned(u) => if *u <= i64::MAX as u64 {
                Ok(Coerced::Value(SqlVal::Integer(*u as i64)))
            } else {
                Err(
                    Error::new(
                        ErrorKind::RangeError,
                        String::from_str("numeric value exceeds supported range"),
                    ),
                )
            },
            Num::Real(bits) => Ok(Coerced::Value(SqlVal::Real(*bits))),
        },
        DynValue::Text(t) => Ok(Coerced::Value(SqlVal::Text(t.clone()))),
        DynValue::Array(items) => {
            let n = items.len();
            let mut i: usize = 0;
            while i < n
                invariant
                    i <= n,
                    n == items@.len(),
                    forall|j: int| 0 <= j < i ==> items@[j] is Number,
                decreases n - i,
            {
                if !is_number_val(&items[i]) {
                    proof {
                        assert(!(items@[i as int] is Number));
                        assert(!all_numeric(items@));
                    }
                    return Ok(Coerced::CanonicalText);
                }
                i += 1;
            }
            let mut blob: Vec<u8> = Vec::new();
            let mut k: usize = 0;
            while k < n
                invariant
                    k <= n,
                    n == items@.len(),
                    all_numeric(items@),
                    blob@.len() == k,
                    forall|j: int| 0 <= j < k ==> elem_byte(items@[j]) is Some,
                    forall|j: int| 0 <= j < k ==> blob@[j] == byte_at(items@, j),
                decreases n - k,
            {
                match &items[k] {
                    DynValue::Number(num) => {
                        match num_to_byte(num) {
                            Some(b) => {
                                blob.push(b);
                            },
                            None => {
                                proof {
                                    assert(items@[k as int] matches DynValue::Number(nn)
                                        && num_byte(nn) is None);
                                    assert(elem_byte(items@[k as int]) is None);
                                    assert(!all_bytes(items@));
                                }
                                return Err(
                                    Error::new(
                                        ErrorKind::ValueError,
                                        String::from_str("array value is not a valid byte"),
                                    ),
                                );
                            },
                        }
                    },
                    _ => {
                        proof {
                            assert(items@[k as int] is Number);
                            assert(false);
                        }
                        return Ok(Coerced::CanonicalText);
                    },
                }
                k += 1;
            }
            Ok(Coerced::Value(SqlVal::Blob(blob)))
        },
        DynValue::Object(_) => Ok(Coerced::CanonicalText),
    }
}

/// The inverse mapping, total and never failing: null to null, an integer
/// to a signed number, a real to a floating-point number with the same bit
/// pattern, text to text, and a blob to the array of its byte values.
pub open spec fn sql_to_dyn_rel(s: SqlVal, r: DynValue) -> bool {
    match s {
        SqlVal::Null => r == DynValue::Null,
        SqlVal::Integer(i) => r == DynValue::Number(Num::Signed(i)),
        SqlVal::Real(bits) => r == DynValue::Number(Num::Real(bits)),
        SqlVal::Text(t) => r == DynValue::Text(t),
        SqlVal::Blob(b) => r matches DynValue::Array(items) && items@.len() == b@.len() && (
        forall|i: int|
            0 <= i < b@.len() ==> items@[i] == DynValue::Number(Num::Signed(b@[i] as i64))),
    }
}

/// Coerces one store value back into the dynamic wire shape.
pub fn sql_to_dyn(s: &SqlVal) -> (r: DynValue)
    ensures
        sql_to_dyn_rel(*s, r),
{
    match s {
        SqlVal::Null => DynValue::Null,
        SqlVal::Integer(i) => DynValue::Number(Num::Signed(*i)),
        SqlVal::Real(bits) => DynValue::Number(Num::Real(*bits)),
        SqlVal::Text(t) => DynValue::Text(t.clone()),
        SqlVal::Blob(bytes) => {
            let n = bytes.len();
            let mut items: Vec<DynValue> = Vec::new();
            let mut i: usize = 0;
            while i < n
                invariant
                    i <= n,
                    n == bytes@.len(),
                    items@.len() == i,
                    forall|j: int|
                        0 <= j < i ==> items@[j] == DynValue::Number(
                            Num::Signed(bytes@[j] as i64),
                        ),
                decreases n - i,
            {
                items.push(DynValue::Number(Num::Signed(bytes[i] as i64)));
                i += 1;
            }
            DynValue::Array(items)
        },
    }
}

/// Coerces a parameter list in order, stopping at the first value that
/// cannot be coerced, as the bridge binds parameters positionally.
pub fn prepare_params(values: &Vec<DynValue>) -> (r: Result<Vec<Coerced>, Error>)
    ensures
        r matches Ok(cs) ==> cs@.len() == values@.len() && (forall|i: int|
            0 <= i < values@.len() ==> coerces_to(values@[i], Ok(#[trigger] cs@[i]))),
        r is Ok <==> (forall|i: int| 0 <= i < values@.len() ==> !coerce_fails(#[trigger] values@[i])),
        r matches Err(e) ==> exists|i: int|
            0 <= i < values@.len() && coerce_fails(values@[i]) && coerces_to(
                #[trigger] values@[i],
                Err(e),
            ) && (forall|j: int| 0 <= j < i ==> !coerce_fails(#[trigger] values@[j])),
{
    let n = values.len();
    let mut out: Vec<Coerced> = Vec::new();
    let mut i: usize = 0;
    while i < n
        invariant
            i <= n,
            n == values@.len(),
            out@.len() == i,
            forall|j: int| 0 <= j < i ==> coerces_to(values@[j], Ok(#[trigger] out@[j])),
            forall|j: int| 0 <= j < i ==> !coerce_fails(#[trigger] values@[j]),
        decreases n - i,
    {
        match dyn_to_sql(&values[i]) {
            Ok(c) => {
                out.push(c);
            },
            Err(e) => {
                return Err(e);
            },
        }
        i += 1;
    }
    Ok(out)
}

/// Round trip of the scalar shapes: any well-formed number or text that
/// coerces into a store value comes back from the store as a value equal
/// to itself.
pub proof fn lemma_scalar_round_trip(v: DynValue, c: Result<Coerced, Error>, s: SqlVal, r: DynValue)
    requires
        (v matches DynValue::Number(n) && wf_num(n)) || v is Text,
        coerces_to(v, c),
        c == Ok::<Coerced, Error>(Coerced::Value(s)),
        sql_to_dyn_rel(s, r),
    ensures
        r == v,
{
    match v {
        DynValue::Number(n) => {
            match n {
                Num::Signed(i) => {
                    assert(s == SqlVal::Integer(i));
                    assert(r == DynValue::Number(Num::Signed(i)));
                },
                Num::Real(bits) => {
                    assert(s == SqlVal::Real(bits));
                    assert(r == DynValue::Number(Num::Real(bits)));
                },
                Num::Unsigned(_) => {
                    assert(false);
                },
            }
        },
        DynValue::Text(t) => {
            assert(s == SqlVal::Text(t));
            assert(r == DynValue::Text(t));
        },
        _ => {
            assert(false);
        },
    }
}

/// Round trip of binary payloads: the array of the byte values of any byte
/// sequence coerces to the blob holding exactly that sequence, and reading
/// the blob back yields an array equal to the original, in order.
pub proof fn lemma_blob_round_trip(
    v: DynValue,
    b: Seq<u8>,
    c: Result<Coerced, Error>,
    bv: Vec<u8>,
    r: DynValue,
)
    requires
        v matches DynValue::Array(items) && items@.len() == b.len() && (forall|i: int|
            0 <= i < b.len() ==> items@[i] == DynValue::Number(Num::Signed(b[i] as i64))),
        coerces_to(v, c),
        c == Ok::<Coerced, Error>(Coerced::Value(SqlVal::Blob(bv))),
        sql_to_dyn_rel(SqlVal::Blob(bv), r),
    ensures
        bv@ == b,
        v matches DynValue::Array(items) && r matches DynValue::Array(ritems) && ritems@
            == items@,
{
    let items = v->Array_0;
    assert forall|i: int| 0 <= i < items@.len() implies #[trigger] items@[i] is Number by {
        assert(items@[i] == DynValue::Number(Num::Signed(b[i] as i64)));
    }
    assert forall|i: int| 0 <= i < items@.len() implies elem_byte(#[trigger] items@[i]) is Some by {
        assert(items@[i] == DynValue::Number(Num::Signed(b[i] as i64)));
        assert(0 <= b[i] as i64 <= 255);
    }
    assert(all_numeric(items@));
    assert(all_bytes(items@));
    assert(bv@.len() == b.len());
    assert forall|i: int| 0 <= i < b.len() implies bv@[i] == b[i] by {
        assert(bv@[i] == byte_at(items@, i));
        assert(items@[i] == DynValue::Number(Num::Signed(b[i] as i64)));
    }
    assert(bv@ =~= b);
    let items2 = r->Array_0;
    assert forall|i: int| 0 <= i < items@.len() implies #[trigger] items2@[i] == items@[i] by {
        assert(items2@[i] == DynValue::Number(Num::Signed(bv@[i] as i64)));
    }
    assert(items2@ =~= items@);
}

} // verus!
