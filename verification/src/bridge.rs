//! The relational bridge around the store: locator resolution, assembly of
//! result rows into dynamic objects, and the symmetric no-op close.
//!
//! Opening the store file, preparing statements, and stepping the result
//! cursor are filesystem work and live with the host shell; this module
//! holds every decision the bridge makes about values and paths.

use vstd::prelude::*;
use vstd::string::*;

use crate::coerce::{sql_to_dyn, sql_to_dyn_rel};
use crate::error::{Error, ErrorKind};
use crate::text::{chars_of, string_from_chars};
use crate::value::{DynValue, SqlVal};

verus! {

/// The prefix marking a logical store name.
pub open spec fn store_prefix() -> Seq<char> {
    "sqlite:"@
}

/// Whether a locator carries the logical-store prefix.
pub open spec fn has_store_prefix(l: Seq<char>) -> bool {
    l.len() >= store_prefix().len() && l.subrange(0, store_prefix().len() as int)
        == store_prefix()
}

/// The stripped locator remainder joined under the data directory, with
/// exactly one separator between them.
pub open spec fn joined_path(dir: Seq<char>, rest: Seq<char>) -> Seq<char> {
    if dir.len() > 0 && dir.last() == '/' {
        dir + rest
    } else {
        dir + seq!['/'] + rest
    }
}

/// Message of a missing application data directory.
pub open spec fn no_data_dir_text() -> Seq<char> {
    "failed to resolve application data directory"@
}

/// Resolves a store locator to a filesystem path: a locator carrying the
/// logical-store prefix is stripped and resolved under the
/// application-private data directory (`None` when the host cannot
/// determine one); any other locator is returned verbatim.
#[verifier::loop_isolation(false)]
pub fn resolve_locator(locator: &String, data_dir: Option<&String>) -> (r: Result<String, Error>)
    ensures
        !has_store_prefix(locator@) ==> (r matches Ok(p) && p@ == locator@),
        has_store_prefix(locator@) && data_dir is None ==> (r matches Err(e) && e.kind
            == ErrorKind::ResourceUnavailable && e.message@ == no_data_dir_text()),
        data_dir matches Some(d) ==> (has_store_prefix(locator@) ==> (r matches Ok(p) && p@
            == joined_path(
            d@,
            locator@.subrange(store_prefix().len() as int, locator@.len() as int),
        ))),
{
    let lc = chars_of(locator.as_str());
    let pc = chars_of("sqlite:");
    let plen = pc.len();
    if lc.len() < plen {
        return Ok(locator.clone());
    }
    let mut i: usize = 0;
    while i < plen
        invariant
            i <= plen,
            forall|j: int| 0 <= j < i ==> lc@[j] == pc@[j],
        decreases plen - i,
    {
        if lc[i] != pc[i] {
            proof {
                if has_store_prefix(locator@) {
                    assert(locator@.subrange(0, store_prefix().len() as int)[i as int]
                        == store_prefix()[i as int]);
                }
            }
            return Ok(locator.clone());
        }
        i += 1;
    }
    proof {
        assert(locator@.subrange(0, plen as int) =~= pc@);
    }
    match data_dir {
        None => Err(
            Error::new(
                ErrorKind::ResourceUnavailable,
                String::from_str("failed to resolve application data directory"),
            ),
        ),
        Some(d) => {
            let mut out = chars_of(d.as_str());
            let dlen = out.len();
            if dlen == 0 || out[dlen - 1] != '/' {
                out.push('/');
                proof {
                    assert(out@ =~= d@ + seq!['/']);
                }
            }
            let ghost base: Seq<char> = out@;
            proof {
                let rest = locator@.subrange(store_prefix().len() as int, locator@.len() as int);
                assert(joined_path(d@, rest) =~= base + rest);
            }
            let n = lc.len();
            let mut k: usize = plen;
            while k < n
                invariant
                    plen <= k <= n,
                    out@ =~= base + lc@.subrange(plen as int, k as int),
                decreases n - k,
            {
                out.push(lc[k]);
                assert(out@ =~= base + lc@.subrange(plen as int, k + 1 as int));
                k += 1;
            }
            proof {
                assert(lc@.subrange(plen as int, n as int) =~= locator@.subrange(
                    store_prefix().len() as int,
                    locator@.len() as int,
                ));
            }
            Ok(string_from_chars(&out))
        },
    }
}

/// One result row read back as a dynamic object: column names in order,
/// each paired with the inverse coercion of its store value.
pub open spec fn row_object_rel(names: Seq<String>, row: Seq<SqlVal>, obj: DynValue) -> bool {
    obj matches DynValue::Object(pairs) && pairs@.len() == names.len() && (forall|j: int|
        0 <= j < names.len() ==> (#[trigger] pairs@[j]).0 == names[j] && sql_to_dyn_rel(
            row[j],
            pairs@[j].1,
        ))
}

/// Builds one result row as a dynamic object keyed by column name.
#[verifier::loop_isolation(false)]
pub fn row_to_object(names: &Vec<String>, row: &Vec<SqlVal>) -> (r: DynValue)
    requires
        row@.len() == names@.len(),
    ensures
        row_object_rel(names@, row@, r),
{
    let mut pairs: Vec<(String, DynValue)> = Vec::new();
    let n = names.len();
    let mut j: usize = 0;
    while j < n
        invariant
            j <= n,
            pairs@.len() == j,
            forall|t: int|
                0 <= t < j ==> (#[trigger] pairs@[t]).0 == names@[t] && sql_to_dyn_rel(
                    row@[t],
                    pairs@[t].1,
                ),
        decreases n - j,
    {
        let v = sql_to_dyn(&row[j]);
        pairs.push((names[j].clone(), v));
        j += 1;
    }
    DynValue::Object(pairs)
}

/// Builds a whole result set: one object per row, in row order; a
/// statement returning zero rows yields the empty sequence, not an error.
#[verifier::loop_isolation(false)]
pub fn rows_to_objects(names: &Vec<String>, rows: &Vec<Vec<SqlVal>>) -> (r: Vec<DynValue>)
    requires
        forall|i: int| 0 <= i < rows@.len() ==> (#[trigger] rows@[i])@.len() == names@.len(),
    ensures
        r@.len() == rows@.len(),
        forall|i: int|
            0 <= i < rows@.len() ==> row_object_rel(names@, (#[trigger] rows@[i])@, r@[i]),
{
    let mut out: Vec<DynValue> = Vec::new();
    let n = rows.len();
    let mut i: usize = 0;
    while i < n
        invariant
            i <= n,
            out@.len() == i,
            forall|t: int|
                0 <= t < i ==> row_object_rel(names@, (#[trigger] rows@[t])@, out@[t]),
        decreases n - i,
    {
        let obj = row_to_object(names, &rows[i]);
        out.push(obj);
        i += 1;
    }
    out
}

/// Closing is a no-op and always succeeds: the bridge opens one connection
/// per request and holds none across calls; this exists only to keep the
/// request surface symmetric.
pub fn close_store(_locator: &String) -> (r: Result<(), Error>)
    ensures
        r is Ok,
{
    Ok(())
}

} // verus!
