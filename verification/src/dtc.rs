//! Diagnostic trouble code parsing.

use vstd::prelude::*;
use crate::schema::{DtcEntry, EcuDefinition};
use crate::text::{hex_min, push_hex_min};

verus! {

#[derive(Debug, Clone, PartialEq, Eq)]
pub struct Dtc {
    pub code: u16,
    pub status: u8,
    /// Human-readable meaning from the ECU definition's table, if known.
    pub description: Option<String>,
    /// Likely culprits from the definition's table, most common first.
    pub causes: Vec<String>,
    /// What to physically check or do, in order, from the table.
    pub checks: Vec<String>,
}

impl Dtc {
    /// The code as four uppercase hex digits ("0123").
    pub fn code_string(&self) -> (s: String)
        ensures
            s@ == hex_min(self.code as nat, 4),
    {
        let mut s = String::new();
        push_hex_min(&mut s, self.code as u64, 4);
        s
    }
}

/// The first table entry from `i` on with `code`.
pub open spec fn entry_from(table: Seq<DtcEntry>, code: u16, i: int) -> Option<DtcEntry>
    decreases table.len() - i,
{
    if i < 0 || i >= table.len() {
        None
    } else if table[i].code == code {
        Some(table[i])
    } else {
        entry_from(table, code, i + 1)
    }
}

/// How many codes a ReadDTCByStatus response carries: whole 3-byte records
/// after the response SID and count byte.
pub open spec fn dtc_count(payload: Seq<u8>) -> nat {
    if payload.len() < 2 {
        0
    } else {
        ((payload.len() - 2) / 3) as nat
    }
}

/// The code of the `k`-th record of a ReadDTCByStatus response.
pub open spec fn code_at(payload: Seq<u8>, k: int) -> u16 {
    (payload[2 + 3 * k] as int * 256 + payload[3 + 3 * k] as int) as u16
}

/// `d` is the `k`-th code record of a ReadDTCByStatus response, with the
/// description, causes and checks of the table's first entry for its code
/// (none when the table has no such entry).
pub open spec fn dtc_at(d: Dtc, payload: Seq<u8>, table: Seq<DtcEntry>, k: int) -> bool {
    &&& d.code == code_at(payload, k)
    &&& d.status == payload[4 + 3 * k]
    &&& match entry_from(table, code_at(payload, k), 0) {
        Some(e) => d.description == Some(e.description) && d.causes@ == e.causes@ && d.checks@
            == e.checks@,
        None => d.description is None && d.causes@.len() == 0 && d.checks@.len() == 0,
    }
}

fn copy_texts(v: &Vec<String>) -> (out: Vec<String>)
    ensures
        out@ == v@,
{
    let mut out: Vec<String> = Vec::new();
    let mut i: usize = 0;
    while i < v.len()
        invariant
            i <= v@.len(),
            out@ =~= v@.take(i as int),
        decreases v@.len() - i,
    {
        out.push(v[i].clone());
        i = i + 1;
    }
    assert(v@.take(v@.len() as int) =~= v@);
    out
}

/// The description, causes and checks of the first table entry for `code`.
fn describe(table: &Vec<DtcEntry>, code: u16) -> (r: (Option<String>, Vec<String>, Vec<String>))
    ensures
        match entry_from(table@, code, 0) {
            Some(e) => r.0 == Some(e.description) && r.1@ == e.causes@ && r.2@ == e.checks@,
            None => r.0 is None && r.1@.len() == 0 && r.2@.len() == 0,
        },
{
    let mut i: usize = 0;
    while i < table.len()
        invariant
            i <= table@.len(),
            entry_from(table@, code, 0) == entry_from(table@, code, i as int),
        decreases table@.len() - i,
    {
        if table[i].code == code {
            return (Some(table[i].description.clone()), copy_texts(&table[i].causes), copy_texts(&table[i].checks));
        }
        i = i + 1;
    }
    (None, Vec::new(), Vec::new())
}

/// Parse a ReadDTCByStatus positive response payload:
/// `[SID+0x40, count, (code_hi, code_lo, status)*]`. A trailing partial
/// record is ignored; descriptions, causes and checks come from the
/// definition's table.
pub fn parse_read_dtc_response(payload: &[u8], def: &EcuDefinition) -> (dtcs: Vec<Dtc>)
    ensures
        dtcs@.len() == dtc_count(payload@),
        forall|k: int| 0 <= k < dtcs@.len() ==> dtc_at(#[trigger] dtcs@[k], payload@, def.dtc.table@, k),
{
    let mut dtcs: Vec<Dtc> = Vec::new();
    if payload.len() < 2 {
        return dtcs;
    }
    let n = (payload.len() - 2) / 3;
    assert(3 * n + 2 <= payload@.len()) by (nonlinear_arith)
        requires
            n == (payload@.len() - 2) / 3,
            payload@.len() >= 2,
    ;
    let mut k: usize = 0;
    while k < n
        invariant
            k <= n,
            n == dtc_count(payload@),
            payload@.len() >= 2,
            3 * n + 2 <= payload@.len(),
            payload@.len() == payload.len(),
            dtcs@.len() == k,
            forall|j: int| 0 <= j < k ==> dtc_at(#[trigger] dtcs@[j], payload@, def.dtc.table@, j),
        decreases n - k,
    {
        let base = 2 + 3 * k;
        let code = (payload[base] as u16) * 256 + payload[base + 1] as u16;
        let status = payload[base + 2];
        let (description, causes, checks) = describe(&def.dtc.table, code);
        dtcs.push(Dtc { code, status, description, causes, checks });
        k = k + 1;
    }
    dtcs
}

} // verus!
