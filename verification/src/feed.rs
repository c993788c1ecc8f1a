//! The load feed.
//!
//! The remote feed is a JSON document with a `LogicalServers` array whose
//! entries each carry a `Domain` name, a `Status` code and a `Load` value.
//! The caller fetches the document body; this module parses it into
//! `LoadReport`s. JSON decoding is delegated to serde_json behind trusted
//! declarations; since serde_json's results are functions of their arguments
//! alone, each is given a name (`json_doc_of`, `field_of`, `items_of`,
//! `int_of`, `str_of`), and the reports owed for a body are defined from
//! those names, so the parse contract fixes the result exactly: one report
//! per entry for a well-formed body, `ParseFailed` — never a crash, never a
//! silently empty result — for a malformed one.

use vstd::prelude::*;
use crate::errors::VpnError;
use crate::selector::LoadReport;

verus! {

/// serde_json's JSON document type, opaque to the library: values of it are
/// only carried between the trusted accessors below.
#[verifier::external_type_specification]
#[verifier::external_body]
pub struct ExValue(serde_json::Value);

/// The document that serde_json::from_str decodes from `s`, if `s` is
/// well-formed JSON.
pub uninterp spec fn json_doc_of(s: Seq<char>) -> Option<serde_json::Value>;

/// The value serde_json::Value::get finds under `key`, if `v` is an object
/// holding the key.
pub uninterp spec fn field_of(v: serde_json::Value, key: Seq<char>) -> Option<serde_json::Value>;

/// The elements serde_json::Value::as_array yields, if `v` is an array.
pub uninterp spec fn items_of(v: serde_json::Value) -> Option<Seq<serde_json::Value>>;

/// The integer serde_json::Value::as_i64 yields, if `v` is one in `i64`
/// range.
pub uninterp spec fn int_of(v: serde_json::Value) -> Option<int>;

/// The bytes serde_json::Value::as_str yields, if `v` is a string.
pub uninterp spec fn str_of(v: serde_json::Value) -> Option<Seq<u8>>;

/// Relies on serde_json::from_str: decodes a JSON document from text, or
/// fails on malformed input; the outcome depends on the text alone.
#[verifier::external_body]
fn json_parse(body: &str) -> (r: Option<serde_json::Value>)
    ensures
        r == json_doc_of(body@),
{
    serde_json::from_str(body).ok()
}

/// Relies on serde_json::Value::get: looks a key up in a JSON object,
/// returning nothing when the value is no object or lacks the key.
#[verifier::external_body]
fn value_get<'a>(v: &'a serde_json::Value, key: &str) -> (r: Option<&'a serde_json::Value>)
    ensures
        r matches Some(f) ==> field_of(*v, key@) == Some(*f),
        r is None ==> field_of(*v, key@) is None,
{
    v.get(key)
}

/// Relies on serde_json::Value::as_array: the elements of a JSON array,
/// or nothing when the value is no array.
#[verifier::external_body]
fn value_as_array<'a>(v: &'a serde_json::Value) -> (r: Option<&'a Vec<serde_json::Value>>)
    ensures
        r matches Some(a) ==> items_of(*v) == Some(a@),
        r is None ==> items_of(*v) is None,
{
    v.as_array()
}

/// Relies on serde_json::Value::as_i64: the value of a JSON integer that
/// fits in `i64`, or nothing for any other value.
#[verifier::external_body]
fn value_as_i64(v: &serde_json::Value) -> (r: Option<i64>)
    ensures
        r matches Some(x) ==> int_of(*v) == Some(x as int),
        r is None ==> int_of(*v) is None,
{
    v.as_i64()
}

/// Relies on serde_json::Value::as_str: the bytes of a JSON string, or
/// nothing when the value is no string.
#[verifier::external_body]
fn value_str_bytes(v: &serde_json::Value) -> (r: Option<Vec<u8>>)
    ensures
        r matches Some(d) ==> str_of(*v) == Some(d@),
        r is None ==> str_of(*v) is None,
{
    v.as_str().map(|s| s.as_bytes().to_vec())
}

/// The bytes of the string under `key` in `v`, if `v` holds one.
pub open spec fn field_str(v: serde_json::Value, key: Seq<char>) -> Option<Seq<u8>> {
    match field_of(v, key) {
        Option::Some(f) => str_of(f),
        Option::None => None,
    }
}

/// The integer under `key` in `v`, if `v` holds one.
pub open spec fn field_int(v: serde_json::Value, key: Seq<char>) -> Option<int> {
    match field_of(v, key) {
        Option::Some(f) => int_of(f),
        Option::None => None,
    }
}

/// The report a `LogicalServers` entry yields — its `Domain` bytes, `Status`
/// and `Load` values — if it carries all three fields with these types.
pub open spec fn spec_entry_report(entry: serde_json::Value) -> Option<(Seq<u8>, int, int)> {
    match (field_str(entry, "Domain"@), field_int(entry, "Status"@), field_int(entry, "Load"@)) {
        (Option::Some(d), Option::Some(s), Option::Some(l)) => Some((d, s, l)),
        _ => None,
    }
}

/// The `LogicalServers` entries of the document decoded from `body`, if the
/// body is JSON whose document holds that key with an array under it.
pub open spec fn feed_items(body: Seq<char>) -> Option<Seq<serde_json::Value>> {
    match json_doc_of(body) {
        Option::Some(doc) => match field_of(doc, "LogicalServers"@) {
            Option::Some(servers) => items_of(servers),
            Option::None => None,
        },
        Option::None => None,
    }
}

/// The reports of the first `n` entries, or nothing if any of them is
/// malformed.
pub open spec fn reports_upto(entries: Seq<serde_json::Value>, n: int) -> Option<
    Seq<(Seq<u8>, int, int)>,
>
    decreases n,
{
    if n <= 0 {
        Some(Seq::empty())
    } else {
        match (reports_upto(entries, n - 1), spec_entry_report(entries[n - 1])) {
            (Option::Some(prefix), Option::Some(t)) => Some(prefix.push(t)),
            _ => None,
        }
    }
}

/// The reports owed for a feed body: one per `LogicalServers` entry, or
/// nothing if the body, the document shape or any entry is malformed.
pub open spec fn spec_reports(body: Seq<char>) -> Option<Seq<(Seq<u8>, int, int)>> {
    match feed_items(body) {
        Option::Some(entries) => reports_upto(entries, entries.len() as int),
        Option::None => None,
    }
}

/// The domain bytes, status and load of each report.
pub open spec fn report_views(rs: Seq<LoadReport>) -> Seq<(Seq<u8>, int, int)> {
    rs.map_values(|r: LoadReport| (r.domain@, r.status as int, r.load as int))
}

proof fn lemma_reports_upto_none(entries: Seq<serde_json::Value>, i: int, n: int)
    requires
        0 <= i < n <= entries.len(),
        spec_entry_report(entries[i]) is None,
    ensures
        reports_upto(entries, n) is None,
    decreases n,
{
    if i < n - 1 {
        lemma_reports_upto_none(entries, i, n - 1);
    }
}

/// Extract one load report per `LogicalServers` entry from a feed body.
///
/// A well-formed body yields exactly the reports the body owes; a malformed
/// one — no JSON, no `LogicalServers` array, or an entry without a string
/// `Domain`, an integer `Status` or an integer `Load` — yields `ParseFailed`
/// and nothing else, never a crash and never a silently empty result.
pub fn parse_load_reports(body: &str) -> (r: Result<Vec<LoadReport>, VpnError>)
    ensures
        r matches Ok(reports) ==> spec_reports(body@) == Some(report_views(reports@)),
        r matches Err(e) ==> e == VpnError::ParseFailed && spec_reports(body@) is None,
{
    let doc = match json_parse(body) {
        Option::Some(v) => v,
        Option::None => {
            return Err(VpnError::ParseFailed);
        },
    };
    let servers = match value_get(&doc, "LogicalServers") {
        Option::Some(v) => v,
        Option::None => {
            return Err(VpnError::ParseFailed);
        },
    };
    let entries = match value_as_array(servers) {
        Option::Some(a) => a,
        Option::None => {
            return Err(VpnError::ParseFailed);
        },
    };
    assert(feed_items(body@) == Some(entries@));
    let mut reports: Vec<LoadReport> = Vec::new();
    let mut i: usize = 0;
    assert(report_views(reports@) =~= Seq::<(Seq<u8>, int, int)>::empty());
    while i < entries.len()
        invariant
            i <= entries@.len(),
            feed_items(body@) == Some(entries@),
            reports_upto(entries@, i as int) == Some(report_views(reports@)),
        decreases entries@.len() - i,
    {
        let entry = &entries[i];
        let domain = match value_get(entry, "Domain") {
            Option::Some(v) => match value_str_bytes(v) {
                Option::Some(d) => d,
                Option::None => {
                    proof {
                        lemma_reports_upto_none(entries@, i as int, entries@.len() as int);
                    }
                    return Err(VpnError::ParseFailed);
                },
            },
            Option::None => {
                proof {
                    lemma_reports_upto_none(entries@, i as int, entries@.len() as int);
                }
                return Err(VpnError::ParseFailed);
            },
        };
        let status = match value_get(entry, "Status") {
            Option::Some(v) => match value_as_i64(v) {
                Option::Some(x) => x,
                Option::None => {
                    proof {
                        lemma_reports_upto_none(entries@, i as int, entries@.len() as int);
                    }
                    return Err(VpnError::ParseFailed);
                },
            },
            Option::None => {
                proof {
                    lemma_reports_upto_none(entries@, i as int, entries@.len() as int);
                }
                return Err(VpnError::ParseFailed);
            },
        };
        let load = match value_get(entry, "Load") {
            Option::Some(v) => match value_as_i64(v) {
                Option::Some(x) => x,
                Option::None => {
                    proof {
                        lemma_reports_upto_none(entries@, i as int, entries@.len() as int);
                    }
                    return Err(VpnError::ParseFailed);
                },
            },
            Option::None => {
                proof {
                    lemma_reports_upto_none(entries@, i as int, entries@.len() as int);
                }
                return Err(VpnError::ParseFailed);
            },
        };
        let ghost prev = reports@;
        assert(spec_entry_report(entries@[i as int]) == Some(
            (domain@, status as int, load as int),
        ));
        reports.push(LoadReport { domain, status, load });
        proof {
            assert(report_views(reports@) =~= report_views(prev).push(
                (reports@[prev.len() as int].domain@, status as int, load as int),
            ));
        }
        i += 1;
    }
    Ok(reports)
}

} // verus!
