//! Pulling the fixed set of comment fields out of one parsed document.
//!
//! One export file holds a comment thread under the path
//! `data.feedback.display_comments.edges`; each edge's `node` yields one
//! [`Record`]. A buffer that is not JSON at all is skipped; a document that
//! parses but does not match this shape is a fatal error for the whole run.

use vstd::prelude::*;
use crate::json::{arr_view, jview, json_doc_of, num_as_u64, obj_get, parse_document, Json,
    JsonModel};
use crate::record::{opt_view, Record, RecordModel};
use crate::text::text_clean;
use crate::timefmt::{format_epoch, utc_text_of};

verus! {

broadcast use vstd::seq::group_seq_axioms, vstd::std_specs::vec::group_vec_axioms;

/// A well-formed JSON document whose shape does not match the export
/// schema: a required field is missing or of the wrong type. This aborts
/// the whole run; only a buffer that fails to parse at all is skipped.
#[derive(Debug, PartialEq, Eq)]
pub struct SchemaError;

/// The string under `key`, when the value is an object holding one there.
pub open spec fn str_field(n: JsonModel, key: Seq<char>) -> Option<Seq<char>> {
    match obj_get(n, key) {
        Some(JsonModel::Str(s)) => Some(s),
        _ => None,
    }
}

/// The string under `outer.inner`, when that whole path is present.
pub open spec fn str_path(n: JsonModel, outer: Seq<char>, inner: Seq<char>) -> Option<Seq<char>> {
    match obj_get(n, outer) {
        Some(m) => str_field(m, inner),
        None => None,
    }
}

/// The non-negative integer under `key`, when there is one.
pub open spec fn u64_field(n: JsonModel, key: Seq<char>) -> Option<u64> {
    match obj_get(n, key) {
        Some(m) => num_as_u64(m),
        None => None,
    }
}

/// The reaction count of a node: `feedback.reactors.count`.
pub open spec fn reactions_of(n: JsonModel) -> Option<u64> {
    match obj_get(n, "feedback"@) {
        Some(f) => match obj_get(f, "reactors"@) {
            Some(rs) => u64_field(rs, "count"@),
            None => None,
        },
        None => None,
    }
}

/// The row one comment node yields, or `None` when a required field is
/// absent or ill-typed (including a creation time outside the range the
/// date renderer covers). `author.gender` and `body.text` are optional:
/// missing, null or non-string values leave the field empty.
pub open spec fn node_record(n: JsonModel) -> Option<RecordModel> {
    match (str_field(n, "id"@), str_path(n, "author"@, "id"@), str_path(n, "author"@, "name"@),
        u64_field(n, "created_time"@), reactions_of(n), str_field(n, "url"@)) {
        (Some(id), Some(author_id), Some(author_name), Some(ts), Some(reactions), Some(url)) => (
        match utc_text_of(ts) {
            Some(t) => Some(RecordModel {
                id,
                author_id,
                author_name,
                author_gender: str_path(n, "author"@, "gender"@),
                timestamp: t,
                reactions,
                url,
                comment: str_path(n, "body"@, "text"@),
            }),
            None => None,
        }),
        _ => None,
    }
}

/// The row one edge yields through its `node` entry.
pub open spec fn edge_record(e: JsonModel) -> Option<RecordModel> {
    match obj_get(e, "node"@) {
        Some(n) => node_record(n),
        None => None,
    }
}

/// The rows of a whole edge list, kept in input order; `None` as soon as
/// any one edge fails.
pub open spec fn edges_records(edges: Seq<JsonModel>) -> Option<Seq<RecordModel>>
    decreases edges.len(),
{
    if edges.len() == 0 {
        Some(Seq::empty())
    } else {
        match (edges_records(edges.drop_last()), edge_record(edges.last())) {
            (Some(rows), Some(r)) => Some(rows.push(r)),
            _ => None,
        }
    }
}

/// The edge list of a document: the array under
/// `data.feedback.display_comments.edges`.
pub open spec fn doc_edges(doc: JsonModel) -> Option<Seq<JsonModel>> {
    match obj_get(doc, "data"@) {
        Some(d) => match obj_get(d, "feedback"@) {
            Some(f) => match obj_get(f, "display_comments"@) {
                Some(dc) => match obj_get(dc, "edges"@) {
                    Some(JsonModel::Arr(es)) => Some(es),
                    _ => None,
                },
                None => None,
            },
            None => None,
        },
        None => None,
    }
}

/// Every row a well-shaped document yields, one per edge, in input order.
pub open spec fn doc_records(doc: JsonModel) -> Option<Seq<RecordModel>> {
    match doc_edges(doc) {
        Some(es) => edges_records(es),
        None => None,
    }
}

/// A document yields exactly one row per entry of its edge list.
pub proof fn lemma_doc_records_count(doc: JsonModel)
    requires
        doc_records(doc) is Some,
    ensures
        doc_edges(doc) is Some,
        doc_records(doc).unwrap().len() == doc_edges(doc).unwrap().len(),
{
    lemma_edges_records_count(doc_edges(doc).unwrap());
}

proof fn lemma_edges_records_count(es: Seq<JsonModel>)
    requires
        edges_records(es) is Some,
    ensures
        edges_records(es).unwrap().len() == es.len(),
    decreases es.len(),
{
    if es.len() > 0 {
        lemma_edges_records_count(es.drop_last());
    }
}

/// One failing edge makes the whole list fail.
proof fn lemma_edges_records_fail(es: Seq<JsonModel>, i: int)
    requires
        0 <= i < es.len(),
        edge_record(es[i]) is None,
    ensures
        edges_records(es) is None,
    decreases es.len(),
{
    if i < es.len() - 1 {
        assert(es.drop_last()[i] == es[i]);
        lemma_edges_records_fail(es.drop_last(), i);
    }
}

fn get_req<'a>(j: &'a Json, key: &str) -> (r: Result<&'a Json, SchemaError>)
    ensures
        match r {
            Ok(v) => obj_get(j@, key@) == Some(jview(*v)),
            Err(_) => obj_get(j@, key@) is None,
        },
{
    match j.get(key) {
        Some(v) => Ok(v),
        None => Err(SchemaError),
    }
}

fn req_string(j: &Json, key: &str) -> (r: Result<String, SchemaError>)
    ensures
        match r {
            Ok(s) => str_field(j@, key@) == Some(s@),
            Err(_) => str_field(j@, key@) is None,
        },
{
    match j.get(key) {
        Some(v) => match v.as_str() {
            Some(s) => Ok(s.clone()),
            None => Err(SchemaError),
        },
        None => Err(SchemaError),
    }
}

fn req_string_path(j: &Json, outer: &str, inner: &str) -> (r: Result<String, SchemaError>)
    ensures
        match r {
            Ok(s) => str_path(j@, outer@, inner@) == Some(s@),
            Err(_) => str_path(j@, outer@, inner@) is None,
        },
{
    match j.get(outer) {
        Some(o) => req_string(o, inner),
        None => Err(SchemaError),
    }
}

fn opt_string_path(j: &Json, outer: &str, inner: &str) -> (r: Option<String>)
    ensures
        opt_view(r) == str_path(j@, outer@, inner@),
{
    match j.get(outer) {
        Some(o) => match o.get(inner) {
            Some(v) => match v.as_str() {
                Some(s) => Some(s.clone()),
                None => None,
            },
            None => None,
        },
        None => None,
    }
}

fn req_u64(j: &Json, key: &str) -> (r: Result<u64, SchemaError>)
    ensures
        match r {
            Ok(n) => u64_field(j@, key@) == Some(n),
            Err(_) => u64_field(j@, key@) is None,
        },
{
    match j.get(key) {
        Some(v) => match v.as_u64() {
            Some(n) => Ok(n),
            None => Err(SchemaError),
        },
        None => Err(SchemaError),
    }
}

/// Builds the row of one comment node, or reports the schema mismatch that
/// stops the run.
pub fn extract_node(n: &Json) -> (r: Result<Record, SchemaError>)
    ensures
        match r {
            Ok(rec) => node_record(n@) == Some(rec@) && text_clean(rec@.timestamp),
            Err(_) => node_record(n@) is None,
        },
{
    let id = match req_string(n, "id") {
        Ok(s) => s,
        Err(e) => return Err(e),
    };
    let author_id = match req_string_path(n, "author", "id") {
        Ok(s) => s,
        Err(e) => return Err(e),
    };
    let author_name = match req_string_path(n, "author", "name") {
        Ok(s) => s,
        Err(e) => return Err(e),
    };
    let created = match req_u64(n, "created_time") {
        Ok(v) => v,
        Err(e) => return Err(e),
    };
    let feedback = match get_req(n, "feedback") {
        Ok(v) => v,
        Err(e) => return Err(e),
    };
    let reactors = match get_req(feedback, "reactors") {
        Ok(v) => v,
        Err(e) => return Err(e),
    };
    let reactions = match req_u64(reactors, "count") {
        Ok(v) => v,
        Err(e) => return Err(e),
    };
    let url = match req_string(n, "url") {
        Ok(s) => s,
        Err(e) => return Err(e),
    };
    let timestamp = match format_epoch(created) {
        Some(t) => t,
        None => return Err(SchemaError),
    };
    let rec = Record {
        id,
        author_id,
        author_name,
        author_gender: opt_string_path(n, "author", "gender"),
        timestamp,
        reactions,
        url,
        comment: opt_string_path(n, "body", "text"),
    };
    Ok(rec)
}

/// Walks a well-shaped document's edge list and builds its rows, in input
/// order; fails on the first edge that does not match the schema.
pub fn extract_records(doc: &Json) -> (r: Result<Vec<Record>, SchemaError>)
    ensures
        match r {
            Ok(v) => {
                &&& doc_records(doc@) matches Some(rows)
                &&& v@.map_values(|rec: Record| rec@) == rows
                &&& forall|i: int| 0 <= i < v@.len() ==> text_clean(#[trigger] v@[i]@.timestamp)
            },
            Err(_) => doc_records(doc@) is None,
        },
{
    let d = match get_req(doc, "data") {
        Ok(v) => v,
        Err(e) => return Err(e),
    };
    let f = match get_req(d, "feedback") {
        Ok(v) => v,
        Err(e) => return Err(e),
    };
    let dc = match get_req(f, "display_comments") {
        Ok(v) => v,
        Err(e) => return Err(e),
    };
    let ev = match get_req(dc, "edges") {
        Ok(v) => v,
        Err(e) => return Err(e),
    };
    let edges: &Vec<Json> = match ev.as_arr() {
        Some(a) => a,
        None => return Err(SchemaError),
    };
    proof {
        crate::json::lemma_arr_view(edges@);
    }
    let ghost es: Seq<JsonModel> = arr_view(edges@);
    let n = edges.len();
    let mut out: Vec<Record> = Vec::new();
    let mut i: usize = 0;
    while i < n
        invariant
            n == edges@.len(),
            i <= n,
            es == arr_view(edges@),
            es.len() == n,
            forall|k: int| 0 <= k < n ==> es[k] == jview(edges@[k]),
            doc_edges(doc@) == Some(es),
            edges_records(es.take(i as int)) == Some(out@.map_values(|rec: Record| rec@)),
            forall|k: int| 0 <= k < out@.len() ==> text_clean(#[trigger] out@[k]@.timestamp),
        decreases n - i,
    {
        let e = &edges[i];
        let node = match e.get("node") {
            Some(nd) => nd,
            None => {
                proof {
                    lemma_edges_records_fail(es, i as int);
                }
                return Err(SchemaError);
            },
        };
        let rec = match extract_node(node) {
            Ok(rec) => rec,
            Err(_) => {
                proof {
                    lemma_edges_records_fail(es, i as int);
                }
                return Err(SchemaError);
            },
        };
        proof {
            let ghost prev = out@.map_values(|rec: Record| rec@);
            assert(es.take(i + 1).drop_last() =~= es.take(i as int));
            assert(es.take(i + 1).last() == es[i as int]);
            assert(edge_record(es[i as int]) == Some(rec@));
        }
        let ghost prev = out@;
        out.push(rec);
        proof {
            assert(out@.map_values(|rec: Record| rec@) =~= prev.map_values(
                |rec: Record| rec@,
            ).push(rec@));
        }
        i = i + 1;
    }
    proof {
        assert(es.take(n as int) =~= es);
    }
    Ok(out)
}

/// What one file's bytes yield.
pub enum FileOutcome {
    /// The buffer was not JSON at all; it contributes no rows and the run
    /// goes on.
    Skipped,
    /// The rows of a well-shaped document, one per edge, in input order.
    Rows(Vec<Record>),
}

/// Runs one file's bytes through the whole extraction step. The parser
/// works on the buffer in place and may scramble it.
///
/// The outcome is `Skipped` exactly when the bytes are not JSON. For a
/// document that parses, the rows are the extraction of the parsed tree's
/// model — stated here as an existential, because for a document in which
/// some object repeats a key the parser does not pin that model down (see
/// [`json_doc_of`]); for the well-behaved documents, whose keys are unique,
/// the witness is `json_doc_of` of the bytes itself. The exact, two-sided
/// extraction contract lives on [`extract_records`], which takes the
/// parsed tree as its argument.
pub fn extract_file(buf: &mut Vec<u8>) -> (r: Result<FileOutcome, SchemaError>)
    ensures
        match r {
            Ok(out) => match json_doc_of(old(buf)@) {
                None => out is Skipped,
                Some(m) => {
                    &&& !(out is Skipped)
                    &&& out matches FileOutcome::Rows(v) ==> {
                        &&& exists|doc: JsonModel|
                            #[trigger] doc_records(doc) == Some(
                                v@.map_values(|rec: Record| rec@),
                            )
                        &&& forall|i: int|
                            0 <= i < v@.len() ==> text_clean(#[trigger] v@[i]@.timestamp)
                    }
                },
            },
            Err(_) => json_doc_of(old(buf)@) is Some,
        },
{
    match parse_document(buf) {
        None => Ok(FileOutcome::Skipped),
        Some(doc) => match extract_records(&doc) {
            Ok(v) => {
                proof {
                    assert(doc_records(jview(doc)) == Some(
                        v@.map_values(|rec: Record| rec@),
                    ));
                }
                Ok(FileOutcome::Rows(v))
            },
            Err(e) => Err(e),
        },
    }
}

} // verus!
