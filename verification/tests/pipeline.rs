//! End-to-end runs of the extraction pipeline: bytes in, sorted CSV text out.

use feedback_csv::extract::{extract_file, FileOutcome};
use feedback_csv::sink::Sink;

fn bytes(s: &str) -> Vec<u8> {
    s.as_bytes().to_vec()
}

fn rows_of(s: &str) -> Vec<feedback_csv::record::Record> {
    let mut buf = bytes(s);
    match extract_file(&mut buf) {
        Ok(FileOutcome::Rows(v)) => v,
        Ok(FileOutcome::Skipped) => panic!("file was skipped"),
        Err(_) => panic!("file did not match the schema"),
    }
}

const FILE_A: &str = r#"{"data":{"feedback":{"display_comments":{"edges":[
    {"node":{"id":"1","url":"http://x/1","created_time":0,
             "author":{"id":"a1","name":"Alice"},
             "feedback":{"reactors":{"count":5}}}}]}}}}"#;

const FILE_B: &str = r#"{"data":{"feedback":{"display_comments":{"edges":[
    {"node":{"id":"0","url":"http://x/0","created_time":0,
             "author":{"id":"a2","name":"Bob","gender":"male"},
             "feedback":{"reactors":{"count":0}},
             "body":{"text":"hi"}}}]}}}}"#;

#[test]
fn two_files_sorted_output() {
    let mut sink = Sink::new();
    sink.merge(rows_of(FILE_A));
    sink.merge(rows_of(FILE_B));
    let out = sink.finalize();
    assert_eq!(
        out,
        "0;a2;Bob;male;1970-01-01 00:00:00 UTC;0;http://x/0;hi\n\
         1;a1;Alice;;1970-01-01 00:00:00 UTC;5;http://x/1;\n"
    );
}

#[test]
fn merge_order_does_not_change_the_lines() {
    let mut first = Sink::new();
    first.merge(rows_of(FILE_A));
    first.merge(rows_of(FILE_B));
    let mut second = Sink::new();
    second.merge(rows_of(FILE_B));
    second.merge(rows_of(FILE_A));
    assert_eq!(first.finalize(), second.finalize());
}

#[test]
fn invalid_json_is_skipped() {
    let mut buf = bytes("this is not JSON {{{");
    assert!(matches!(extract_file(&mut buf), Ok(FileOutcome::Skipped)));
}

#[test]
fn skipped_file_contributes_no_lines() {
    let mut sink = Sink::new();
    let mut buf = bytes("][");
    match extract_file(&mut buf) {
        Ok(FileOutcome::Skipped) => {}
        _ => panic!("garbage bytes must be skipped"),
    }
    sink.merge(rows_of(FILE_A));
    let out = sink.finalize();
    assert_eq!(out.lines().count(), 1);
}

#[test]
fn missing_author_id_is_fatal() {
    let text = r#"{"data":{"feedback":{"display_comments":{"edges":[
        {"node":{"id":"1","url":"http://x/1","created_time":0,
                 "author":{"name":"Alice"},
                 "feedback":{"reactors":{"count":5}}}}]}}}}"#;
    let mut buf = bytes(text);
    assert!(extract_file(&mut buf).is_err());
}

#[test]
fn missing_edges_path_is_fatal() {
    let mut buf = bytes(r#"{"data":{"feedback":{}}}"#);
    assert!(extract_file(&mut buf).is_err());
}

#[test]
fn non_integer_created_time_is_fatal() {
    let text = r#"{"data":{"feedback":{"display_comments":{"edges":[
        {"node":{"id":"1","url":"http://x/1","created_time":"yesterday",
                 "author":{"id":"a1","name":"Alice"},
                 "feedback":{"reactors":{"count":5}}}}]}}}}"#;
    let mut buf = bytes(text);
    assert!(extract_file(&mut buf).is_err());
}

#[test]
fn negative_created_time_is_fatal() {
    let text = r#"{"data":{"feedback":{"display_comments":{"edges":[
        {"node":{"id":"1","url":"http://x/1","created_time":-5,
                 "author":{"id":"a1","name":"Alice"},
                 "feedback":{"reactors":{"count":5}}}}]}}}}"#;
    let mut buf = bytes(text);
    assert!(extract_file(&mut buf).is_err());
}

#[test]
fn empty_edges_give_empty_output() {
    let mut buf = bytes(r#"{"data":{"feedback":{"display_comments":{"edges":[]}}}}"#);
    let mut sink = Sink::new();
    match extract_file(&mut buf) {
        Ok(FileOutcome::Rows(v)) => {
            assert_eq!(v.len(), 0);
            sink.merge(v);
        }
        _ => panic!("an empty edge list is still a well-shaped document"),
    }
    assert_eq!(sink.finalize(), "");
}

#[test]
fn null_gender_renders_empty() {
    let text = r#"{"data":{"feedback":{"display_comments":{"edges":[
        {"node":{"id":"9","url":"u","created_time":0,
                 "author":{"id":"a","name":"N","gender":null},
                 "feedback":{"reactors":{"count":1}}}}]}}}}"#;
    let rows = rows_of(text);
    assert_eq!(rows.len(), 1);
    assert!(rows[0].author_gender.is_none());
    assert_eq!(rows[0].render_line(), "9;a;N;;1970-01-01 00:00:00 UTC;1;u;");
}

#[test]
fn duplicate_ids_pass_through() {
    let text = r#"{"data":{"feedback":{"display_comments":{"edges":[
        {"node":{"id":"7","url":"first","created_time":0,
                 "author":{"id":"a","name":"A"},
                 "feedback":{"reactors":{"count":1}}}},
        {"node":{"id":"7","url":"second","created_time":0,
                 "author":{"id":"b","name":"B"},
                 "feedback":{"reactors":{"count":2}}}}]}}}}"#;
    let mut sink = Sink::new();
    sink.merge(rows_of(text));
    let out = sink.finalize();
    let lines: Vec<&str> = out.lines().collect();
    assert_eq!(lines.len(), 2);
    assert!(lines[0].starts_with("7;"));
    assert!(lines[1].starts_with("7;"));
}

#[test]
fn ids_sort_byte_wise_not_numerically() {
    let text = r#"{"data":{"feedback":{"display_comments":{"edges":[
        {"node":{"id":"9","url":"u9","created_time":0,
                 "author":{"id":"a","name":"A"},
                 "feedback":{"reactors":{"count":0}}}},
        {"node":{"id":"10","url":"u10","created_time":0,
                 "author":{"id":"b","name":"B"},
                 "feedback":{"reactors":{"count":0}}}}]}}}}"#;
    let mut sink = Sink::new();
    sink.merge(rows_of(text));
    let out = sink.finalize();
    let lines: Vec<&str> = out.lines().collect();
    assert!(lines[0].starts_with("10;"));
    assert!(lines[1].starts_with("9;"));
}

#[test]
fn many_ids_come_out_sorted() {
    let text = r#"{"data":{"feedback":{"display_comments":{"edges":[
        {"node":{"id":"b","url":"u","created_time":0,
                 "author":{"id":"a","name":"A"},
                 "feedback":{"reactors":{"count":0}}}},
        {"node":{"id":"c","url":"u","created_time":0,
                 "author":{"id":"a","name":"A"},
                 "feedback":{"reactors":{"count":0}}}},
        {"node":{"id":"a","url":"u","created_time":0,
                 "author":{"id":"a","name":"A"},
                 "feedback":{"reactors":{"count":0}}}}]}}}}"#;
    let mut sink = Sink::new();
    sink.merge(rows_of(text));
    let out = sink.finalize();
    let firsts: Vec<char> = out.lines().filter_map(|l| l.chars().next()).collect();
    assert_eq!(firsts, vec!['a', 'b', 'c']);
}

#[test]
fn every_line_has_eight_fields() {
    let mut sink = Sink::new();
    sink.merge(rows_of(FILE_A));
    sink.merge(rows_of(FILE_B));
    let out = sink.finalize();
    for line in out.lines() {
        assert_eq!(line.split(';').count(), 8);
    }
}

#[test]
fn nonzero_timestamp_renders_utc() {
    let text = r#"{"data":{"feedback":{"display_comments":{"edges":[
        {"node":{"id":"t","url":"u","created_time":1600000000,
                 "author":{"id":"a","name":"A"},
                 "feedback":{"reactors":{"count":12345}}}}]}}}}"#;
    let rows = rows_of(text);
    assert_eq!(rows[0].timestamp, "2020-09-13 12:26:40 UTC");
    assert_eq!(rows[0].render_line(), "t;a;A;;2020-09-13 12:26:40 UTC;12345;u;");
}

#[test]
fn valid_json_of_the_wrong_shape_is_fatal() {
    let mut buf = bytes("[1,2,3]");
    assert!(extract_file(&mut buf).is_err());
}

#[test]
fn fractional_created_time_is_fatal() {
    let text = r#"{"data":{"feedback":{"display_comments":{"edges":[
        {"node":{"id":"1","url":"u","created_time":1.5,
                 "author":{"id":"a","name":"A"},
                 "feedback":{"reactors":{"count":0}}}}]}}}}"#;
    let mut buf = bytes(text);
    assert!(extract_file(&mut buf).is_err());
}

#[test]
fn repeated_key_in_a_small_object_keeps_the_first_entry() {
    let text = r#"{"data":{"feedback":{"display_comments":{"edges":[
        {"node":{"id":"r","url":"first","url":"second","created_time":0,
                 "author":{"id":"a","name":"A"},
                 "feedback":{"reactors":{"count":0}}}}]}}}}"#;
    let rows = rows_of(text);
    assert_eq!(rows.len(), 1);
    assert_eq!(rows[0].url, "first");
}
