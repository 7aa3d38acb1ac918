//! End-to-end tests over hand-assembled BSON byte streams.

use bsondump::num_found_message;
use bsondump::reader::raw_document_bufs;
use bsondump::reader::ReadError;
use bsondump::sizes::count_document_bytes;
use bsondump::BsonDump;

/// The minimal empty document: a 4-byte length prefix and a null byte.
fn empty_doc() -> Vec<u8> {
    vec![5, 0, 0, 0, 0]
}

/// The document `{"a": "hi"}`.
fn a_hi_doc() -> Vec<u8> {
    vec![
        15, 0, 0, 0, // total length 15
        0x02, b'a', 0, // string element named "a"
        3, 0, 0, 0, b'h', b'i', 0, // "hi" with length prefix and terminator
        0, // document terminator
    ]
}

/// The document `{"d": {"x": 1}}`.
fn nested_doc() -> Vec<u8> {
    vec![
        20, 0, 0, 0, // total length 20
        0x03, b'd', 0, // embedded document named "d"
        12, 0, 0, 0, // inner length 12
        0x10, b'x', 0, // int32 element named "x"
        1, 0, 0, 0, // value 1
        0, // inner terminator
        0, // outer terminator
    ]
}

fn run_json(input: Vec<u8>, objcheck: bool) -> (Result<u32, bsondump::BsonDumpError>, String) {
    let mut dump = BsonDump::new(input, objcheck);
    let r = dump.json();
    (r, String::from_utf8(dump.output).expect("output is UTF-8"))
}

fn run_debug(input: Vec<u8>, objcheck: bool) -> (Result<u32, bsondump::BsonDumpError>, String) {
    let mut dump = BsonDump::new(input, objcheck);
    let r = dump.debug();
    (r, String::from_utf8(dump.output).expect("output is UTF-8"))
}

#[test]
fn empty_stream_is_a_clean_end() {
    let (r, out) = run_json(Vec::new(), true);
    assert_eq!(r.unwrap(), 0);
    assert_eq!(out, "");
    assert_eq!(num_found_message(0), "0 objects found");
}

#[test]
fn empty_document_decodes() {
    let (r, out) = run_json(empty_doc(), true);
    assert_eq!(r.unwrap(), 1);
    assert_eq!(out, "{}\n");
}

#[test]
fn empty_document_debug_block() {
    let (r, out) = run_debug(empty_doc(), true);
    assert_eq!(r.unwrap(), 1);
    assert_eq!(out, "--- new object ---\n\tsize : 5\n");
}

#[test]
fn three_empty_documents_json_lines() {
    let mut input = empty_doc();
    input.extend_from_slice(&empty_doc());
    input.extend_from_slice(&empty_doc());
    assert_eq!(input.len(), 15);
    let (r, out) = run_json(input, true);
    assert_eq!(r.unwrap(), 3);
    assert_eq!(out, "{}\n{}\n{}\n");
}

#[test]
fn three_empty_documents_debug_blocks() {
    let mut input = empty_doc();
    input.extend_from_slice(&empty_doc());
    input.extend_from_slice(&empty_doc());
    let (r, out) = run_debug(input, true);
    let n = r.unwrap();
    assert_eq!(n, 3);
    let block = "--- new object ---\n\tsize : 5\n";
    assert_eq!(out, format!("{}{}{}", block, block, block));
    assert_eq!(num_found_message(n), "3 objects found");
}

#[test]
fn string_field_sizes_in_debug() {
    let (r, out) = run_debug(a_hi_doc(), true);
    assert_eq!(r.unwrap(), 1);
    // field total: 1 (tag) + 2 (name with terminator) + 7 (string) = 10
    assert_eq!(
        out,
        "--- new object ---\n\tsize : 15\n\t\ta\n\t\t\ttype:    2 size: 10\n"
    );
}

#[test]
fn string_field_json() {
    let (r, out) = run_json(a_hi_doc(), true);
    assert_eq!(r.unwrap(), 1);
    assert_eq!(out, "{\"a\":\"hi\"}\n");
}

#[test]
fn nested_document_debug_trace() {
    let (r, out) = run_debug(nested_doc(), true);
    assert_eq!(r.unwrap(), 1);
    let expected = "--- new object ---\n\
                    \tsize : 20\n\
                    \t\td\n\
                    \t\t\ttype:    3 size: 15\n\
                    \t\t\t--- new object ---\n\
                    \t\t\t\tsize : 12\n\
                    \t\t\t\t\tx\n\
                    \t\t\t\t\t\ttype:   16 size: 7\n";
    assert_eq!(out, expected);
}

/// The document `{"r": /ab/i}`.
fn regex_doc() -> Vec<u8> {
    vec![
        13, 0, 0, 0, // total length 13
        0x0B, b'r', 0, // regex element named "r"
        b'a', b'b', 0, // pattern "ab"
        b'i', 0, // options "i"
        0, // document terminator
    ]
}

/// The document `{"b": Binary(subtype 0, [1, 2, 3])}`.
fn binary_doc() -> Vec<u8> {
    vec![
        16, 0, 0, 0, // total length 16
        0x05, b'b', 0, // binary element named "b"
        3, 0, 0, 0, // payload length 3
        0, // subtype
        1, 2, 3, // payload
        0, // document terminator
    ]
}

/// The document `{"r": ["hi"]}`.
fn array_doc() -> Vec<u8> {
    vec![
        23, 0, 0, 0, // total length 23
        0x04, b'r', 0, // array element named "r"
        15, 0, 0, 0, // array span length 15
        0x02, b'0', 0, // string element named "0"
        3, 0, 0, 0, b'h', b'i', 0, // "hi"
        0, // array terminator
        0, // document terminator
    ]
}

#[test]
fn regex_field_uses_string_rule_sizes() {
    // the accountant counts both regex components with length prefixes:
    // 1 (tag) + 2 (name) + (4+2+1) + (4+1+1) = 16, though the wire
    // stores only 13 bytes for the whole document
    let (r, out) = run_debug(regex_doc(), true);
    assert_eq!(r.unwrap(), 1);
    assert_eq!(
        out,
        "--- new object ---\n\tsize : 13\n\t\tr\n\t\t\ttype:   11 size: 16\n"
    );
    // the documented over-count of four bytes per component shows in the
    // document total as well
    assert_eq!(count_document_bytes(&regex_doc()).unwrap(), 21);
}

#[test]
fn binary_field_sizes_in_debug() {
    let (r, out) = run_debug(binary_doc(), true);
    assert_eq!(r.unwrap(), 1);
    // 1 (tag) + 2 (name) + (4 + 1 + 3) = 11
    assert_eq!(
        out,
        "--- new object ---\n\tsize : 16\n\t\tb\n\t\t\ttype:    5 size: 11\n"
    );
    assert_eq!(count_document_bytes(&binary_doc()).unwrap(), 16);
}

#[test]
fn array_debug_trace_uses_index_names() {
    let (r, out) = run_debug(array_doc(), true);
    assert_eq!(r.unwrap(), 1);
    let expected = "--- new object ---\n\
                    \tsize : 23\n\
                    \t\tr\n\
                    \t\t\ttype:    4 size: 18\n\
                    \t\t\t--- new object ---\n\
                    \t\t\t\tsize : 15\n\
                    \t\t\t\t\t0\n\
                    \t\t\t\t\t\ttype:    2 size: 10\n";
    assert_eq!(out, expected);
}

#[test]
fn array_json() {
    let (r, out) = run_json(array_doc(), true);
    assert_eq!(r.unwrap(), 1);
    assert_eq!(out, "{\"r\":[\"hi\"]}\n");
}

#[test]
fn pretty_json_of_empty_document() {
    let mut dump = BsonDump::new(empty_doc(), true);
    let r = dump.pretty_json();
    assert_eq!(r.unwrap(), 1);
    assert_eq!(String::from_utf8(dump.output).unwrap(), "{}\n");
}

#[test]
fn nested_document_json() {
    let (r, out) = run_json(nested_doc(), true);
    assert_eq!(r.unwrap(), 1);
    assert_eq!(out, "{\"d\":{\"x\":{\"$numberInt\":\"1\"}}}\n");
}

#[test]
fn pretty_json_uses_tab_indent() {
    let mut dump = BsonDump::new(a_hi_doc(), true);
    let r = dump.pretty_json();
    assert_eq!(r.unwrap(), 1);
    let out = String::from_utf8(dump.output).expect("output is UTF-8");
    assert_eq!(out, "{\n\t\"a\": \"hi\"\n}\n");
}

#[test]
fn debug_twice_is_identical() {
    let mut input = a_hi_doc();
    input.extend_from_slice(&nested_doc());
    input.extend_from_slice(&empty_doc());
    let (r1, out1) = run_debug(input.clone(), false);
    let (r2, out2) = run_debug(input, false);
    assert_eq!(r1.unwrap(), r2.unwrap());
    assert_eq!(out1, out2);
}

#[test]
fn declared_length_four_is_too_small() {
    let (r, out) = run_json(vec![4, 0, 0, 0], false);
    let e = r.unwrap_err();
    assert_eq!(e.get_num_found(), 0);
    assert_eq!(e.get_message(), "(16793600, 4, Too small nelly)");
    assert_eq!(out, "");
}

#[test]
fn negative_declared_length_is_too_small() {
    // 0xFFFFFFFF read as a signed length is -1
    let (r, _) = run_json(vec![0xFF, 0xFF, 0xFF, 0xFF], false);
    let e = r.unwrap_err();
    assert_eq!(e.get_num_found(), 0);
    assert_eq!(e.get_message(), "(16793600, -1, Too small nelly)");
}

#[test]
fn declared_length_above_maximum_is_too_large() {
    // 16793601 = 0x01004001, one byte above the maximum
    let (r, out) = run_debug(vec![0x01, 0x40, 0x00, 0x01], false);
    let e = r.unwrap_err();
    assert_eq!(e.get_num_found(), 0);
    assert_eq!(e.get_message(), "(16793600, 16793601, Woah nelly)");
    assert_eq!(out, "");
}

#[test]
fn truncated_length_prefix_is_fatal() {
    let mut input = empty_doc();
    input.extend_from_slice(&[7, 0]);
    let (r, out) = run_json(input, false);
    let e = r.unwrap_err();
    assert_eq!(e.get_num_found(), 1);
    assert_eq!(
        e.get_message(),
        "unexpected end of stream while reading document length"
    );
    assert_eq!(out, "{}\n");
}

#[test]
fn truncated_second_document_stops_after_first() {
    // the second record declares 10 bytes but the stream ends after 7
    let mut input = a_hi_doc();
    input.extend_from_slice(&[10, 0, 0, 0, 1, 2, 3]);
    let (r, out) = run_json(input, true);
    let e = r.unwrap_err();
    assert_eq!(e.get_num_found(), 1);
    assert_eq!(
        e.get_message(),
        "unexpected end of stream while reading document body"
    );
    assert_eq!(out, "{\"a\":\"hi\"}\n");
}

#[test]
fn corrupt_document_is_skipped_without_objcheck() {
    // a record with a valid length whose single tag byte is invalid
    let corrupt = vec![6, 0, 0, 0, 0x99, 0];
    let mut input = empty_doc();
    input.extend_from_slice(&corrupt);
    input.extend_from_slice(&a_hi_doc());
    let (r, out) = run_json(input, false);
    assert_eq!(r.unwrap(), 2);
    assert_eq!(out, "{}\n{\"a\":\"hi\"}\n");
}

#[test]
fn corrupt_document_stops_run_with_objcheck() {
    let corrupt = vec![6, 0, 0, 0, 0x99, 0];
    let mut input = empty_doc();
    input.extend_from_slice(&corrupt);
    input.extend_from_slice(&a_hi_doc());
    let (r, out) = run_json(input, true);
    let e = r.unwrap_err();
    assert_eq!(e.get_num_found(), 1);
    assert_eq!(out, "{}\n");
}

#[test]
fn reader_splits_records() {
    let mut input = empty_doc();
    input.extend_from_slice(&a_hi_doc());
    let mut rdr = raw_document_bufs(&input);
    assert_eq!(rdr.next().unwrap().unwrap(), empty_doc());
    assert_eq!(rdr.next().unwrap().unwrap(), a_hi_doc());
    assert!(rdr.next().is_none());
}

#[test]
fn reader_reports_size_bound_errors() {
    let input = vec![3, 0, 0, 0, 9, 9, 9];
    let mut rdr = raw_document_bufs(&input);
    match rdr.next().unwrap() {
        Err(ReadError::TooSmall { size }) => assert_eq!(size, 3),
        other => panic!("expected a too-small failure, got {:?}", other),
    }
}

#[test]
fn size_accountant_total_matches_span_length() {
    assert_eq!(count_document_bytes(&empty_doc()).unwrap(), 5);
    assert_eq!(count_document_bytes(&a_hi_doc()).unwrap(), 15);
    assert_eq!(count_document_bytes(&nested_doc()).unwrap(), 20);
}

#[test]
fn num_found_message_renders_count() {
    assert_eq!(num_found_message(0), "0 objects found");
    assert_eq!(num_found_message(42), "42 objects found");
}

#[test]
fn from_file_with_positional_argument_to_stdout() {
    // the file's bytes, as the process would read them, dumped as JSON text
    let mut file_bytes = a_hi_doc();
    file_bytes.extend_from_slice(&empty_doc());
    let (r, out) = run_json(file_bytes, false);
    assert_eq!(r.unwrap(), 2);
    assert_eq!(out, "{\"a\":\"hi\"}\n{}\n");
}

#[test]
fn from_file_with_positional_argument_to_file() {
    // the same dump, with the output bytes kept for a destination file
    let mut file_bytes = nested_doc();
    file_bytes.extend_from_slice(&a_hi_doc());
    let mut dump = BsonDump::new(file_bytes, false);
    let r = dump.json();
    assert_eq!(r.unwrap(), 2);
    let written = dump.output;
    assert_eq!(
        String::from_utf8(written).unwrap(),
        "{\"d\":{\"x\":{\"$numberInt\":\"1\"}}}\n{\"a\":\"hi\"}\n"
    );
}

#[test]
fn bsondump_max_bson_size() {
    // a record of exactly the maximum size passes the reader
    let max = 16793600usize;
    let mut input = vec![0u8; max];
    input[0] = 0x00;
    input[1] = 0x40;
    input[2] = 0x00;
    input[3] = 0x01; // 0x01004000 = 16793600, little-endian
    let mut rdr = raw_document_bufs(&input);
    let first = rdr.next().unwrap().unwrap();
    assert_eq!(first.len(), max);
    assert!(rdr.next().is_none());

    // one byte more is rejected as too large
    let over = vec![0x01u8, 0x40, 0x00, 0x01];
    let mut rdr = raw_document_bufs(&over);
    match rdr.next().unwrap() {
        Err(ReadError::TooLarge { size }) => assert_eq!(size, 16793601),
        other => panic!("expected a too-large failure, got {:?}", other),
    }
}
