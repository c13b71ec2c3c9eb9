use micro_http_async::form::{
    classify, fields_of_pairs, kind_of_form, pattern_for, separator, utf8_bytes, FormKind,
    MultipartScanner, RowKind, BOUNDARY_PATTERN, QUOTED_PATTERN,
};
use micro_http_async::request::{ParseError, PeerAddr, Request};
use micro_http_async::text::to_chars;

fn parse(text: &str) -> Result<Request, ParseError> {
    Request::new(String::from(text), PeerAddr { host: String::from("::1"), port: 1 }, false)
}

fn rows(lines: &[&str]) -> Vec<Vec<char>> {
    lines.iter().map(|l| to_chars(l)).collect()
}

const DELIMITER: &str = "-----------------------------179249680738152359603687021860";

fn feed(s: MultipartScanner, row: &str, found: Option<&str>) -> Result<MultipartScanner, ParseError> {
    s.feed(&to_chars(row), found.map(String::from))
}

#[test]
fn multipart_body_gives_fields_and_files() {
    let text = "POST /upload HTTP/1.1\r\n\
Content-Type: multipart/form-data; boundary=---------------------------179249680738152359603687021860\r\n\
\r\n\
-----------------------------179249680738152359603687021860\r\n\
Content-Disposition: form-data; name=\"name\"\r\n\
\r\n\
Bob\r\n\
-----------------------------179249680738152359603687021860\r\n\
Content-Disposition: form-data; name=\"file1\"; filename=\"a.txt\"\r\n\
Content-Type: text/plain\r\n\
\r\n\
hello\r\nworld\r\n\
-----------------------------179249680738152359603687021860--";
    let q = parse(text).unwrap();
    assert_eq!(q.post_request.len(), 2);
    let name = q.post_request.get("name").unwrap();
    assert_eq!(name.name, "name");
    assert_eq!(name.file_name, "");
    assert_eq!(name.data, b"Bob".to_vec());
    let file = q.post_request.get("file1").unwrap();
    assert_eq!(file.name, "file1");
    assert_eq!(file.file_name, "a.txt");
    assert_eq!(file.data, b"hello\nworld".to_vec());
}

#[test]
fn urlencoded_wins_over_multipart() {
    let q = parse(
        "POST / HTTP/1.1\r\nContent-Type: multipart/form-data\r\nContent-Type: application/x-www-form-urlencoded\r\n\r\na=b",
    )
    .unwrap();
    assert_eq!(q.post_request.get("a").unwrap().data, b"b".to_vec());
    assert_eq!(
        kind_of_form(&rows(&["Content-Type: multipart/form-data", "Content-Type: application/x-www-form-urlencoded"])),
        FormKind::UrlEncoded
    );
    assert_eq!(kind_of_form(&rows(&["Content-Type: multipart/form-data"])), FormKind::Multipart);
    assert_eq!(kind_of_form(&rows(&["Content-Type: multipart/form-data "])), FormKind::Absent);
    assert_eq!(kind_of_form(&rows(&[])), FormKind::Absent);
}

#[test]
fn separator_is_first_empty_row() {
    assert_eq!(separator(&rows(&["a", "", "b", ""])), Some(1));
    assert_eq!(separator(&rows(&["", "a"])), Some(0));
    assert_eq!(separator(&rows(&["a", "b"])), None);
    assert_eq!(separator(&rows(&[])), None);
}

#[test]
fn boundary_row_without_value_is_an_error() {
    let r = parse(
        "POST / HTTP/1.1\r\nContent-Type: multipart/form-data\r\n\r\n-----------------------------x\r\n",
    );
    assert_eq!(r.err(), Some(ParseError::MalformedMultipart));
}

#[test]
fn attribute_row_without_quotes_is_an_error() {
    let text = format!(
        "POST / HTTP/1.1\r\nContent-Type: multipart/form-data\r\n\r\n{}\r\nname=plain\r\n",
        DELIMITER
    );
    assert_eq!(parse(&text).err(), Some(ParseError::MalformedMultipart));
}

#[test]
fn multipart_without_payload_is_an_error() {
    let r = parse("POST / HTTP/1.1\r\nContent-Type: multipart/form-data\r\n");
    assert_eq!(r.err(), Some(ParseError::ShortPayload));
    let text = format!(
        "POST / HTTP/1.1\r\nContent-Type: multipart/form-data\r\n\r\n{}\r\n{}",
        DELIMITER, DELIMITER
    );
    assert_eq!(parse(&text).err(), Some(ParseError::ShortPayload));
}

#[test]
fn rows_before_first_boundary_are_skipped() {
    let text = format!(
        "POST / HTTP/1.1\r\nContent-Type: multipart/form-data\r\n\r\nignored\r\n{}\r\n name=\"key\"\r\n\r\nvalue\r\n{}--",
        DELIMITER, DELIMITER
    );
    let q = parse(&text).unwrap();
    assert_eq!(q.post_request.len(), 1);
    assert_eq!(q.post_request.get("key").unwrap().data, b"value".to_vec());
}

#[test]
fn rows_are_classified() {
    assert_eq!(classify(false, &to_chars(DELIMITER)), RowKind::Boundary);
    assert_eq!(classify(true, &to_chars(DELIMITER)), RowKind::Boundary);
    assert_eq!(classify(true, &to_chars("----------------------------1")), RowKind::Payload);
    assert_eq!(classify(false, &to_chars("anything name=\"x\"")), RowKind::Skipped);
    assert_eq!(classify(true, &to_chars("Content-Disposition: form-data")), RowKind::Skipped);
    assert_eq!(classify(true, &to_chars("Content-Disposition: attachment name=")), RowKind::Skipped);
    assert_eq!(classify(true, &to_chars(" name=\"a\" filename=\"b\"")), RowKind::FileName);
    assert_eq!(classify(true, &to_chars(" name=\"a\"")), RowKind::Name);
    assert_eq!(classify(true, &to_chars("Content-Type: text/plain")), RowKind::Skipped);
    assert_eq!(classify(true, &to_chars("")), RowKind::Payload);
    assert_eq!(classify(true, &to_chars("some data")), RowKind::Payload);
}

#[test]
fn patterns_belong_to_kinds() {
    assert_eq!(pattern_for(RowKind::Boundary), Some(BOUNDARY_PATTERN));
    assert_eq!(pattern_for(RowKind::FileName), Some(QUOTED_PATTERN));
    assert_eq!(pattern_for(RowKind::Name), Some(QUOTED_PATTERN));
    assert_eq!(pattern_for(RowKind::Payload), None);
    assert_eq!(pattern_for(RowKind::Skipped), None);
}

#[test]
fn scanner_records_a_new_boundary() {
    let s = MultipartScanner::new();
    assert_eq!(s.kind(&to_chars(DELIMITER)), RowKind::Boundary);
    let s = feed(s, DELIMITER, Some("1792")).unwrap();
    assert_eq!(s.boundary, to_chars("1792"));
    assert!(s.data.is_empty());
    assert!(s.fields.is_empty());
    let s = feed(s, DELIMITER, Some("1793")).unwrap();
    assert_eq!(s.boundary, to_chars("1793"));
    assert!(s.fields.is_empty());
}

#[test]
fn scanner_needs_a_match_on_boundary_and_attribute_rows() {
    let s = MultipartScanner::new();
    assert_eq!(feed(s, DELIMITER, None).err(), Some(ParseError::MalformedMultipart));
    let s = feed(MultipartScanner::new(), DELIMITER, Some("b")).unwrap();
    assert_eq!(feed(s, " name=x", None).err(), Some(ParseError::MalformedMultipart));
    let s = feed(MultipartScanner::new(), DELIMITER, Some("b")).unwrap();
    assert_eq!(feed(s, " filename=x", None).err(), Some(ParseError::MalformedMultipart));
}

#[test]
fn scanner_strips_quotes_from_attributes() {
    let s = feed(MultipartScanner::new(), DELIMITER, Some("b")).unwrap();
    let s = feed(s, " name=\"field\"", Some("\"field\"")).unwrap();
    assert_eq!(s.name, to_chars("field"));
    let s = feed(s, " filename=\"a\"b.txt\"", Some("\"a\"b.txt\"")).unwrap();
    assert_eq!(s.file_name, to_chars("ab.txt"));
    assert_eq!(s.name, to_chars("field"));
}

#[test]
fn scanner_gathers_payload_rows_with_line_feeds() {
    let s = feed(MultipartScanner::new(), DELIMITER, Some("b")).unwrap();
    let s = feed(s, "", None).unwrap();
    let s = feed(s, "ab", Some("ignored")).unwrap();
    let s = feed(s, "\u{e9}", None).unwrap();
    assert_eq!(s.data, vec![b'\n', b'a', b'b', b'\n', 0xc3, 0xa9, b'\n']);
}

#[test]
fn scanner_ignores_rows_outside_and_headers_inside() {
    let s = feed(MultipartScanner::new(), "payload?", None).unwrap();
    assert!(s.data.is_empty());
    let s = feed(s, DELIMITER, Some("b")).unwrap();
    let s = feed(s, "Content-Disposition: form-data", None).unwrap();
    let s = feed(s, "Content-Type: image/png", None).unwrap();
    assert!(s.data.is_empty());
    assert!(s.name.is_empty());
}

#[test]
fn scanner_flushes_on_repeated_boundary() {
    let s = feed(MultipartScanner::new(), DELIMITER, Some("b")).unwrap();
    let s = feed(s, " name=\"n\"", Some("\"n\"")).unwrap();
    let s = feed(s, " filename=\"f\"", Some("\"f\"")).unwrap();
    let s = feed(s, "", None).unwrap();
    let s = feed(s, "xyz", None).unwrap();
    let s = feed(s, DELIMITER, Some("b")).unwrap();
    assert_eq!(s.boundary, to_chars("b"));
    assert!(s.name.is_empty());
    assert!(s.file_name.is_empty());
    assert!(s.data.is_empty());
    assert_eq!(s.fields.len(), 1);
    let f = s.fields.get("n").unwrap();
    assert_eq!(f.name, "n");
    assert_eq!(f.file_name, "f");
    assert_eq!(f.data, b"xyz".to_vec());
}

#[test]
fn scanner_flush_trims_one_byte_at_each_end() {
    let mut s = MultipartScanner::new();
    s.name = to_chars("k");
    s.data = vec![1, 2, 3, 4];
    let fields = s.finish().unwrap();
    assert_eq!(fields.get("k").unwrap().data, vec![2, 3]);
    let mut s = MultipartScanner::new();
    s.data = vec![1, 2];
    let fields = s.finish().unwrap();
    assert_eq!(fields.get("").unwrap().data, Vec::<u8>::new());
    let mut s = MultipartScanner::new();
    s.data = vec![1];
    assert_eq!(s.finish().err(), Some(ParseError::ShortPayload));
    assert_eq!(MultipartScanner::new().flush().err(), Some(ParseError::ShortPayload));
}

#[test]
fn pairs_become_fields() {
    let fields = fields_of_pairs(&rows(&["a=1", "b=2=3", "a=4", "=x"])).unwrap();
    assert_eq!(fields.len(), 3);
    assert_eq!(fields.get("a").unwrap().data, b"4".to_vec());
    assert_eq!(fields.get("b").unwrap().data, b"2".to_vec());
    assert_eq!(fields.get("").unwrap().data, b"x".to_vec());
    assert_eq!(fields.get("a").unwrap().name, "a");
    assert_eq!(fields.get("a").unwrap().file_name, "");
    assert_eq!(fields_of_pairs(&rows(&["a=1", "b"])).err(), Some(ParseError::MalformedPair));
    assert!(fields_of_pairs(&rows(&[])).unwrap().is_empty());
}

#[test]
fn text_is_encoded_as_utf8() {
    assert_eq!(utf8_bytes(&to_chars("a\u{e9}\u{20ac}")), vec![0x61, 0xc3, 0xa9, 0xe2, 0x82, 0xac]);
    assert_eq!(utf8_bytes(&to_chars("")), Vec::<u8>::new());
}

#[test]
fn boundary_value_runs_to_the_end_of_the_row() {
    let text = format!(
        "POST / HTTP/1.1\r\nContent-Type: multipart/form-data\r\n\r\n{}\r\n name=\"aa\"\r\n\r\n1\r\n{}\r\n name=\"bb\"\r\n\r\n2\r\n{}--\r\n",
        DELIMITER, DELIMITER, DELIMITER
    );
    let q = parse(&text).unwrap();
    assert_eq!(q.post_request.len(), 2);
    assert_eq!(q.post_request.get("aa").unwrap().data, b"1".to_vec());
    assert_eq!(q.post_request.get("bb").unwrap().data, b"2\n".to_vec());
}

#[test]
fn quoted_value_of_one_letter_is_not_matched() {
    let text = format!(
        "POST / HTTP/1.1\r\nContent-Type: multipart/form-data\r\n\r\n{}\r\n name=\"k\"\r\n\r\nvalue\r\n{}--",
        DELIMITER, DELIMITER
    );
    assert_eq!(parse(&text).err(), Some(ParseError::MalformedMultipart));
}
