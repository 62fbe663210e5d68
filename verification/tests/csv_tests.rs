use evidence_backend::csv::{parse_csv, records_from_rows, records_from_text, CsvError, CsvRecord};

fn rows(t: &str) -> Vec<Vec<String>> {
    parse_csv(t).unwrap()
}

fn owned(rs: &[&[&str]]) -> Vec<Vec<String>> {
    rs.iter().map(|r| r.iter().map(|f| f.to_string()).collect()).collect()
}

#[test]
fn plain_rows() {
    assert_eq!(rows("a,b\nc,d\n"), owned(&[&["a", "b"], &["c", "d"]]));
    assert_eq!(rows("a,b\nc,d"), owned(&[&["a", "b"], &["c", "d"]]));
    assert_eq!(rows("a,,b\n"), owned(&[&["a", "", "b"]]));
    assert_eq!(rows("a,\n"), owned(&[&["a", ""]]));
}

#[test]
fn line_ends() {
    assert_eq!(rows("a\r\nb\rc\n"), owned(&[&["a"], &["b"], &["c"]]));
}

#[test]
fn blank_lines_dropped() {
    assert_eq!(rows("a\n\n\nb\n"), owned(&[&["a"], &["b"]]));
    assert_eq!(rows(""), owned(&[]));
    assert_eq!(rows("\n\r\n"), owned(&[]));
    // a row of two empty fields is kept
    assert_eq!(rows(",\n"), owned(&[&["", ""]]));
    // a quoted empty field alone is a blank row
    assert_eq!(rows("\"\"\n"), owned(&[]));
}

#[test]
fn quoted_fields() {
    assert_eq!(rows("\"a,b\",c\n"), owned(&[&["a,b", "c"]]));
    assert_eq!(rows("\"line1\nline2\"\n"), owned(&[&["line1\nline2"]]));
    assert_eq!(rows("\"say \"\"hi\"\"\"\n"), owned(&[&["say \"hi\""]]));
    assert_eq!(rows("ab\"c,d\"e\n"), owned(&[&["abc,de"]]));
}

#[test]
fn unterminated_quote() {
    assert_eq!(parse_csv("\"abc"), Err(CsvError::UnterminatedQuote));
    assert_eq!(parse_csv("a,\"b\nc"), Err(CsvError::UnterminatedQuote));
    assert_eq!(CsvError::UnterminatedQuote.message(), "unterminated quoted field");
    assert!(records_from_text("x\n\"y").is_err());
}

#[test]
fn non_ascii_text() {
    assert_eq!(rows("점검,설비\n"), owned(&[&["점검", "설비"]]));
}

fn get<'a>(r: &'a CsvRecord, k: &str) -> Option<&'a str> {
    r.get(k).map(|s| s.as_str())
}

#[test]
fn records_with_header() {
    let recs = records_from_text("\u{feff}\u{feff}id,name\n1,pump\n2\n3,valve\n").unwrap();
    assert_eq!(recs.len(), 2);
    assert_eq!(get(&recs[0], "id"), Some("1"));
    assert_eq!(get(&recs[0], "name"), Some("pump"));
    assert_eq!(get(&recs[1], "id"), Some("3"));
    assert_eq!(get(&recs[1], "missing"), None);
    assert_eq!(recs[0].fields.len(), 2);
}

#[test]
fn duplicate_header_keeps_last() {
    let recs = records_from_text("k,k\n1,2\n").unwrap();
    assert_eq!(get(&recs[0], "k"), Some("2"));
}

#[test]
fn no_rows_no_records() {
    assert_eq!(records_from_text("").unwrap().len(), 0);
    assert_eq!(records_from_text("a,b\n").unwrap().len(), 0);
    assert_eq!(records_from_rows(&Vec::new()).len(), 0);
}

#[test]
fn write_read_roundtrip_example() {
    // every field quoted, quotes doubled, rows ended by \n
    let text = "\"a\",\"b,c\"\n\"say \"\"x\"\"\",\"\"\n\"multi\nline\"\n";
    assert_eq!(rows(text), owned(&[&["a", "b,c"], &["say \"x\"", ""], &["multi\nline"]]));
}

#[test]
fn records_keys_are_header() {
    let recs = records_from_text("a,b,c\n1,2,3\n4,5,6\n").unwrap();
    for r in &recs {
        let keys: Vec<&str> = r.fields.iter().map(|(k, _)| k.as_str()).collect();
        assert_eq!(keys, vec!["a", "b", "c"]);
    }
}
