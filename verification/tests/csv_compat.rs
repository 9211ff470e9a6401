use huelog::record::{encode_record, split_record};

fn csv_crate_line(fields: &[&str]) -> String {
    let mut w = csv::WriterBuilder::new().has_headers(false).from_writer(Vec::new());
    w.write_record(fields).expect("writing a record");
    w.flush().expect("flushing");
    let bytes = w.into_inner().expect("taking the buffer");
    String::from_utf8(bytes).expect("valid text")
}

fn ours(fields: &[&str]) -> String {
    let owned: Vec<String> = fields.iter().map(|f| f.to_string()).collect();
    encode_record(&owned)
}

#[test]
fn plain_fields_match_the_csv_crate() {
    let fields = ["2021-01-02T03:04:05+00:00", "1.5", "NA", "Desk lamp", "true"];
    assert_eq!(format!("{}\n", ours(&fields)), csv_crate_line(&fields));
}

#[test]
fn comma_field_is_quoted_like_the_csv_crate() {
    let fields = ["Desk, lamp", "plain"];
    assert_eq!(ours(&fields), "\"Desk, lamp\",plain");
    assert_eq!(format!("{}\n", ours(&fields)), csv_crate_line(&fields));
}

#[test]
fn quote_field_is_doubled_like_the_csv_crate() {
    let fields = ["say \"hi\"", "x"];
    assert_eq!(ours(&fields), "\"say \"\"hi\"\"\",x");
    assert_eq!(format!("{}\n", ours(&fields)), csv_crate_line(&fields));
}

#[test]
fn split_inverts_encode_on_plain_fields() {
    let fields = ["a", "", "c d", "NA", "-12"];
    let joined = ours(&fields);
    let back = split_record(&joined).expect("splitting a plain record");
    assert_eq!(back, fields.iter().map(|f| f.to_string()).collect::<Vec<String>>());
}

#[test]
fn split_reads_quoted_records() {
    assert_eq!(
        split_record("\"a,b\",c"),
        Some(vec!["a,b".to_string(), "c".to_string()])
    );
    assert_eq!(
        split_record("\"say \"\"hi\"\"\",x"),
        Some(vec!["say \"hi\"".to_string(), "x".to_string()])
    );
}

#[test]
fn split_refuses_malformed_quoting() {
    assert_eq!(split_record("\"abc"), None);
    assert_eq!(split_record("a\"b"), None);
    assert_eq!(split_record("\"a\"b"), None);
}

#[test]
fn split_inverts_encode_on_quoted_fields() {
    let fields = ["a,b", "say \"hi\"", "line\nbreak", "plain"];
    let joined = ours(&fields);
    let back = split_record(&joined).expect("splitting an encoded record");
    assert_eq!(back, fields.iter().map(|f| f.to_string()).collect::<Vec<String>>());
}

#[test]
fn split_keeps_empty_fields() {
    let back = split_record(",,").expect("splitting");
    assert_eq!(back, vec!["".to_string(), "".to_string(), "".to_string()]);
}
