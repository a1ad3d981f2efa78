use amadeus_core::cloudfront::fields::split;
use amadeus_core::cloudfront::number::{digit_of, parse_u64};
use amadeus_core::cloudfront::{
    held, is_comment, is_dash, is_no_status, read_fields, request_url, rows, CloudfrontRow,
    Readings, RowError,
};

fn line_of(values: &[&str]) -> String {
    values.join("\t")
}

fn sample_fields() -> Vec<&'static str> {
    vec![
        "2019-12-04",
        "21:02:31",
        "LAX1",
        "392",
        "192.0.2.100",
        "GET",
        "d111111abcdef8.cloudfront.net",
        "/index.html",
        "200",
        "-",
        "Mozilla/4.0%20(compatible)",
        "-",
        "-",
        "Hit",
        "SOX4xwn4XV6Q4rgb7XiVGOHms_BGlTAC4KyHmureZmBNrjGdRLiNIQ==",
        "d111111abcdef8.cloudfront.net",
        "https",
        "23",
        "0.001",
        "-",
        "TLSv1.2",
        "ECDHE-RSA-AES128-GCM-SHA256",
        "Hit",
        "HTTP/2.0",
        "-",
        "-",
    ]
}

#[test]
fn split_gives_the_runs_between_tabs() {
    assert_eq!(split("a\tb\tc"), vec!["a", "b", "c"]);
    assert_eq!(split(""), vec![""]);
    assert_eq!(split("\t"), vec!["", ""]);
    assert_eq!(split("a\t"), vec!["a", ""]);
    assert_eq!(split("\ta"), vec!["", "a"]);
    assert_eq!(split("a\t\tb"), vec!["a", "", "b"]);
    assert_eq!(split("no tab at all"), vec!["no tab at all"]);
    assert_eq!(split("é\tü"), vec!["é", "ü"]);
}

#[test]
fn split_is_undone_by_joining() {
    for line in ["", "\t", "a\tb", "\t\ta", "x y\tz\t"] {
        assert_eq!(split(line).join("\t"), line);
    }
}

#[test]
fn numbers_are_digits_after_at_most_one_plus() {
    assert_eq!(parse_u64("0"), Some(0));
    assert_eq!(parse_u64("392"), Some(392));
    assert_eq!(parse_u64("+7"), Some(7));
    assert_eq!(parse_u64("007"), Some(7));
    assert_eq!(parse_u64("18446744073709551615"), Some(u64::MAX));
    assert_eq!(parse_u64("18446744073709551616"), None);
    assert_eq!(parse_u64("99999999999999999999999"), None);
    assert_eq!(parse_u64(""), None);
    assert_eq!(parse_u64("+"), None);
    assert_eq!(parse_u64("++1"), None);
    assert_eq!(parse_u64("-1"), None);
    assert_eq!(parse_u64("1 "), None);
    assert_eq!(parse_u64(" 1"), None);
    assert_eq!(parse_u64("1_000"), None);
    assert_eq!(parse_u64("12a"), None);
    assert_eq!(parse_u64("١٢"), None);
}

#[test]
fn numbers_are_read_as_the_standard_library_reads_them() {
    for text in ["0", "+0", "42", "+", "", "-0", "0x10", "18446744073709551615", "18446744073709551616", "1e3"] {
        assert_eq!(parse_u64(text), text.parse::<u64>().ok(), "{}", text);
    }
}

#[test]
fn digits_have_their_value() {
    assert_eq!(digit_of('0'), Some(0));
    assert_eq!(digit_of('9'), Some(9));
    assert_eq!(digit_of('a'), None);
    assert_eq!(digit_of('/'), None);
    assert_eq!(digit_of(':'), None);
}

#[test]
fn a_dash_holds_nothing() {
    assert!(is_dash("-"));
    assert!(!is_dash("--"));
    assert!(!is_dash(""));
    assert_eq!(held("-"), None);
    assert_eq!(held("x"), Some("x".to_owned()));
    assert_eq!(held(""), Some(String::new()));
    assert!(is_no_status("000"));
    assert!(!is_no_status("0000"));
    assert!(!is_no_status("200"));
}

#[test]
fn the_address_has_a_query_unless_it_is_a_dash() {
    assert_eq!(request_url("https", "example.com", "/a/b", "-"), "https://example.com/a/b");
    assert_eq!(request_url("http", "example.com", "/a", "x=1&y=2"), "http://example.com/a?x=1&y=2");
    assert_eq!(request_url("http", "h", "/", ""), "http://h/?");
}

#[test]
fn a_line_is_read_as_a_row() {
    let row = CloudfrontRow::from_line(&line_of(&sample_fields())).unwrap();
    assert_eq!(row.time, 1_575_493_351);
    assert_eq!(row.time_nanos, 0);
    assert_eq!(row.edge_location, "LAX1");
    assert_eq!(row.response_bytes, 392);
    assert_eq!(row.remote_ip, "192.0.2.100");
    assert_eq!(row.method, "GET");
    assert_eq!(row.host, "d111111abcdef8.cloudfront.net");
    assert_eq!(row.url, "https://d111111abcdef8.cloudfront.net/index.html");
    assert_eq!(row.status, Some(200));
    assert_eq!(row.user_agent, Some("Mozilla/4.0%20(compatible)".to_owned()));
    assert_eq!(row.referer, None);
    assert_eq!(row.cookie, None);
    assert_eq!(row.result_type, "Hit");
    assert_eq!(row.request_id, "SOX4xwn4XV6Q4rgb7XiVGOHms_BGlTAC4KyHmureZmBNrjGdRLiNIQ==");
    assert_eq!(row.request_bytes, 23);
    assert_eq!(row.time_taken, "0.001");
    assert_eq!(row.forwarded_for, None);
    assert_eq!(
        row.ssl_protocol_cipher,
        Some(("TLSv1.2".to_owned(), "ECDHE-RSA-AES128-GCM-SHA256".to_owned()))
    );
    assert_eq!(row.response_result_type, "Hit");
    assert_eq!(row.http_version, "HTTP/2.0");
    assert_eq!(row.fle_status, None);
    assert_eq!(row.fle_encrypted_fields, None);
}

#[test]
fn the_time_counts_from_the_start_of_1970() {
    let mut values = sample_fields();
    values[0] = "1970-01-01";
    values[1] = "00:00:00";
    assert_eq!(CloudfrontRow::from_line(&line_of(&values)).unwrap().time, 0);
    values[1] = "00:01:01";
    assert_eq!(CloudfrontRow::from_line(&line_of(&values)).unwrap().time, 61);
    values[0] = "1969-12-31";
    values[1] = "23:59:59";
    assert_eq!(CloudfrontRow::from_line(&line_of(&values)).unwrap().time, -1);
    values[0] = "2000-03-01";
    values[1] = "12:00:00";
    assert_eq!(CloudfrontRow::from_line(&line_of(&values)).unwrap().time, 951_912_000);
}

#[test]
fn the_address_is_written_as_the_parser_writes_it() {
    let mut values = sample_fields();
    values[15] = "EXAMPLE.com";
    values[7] = "/a b";
    values[11] = "q=1";
    let row = CloudfrontRow::from_line(&line_of(&values)).unwrap();
    assert_eq!(row.url, "https://example.com/a%20b?q=1");
}

#[test]
fn an_unanswered_request_has_no_status() {
    let mut values = sample_fields();
    values[8] = "000";
    assert_eq!(CloudfrontRow::from_line(&line_of(&values)).unwrap().status, None);
    values[8] = "404";
    assert_eq!(CloudfrontRow::from_line(&line_of(&values)).unwrap().status, Some(404));
    values[8] = "999";
    assert_eq!(CloudfrontRow::from_line(&line_of(&values)).unwrap().status, Some(999));
}

#[test]
fn two_dashes_are_no_protocol_and_cipher() {
    let mut values = sample_fields();
    values[20] = "-";
    values[21] = "-";
    assert_eq!(CloudfrontRow::from_line(&line_of(&values)).unwrap().ssl_protocol_cipher, None);
    values[21] = "x";
    assert_eq!(
        CloudfrontRow::from_line(&line_of(&values)).unwrap().ssl_protocol_cipher,
        Some(("-".to_owned(), "x".to_owned()))
    );
}

#[test]
fn each_fault_of_a_line_is_told() {
    let good = sample_fields();
    assert_eq!(CloudfrontRow::from_line(""), Err(RowError::Fields));
    assert_eq!(CloudfrontRow::from_line(&line_of(&good[..25])), Err(RowError::Fields));
    let mut long = good.clone();
    long.push("more");
    assert_eq!(CloudfrontRow::from_line(&line_of(&long)), Err(RowError::Fields));
    let with = |at: usize, text: &'static str| {
        let mut values = sample_fields();
        values[at] = text;
        CloudfrontRow::from_line(&line_of(&values))
    };
    assert_eq!(with(0, "2019-13-04"), Err(RowError::Time));
    assert_eq!(with(0, "04/12/2019"), Err(RowError::Time));
    assert_eq!(with(1, "25:00:00"), Err(RowError::Time));
    assert_eq!(with(3, "many"), Err(RowError::Number));
    assert_eq!(with(17, "-1"), Err(RowError::Number));
    assert_eq!(with(5, ""), Err(RowError::Method));
    assert_eq!(with(5, "G T"), Err(RowError::Method));
    assert_eq!(with(16, "1https"), Err(RowError::Url));
    assert_eq!(with(8, "20"), Err(RowError::Status));
    assert_eq!(with(8, "099"), Err(RowError::Status));
    assert_eq!(with(8, "2x0"), Err(RowError::Status));
}

#[test]
fn the_first_fault_is_the_one_told() {
    let mut values = sample_fields();
    values[0] = "never";
    values[3] = "many";
    values[8] = "20";
    assert_eq!(CloudfrontRow::from_line(&line_of(&values)), Err(RowError::Time));
    values[0] = "2019-12-04";
    assert_eq!(CloudfrontRow::from_line(&line_of(&values)), Err(RowError::Number));
}

#[test]
fn a_row_is_made_of_fields_and_readings() {
    let values: Vec<String> = sample_fields().into_iter().map(str::to_owned).collect();
    let read = Readings {
        days: 719_163 + 2,
        clock: (3_661, 5),
        response_bytes: 1,
        request_bytes: 2,
        method: "PUT".to_owned(),
        url: "http://x/".to_owned(),
        status: None,
    };
    let row = CloudfrontRow::of_fields(&values, read);
    assert_eq!(row.time, 2 * 86_400 + 3_661);
    assert_eq!(row.time_nanos, 5);
    assert_eq!(row.response_bytes, 1);
    assert_eq!(row.request_bytes, 2);
    assert_eq!(row.method, "PUT");
    assert_eq!(row.url, "http://x/");
    assert_eq!(row.status, None);
    assert_eq!(row.edge_location, "LAX1");
    assert_eq!(row.user_agent, Some("Mozilla/4.0%20(compatible)".to_owned()));
}

#[test]
fn readings_are_what_the_fields_say() {
    let values: Vec<String> = sample_fields().into_iter().map(str::to_owned).collect();
    let read = read_fields(&values).ok().unwrap();
    assert_eq!(read.days, 737_397);
    assert_eq!(read.clock, (21 * 3600 + 2 * 60 + 31, 0));
    assert_eq!(read.response_bytes, 392);
    assert_eq!(read.request_bytes, 23);
    assert_eq!(read.method, "GET");
    assert_eq!(read.status, Some(200));
}

#[test]
fn a_comment_starts_with_a_hash() {
    assert!(is_comment("#Version: 1.0"));
    assert!(is_comment("  \t#Fields: date time"));
    assert!(is_comment("\u{a0}\u{2003}#"));
    assert!(!is_comment(""));
    assert!(!is_comment("   "));
    assert!(!is_comment("a#"));
    assert!(!is_comment("2019-12-04\t#"));
}

#[test]
fn rows_leave_out_the_comments() {
    let lines = vec![
        "#Version: 1.0".to_owned(),
        line_of(&sample_fields()),
        "  #Fields: date time".to_owned(),
        "not a row".to_owned(),
        line_of(&sample_fields()),
    ];
    let got = rows(&lines);
    assert_eq!(got.len(), 3);
    assert_eq!(got[0].as_ref().unwrap().response_bytes, 392);
    assert_eq!(got[1], Err(RowError::Fields));
    assert_eq!(got[0], got[2]);
    assert_eq!(rows(&Vec::new()).len(), 0);
}
