use rfc_view::decimal::{parse_decimal, push_decimal};
use rfc_view::lookup::{landing_path, reply, requested_number, source_url, status_accepted, Reply};
use rfc_view::rfc_parser::{LookupError, RFCData};
use rfc_view::text::starts_with_angle;

#[test]
fn missing_number_is_an_input_error_and_redirects() {
    assert_eq!(requested_number(None), Err(LookupError::Input));
    assert!(matches!(reply(requested_number(None).map(|_| RFCData::default())), Reply::Redirect));
}

#[test]
fn number_that_is_no_number_is_an_input_error_and_redirects() {
    for text in ["abc", "", " ", "12a", "1 2", " 12", "12 ", "-1", "+", "+-1", "1.5", "0x10", "1_000"] {
        assert_eq!(requested_number(Some(text)), Err(LookupError::Input), "{:?}", text);
        let outcome = requested_number(Some(text)).map(|_| RFCData::default());
        assert!(matches!(reply(outcome), Reply::Redirect));
    }
}

#[test]
fn zero_is_no_rfc_number() {
    assert_eq!(requested_number(Some("0")), Err(LookupError::Input));
    assert_eq!(requested_number(Some("000")), Err(LookupError::Input));
    assert_eq!(requested_number(Some("+0")), Err(LookupError::Input));
}

#[test]
fn positive_number_is_read() {
    assert_eq!(requested_number(Some("791")), Ok(791));
    assert_eq!(requested_number(Some("1")), Ok(1));
    assert_eq!(requested_number(Some("+8446")), Ok(8446));
    assert_eq!(requested_number(Some("0042")), Ok(42));
    assert_eq!(requested_number(Some("4294967295")), Ok(u32::MAX));
}

#[test]
fn number_that_does_not_fit_is_an_input_error() {
    assert_eq!(requested_number(Some("4294967296")), Err(LookupError::Input));
    assert_eq!(requested_number(Some("99999999999999999999999999")), Err(LookupError::Input));
}

#[test]
fn parse_decimal_reads_what_the_standard_parser_reads() {
    let cases = [
        "", "0", "7", "+7", "-7", "++7", "+", "-", "007", "4294967295", "4294967296", "42949672950",
        "18446744073709551616", "12x", "x12", " 1", "1 ", "\u{661}\u{662}", "1\u{0}", "+0", "9", "10",
        "1e3", "٣",
    ];
    for text in cases {
        assert_eq!(parse_decimal(text), text.parse::<u32>().ok(), "{:?}", text);
    }
}

#[test]
fn parse_decimal_gives_exact_values() {
    assert_eq!(parse_decimal("0"), Some(0));
    assert_eq!(parse_decimal("+12"), Some(12));
    assert_eq!(parse_decimal("2147483648"), Some(2147483648));
    assert_eq!(parse_decimal("-0"), None);
}

#[test]
fn push_decimal_appends_the_digits() {
    let mut out = String::from("n=");
    push_decimal(&mut out, 0);
    assert_eq!(out, "n=0");
    push_decimal(&mut out, 10);
    assert_eq!(out, "n=010");
    push_decimal(&mut out, u32::MAX);
    assert_eq!(out, "n=0104294967295");
    for n in [1u32, 9, 99, 100, 101, 65535, 1_000_000, 4294967294] {
        let mut s = String::new();
        push_decimal(&mut s, n);
        assert_eq!(s, n.to_string());
        assert_eq!(parse_decimal(&s), Some(n));
    }
}

#[test]
fn source_url_names_the_page_of_the_number() {
    assert_eq!(source_url(791), "https://www.rfc-editor.org/rfc/rfc791.html");
    assert_eq!(source_url(1), "https://www.rfc-editor.org/rfc/rfc1.html");
    assert_eq!(source_url(u32::MAX), "https://www.rfc-editor.org/rfc/rfc4294967295.html");
}

#[test]
fn only_status_200_is_accepted() {
    assert!(status_accepted(200));
    for status in [0u16, 100, 199, 201, 204, 301, 404, 500, 65535] {
        assert!(!status_accepted(status));
    }
}

#[test]
fn fetch_returning_404_redirects() {
    let outcome = RFCData::new(791, 404, "Not Found");
    assert_eq!(outcome.as_ref().err(), Some(&LookupError::Fetch));
    assert!(matches!(reply(outcome), Reply::Redirect));
}

#[test]
fn every_failure_redirects() {
    for failure in [LookupError::Input, LookupError::Fetch, LookupError::Parse] {
        assert!(matches!(reply(Err(failure)), Reply::Redirect));
    }
}

#[test]
fn success_answers_with_the_page() {
    let outcome = RFCData::new(2, 200, "<pre><span class=\"h1\">Two</span>text\n\n</pre>");
    match reply(outcome) {
        Reply::Page(doc) => {
            assert_eq!(doc.num, 2);
            assert_eq!(doc.title, "Two");
            assert_eq!(doc.text, vec!["<p>text\n\n</p>".to_string()]);
        },
        Reply::Redirect => panic!("a page was expected"),
    }
}

#[test]
fn landing_page_is_the_root() {
    assert_eq!(landing_path(), "/");
}

#[test]
fn markup_begins_with_an_angle() {
    assert!(starts_with_angle("<b>"));
    assert!(starts_with_angle("<"));
    assert!(!starts_with_angle(""));
    assert!(!starts_with_angle(" <b>"));
    assert!(!starts_with_angle("text <"));
    assert!(!starts_with_angle("\u{2039}b>"));
}
