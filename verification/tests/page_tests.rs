use rfc_view::rfc_parser::{LookupError, RFCData};

fn strings(items: &[&str]) -> Vec<String> {
    items.iter().map(|s| s.to_string()).collect()
}

#[test]
fn page_gives_title_and_paragraphs() {
    let html = "<html><body><pre><span class=\"h1\">The Title</span>\nfirst\n\n<a href=\"x\">link</a> second\n\n<span class=\"h4\">1. Section</span>tail</pre></body></html>";
    let doc = RFCData::new(791, 200, html).unwrap();
    assert_eq!(doc.num, 791);
    assert_eq!(doc.title, "The Title");
    assert_eq!(
        doc.text,
        strings(&["<p>\nfirst\n\n</p>", "<p><a href=\"x\">link</a> second\n\n</p>"])
    );
}

#[test]
fn status_other_than_200_is_a_fetch_error() {
    let html = "<pre>text\n\n</pre>";
    assert_eq!(RFCData::new(1, 404, html).err(), Some(LookupError::Fetch));
    assert_eq!(RFCData::new(1, 500, html).err(), Some(LookupError::Fetch));
    assert_eq!(RFCData::new(1, 301, html).err(), Some(LookupError::Fetch));
    assert_eq!(RFCData::new(1, 201, html).err(), Some(LookupError::Fetch));
    assert_eq!(RFCData::new(1, 0, html).err(), Some(LookupError::Fetch));
    assert!(RFCData::new(1, 200, html).is_ok());
}

#[test]
fn page_without_preformatted_block_gives_default_title_and_no_text() {
    let doc = RFCData::new(9, 200, "<html><body><p>nothing\n\nhere</p></body></html>").unwrap();
    assert_eq!(doc.num, 9);
    assert_eq!(doc.title, "Title Missing");
    assert!(doc.text.is_empty());
    let doc = RFCData::new(9, 200, "").unwrap();
    assert_eq!(doc.title, "Title Missing");
    assert!(doc.text.is_empty());
}

#[test]
fn text_outside_the_block_is_ignored() {
    let html = "before\n\n<pre>inside\n\n</pre>after\n\n";
    let doc = RFCData::new(2, 200, html).unwrap();
    assert_eq!(doc.text, strings(&["<p>inside\n\n</p>"]));
}

#[test]
fn h1_child_sets_title_and_gives_no_fragment() {
    let html = "<pre><span class=\"h1\">Only A Title</span></pre>";
    let doc = RFCData::new(3, 200, html).unwrap();
    assert_eq!(doc.title, "Only A Title");
    assert!(doc.text.is_empty());
    let html = "<pre>a\n<span class=\"h1\">T</span>\nb</pre>";
    let doc = RFCData::new(3, 200, html).unwrap();
    assert_eq!(doc.title, "T");
    assert_eq!(doc.text, strings(&["<p>a\n\n</p>"]));
}

#[test]
fn h4_child_gives_no_fragment() {
    let html = "<pre>a\n<span class=\"h4\">1. Intro</span>\nb</pre>";
    let doc = RFCData::new(4, 200, html).unwrap();
    assert_eq!(doc.title, "Title Missing");
    assert_eq!(doc.text, strings(&["<p>a\n\n</p>"]));
}

#[test]
fn title_text_leaves_markup_out() {
    let html = "<pre><span class=\"h1\">RFC <b>791</b>: <i>IP</i></span>x\n\n</pre>";
    let doc = RFCData::new(791, 200, html).unwrap();
    assert_eq!(doc.title, "RFC 791: IP");
}

#[test]
fn class_list_is_read_member_by_member() {
    let html = "<pre><span class=\"big h1 bold\">Listed</span><span class=\"h10\">no</span>\n\n</pre>";
    let doc = RFCData::new(6, 200, html).unwrap();
    assert_eq!(doc.title, "Listed");
    assert_eq!(doc.text, strings(&["<p><span class=\"h10\">no</span>\n\n</p>"]));
}

#[test]
fn class_h1_goes_before_class_h4() {
    let html = "<pre><span class=\"h4 h1\">Both</span>\n\n</pre>";
    let doc = RFCData::new(6, 200, html).unwrap();
    assert_eq!(doc.title, "Both");
}

#[test]
fn last_h1_child_wins() {
    let html = "<pre><span class=\"h1\">One</span><span class=\"h1\">Two</span></pre>";
    let doc = RFCData::new(7, 200, html).unwrap();
    assert_eq!(doc.title, "Two");
}

#[test]
fn h1_below_a_child_is_not_a_title() {
    let html = "<pre><b><span class=\"h1\">Deep</span></b>\n\n</pre>";
    let doc = RFCData::new(7, 200, html).unwrap();
    assert_eq!(doc.title, "Title Missing");
    assert_eq!(doc.text, strings(&["<p><b><span class=\"h1\">Deep</span></b>\n\n</p>"]));
}

#[test]
fn other_elements_give_their_raw_markup() {
    let html = "<pre><a  href='#p'   id=x>go <b>there</b></a>\n\n</pre>";
    let doc = RFCData::new(8, 200, html).unwrap();
    assert_eq!(doc.text, strings(&["<p><a  href='#p'   id=x>go <b>there</b></a>\n\n</p>"]));
}

#[test]
fn comments_are_skipped() {
    let html = "<pre>a\n<!-- hidden\n\n -->\nb</pre>";
    let doc = RFCData::new(10, 200, html).unwrap();
    assert_eq!(doc.text, strings(&["<p>a\n\n</p>"]));
}

#[test]
fn every_preformatted_block_is_walked() {
    let html = "<pre><span class=\"h1\">First</span>one\n\n</pre><div><pre>two\n\n<span class=\"h1\">Second</span></pre></div>";
    let doc = RFCData::new(11, 200, html).unwrap();
    assert_eq!(doc.title, "Second");
    assert_eq!(doc.text, strings(&["<p>one\n\n</p>", "<p>two\n\n</p>"]));
}

#[test]
fn window_runs_on_from_block_to_block() {
    let html = "<pre>one\n</pre><pre>\ntwo</pre>";
    let doc = RFCData::new(11, 200, html).unwrap();
    assert_eq!(doc.text, strings(&["<p>one\n\n</p>"]));
}

#[test]
fn number_is_taken_from_the_caller() {
    let html = "<pre><span class=\"h1\">RFC 9999</span></pre>";
    let doc = RFCData::new(42, 200, html).unwrap();
    assert_eq!(doc.num, 42);
}

#[test]
fn malformed_markup_is_still_read() {
    let html = "<pre>open\n\n<b>never closed";
    let doc = RFCData::new(12, 200, html).unwrap();
    assert_eq!(doc.text, strings(&["<p>open\n\n</p>"]));
}

#[test]
fn odd_markup_is_read_without_failure() {
    let pages = [
        "<", ">", "<pre", "<pre>", "<pre><", "<pre></", "<pre><!", "<pre><!--", "<pre><!-- x -->",
        "<pre><a", "<pre><a b", "<pre><a b=", "<pre><a b='", "<pre><a b=\"c", "<pre></pre></pre>",
        "<pre><pre>in\n\n</pre></pre>", "<!doctype html><pre>\u{e9}\n\n</pre>", "<pre class=h1>x</pre>",
    ];
    for page in pages {
        assert!(RFCData::new(1, 200, page).is_ok(), "{:?}", page);
    }
}

#[test]
fn nested_blocks_are_each_walked() {
    let doc = RFCData::new(1, 200, "<pre>a\n\n<pre>b\n\n</pre></pre>").unwrap();
    assert_eq!(doc.text, strings(&["<p>a\n\n</p>", "<p><pre>b\n\n</pre>b\n\n</p>"]));
}
