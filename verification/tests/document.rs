use cool_lexer::common::CoolDoc;

#[test]
fn new_keeps_the_text() {
    let doc = CoolDoc::new("This is a cool document.");
    assert_eq!(doc.text(), "This is a cool document.");
}

#[test]
fn from_string_keeps_the_text() {
    let text = String::from("class Main {};\n");
    let doc = CoolDoc::from_string(text);
    assert_eq!(doc.text(), "class Main {};\n");
}

#[test]
fn empty_document_has_empty_text() {
    let doc = CoolDoc::new("");
    assert_eq!(doc.text(), "");
    assert_eq!(doc.slice(0..0), "");
}

#[test]
fn slice_takes_a_byte_range() {
    let doc = CoolDoc::new("This is a cool document.");
    assert_eq!(doc.slice(0..4), "This");
    assert_eq!(doc.slice(10..14), "cool");
    assert_eq!(doc.slice(23..24), ".");
}

#[test]
fn slice_of_the_whole_range_is_the_text() {
    let doc = CoolDoc::new("let x <- 1");
    assert_eq!(doc.slice(0..10), doc.text());
}

#[test]
fn slice_of_an_empty_range_is_empty() {
    let doc = CoolDoc::new("abc");
    assert_eq!(doc.slice(0..0), "");
    assert_eq!(doc.slice(2..2), "");
    assert_eq!(doc.slice(3..3), "");
}

#[test]
fn slice_counts_bytes_not_characters() {
    // "é" takes two bytes and "→" three.
    let doc = CoolDoc::new("é→x");
    assert_eq!(doc.slice(0..2), "é");
    assert_eq!(doc.slice(2..5), "→");
    assert_eq!(doc.slice(5..6), "x");
    assert_eq!(doc.slice(0..6), "é→x");
}

#[test]
fn clone_shares_the_text() {
    let doc = CoolDoc::from_string(String::from("pool"));
    let copy = doc.clone();
    assert_eq!(copy.text(), "pool");
    assert_eq!(doc.text().as_ptr(), copy.text().as_ptr());
}

#[test]
fn slices_outlive_other_handles() {
    let doc = CoolDoc::new("if then else fi");
    let copy = doc.clone();
    let part = copy.slice(3..7);
    drop(doc);
    assert_eq!(part, "then");
}
