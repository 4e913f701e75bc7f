use pubmed_norm::flatten::{flatten, trim, MixedContentNode, Segment};

fn node(segments: Vec<Segment>) -> MixedContentNode {
    MixedContentNode { segments }
}

fn text(s: &str) -> Segment {
    Segment::Text(s.to_string())
}

#[test]
fn whitespace_normalization() {
    let n = node(vec![text("a "), Segment::Italic(vec![text("b")]), text(" c")]);
    assert_eq!(flatten(&n), "a b c");
}

#[test]
fn math_segments_vanish() {
    let n = node(vec![text("x"), Segment::Math, text("y")]);
    assert_eq!(flatten(&n), "x y");
}

#[test]
fn empty_node_flattens_to_empty() {
    assert_eq!(flatten(&node(vec![])), "");
}

#[test]
fn deeply_nested_formatting_unwraps_uniformly() {
    let n = node(vec![Segment::Subscript(vec![
        text("1-"),
        Segment::Italic(vec![
            text("y"),
            Segment::Bold(vec![text("z"), Segment::Math]),
        ]),
    ])]);
    assert_eq!(flatten(&n), "1-yz");
}

#[test]
fn unsupported_segments_degrade_to_empty_text() {
    let n = node(vec![
        Segment::Italic(vec![Segment::Math]),
        text("alone"),
        Segment::Bold(vec![]),
    ]);
    assert_eq!(flatten(&n), "alone");
}

#[test]
fn superscript_and_bold_survive_as_plain_text() {
    let n = node(vec![
        text("E = mc"),
        Segment::Superscript(vec![text("2")]),
        Segment::Bold(vec![text(" done")]),
    ]);
    assert_eq!(flatten(&n), "E = mc 2 done");
}

#[test]
fn join_segmented_string_test() {
    let n = node(vec![
        text("\n            text "),
        Segment::Subscript(vec![text("1-"), Segment::Italic(vec![text("y")])]),
    ]);
    assert_eq!(flatten(&n), "text 1-y");
}

#[test]
fn trim_removes_whitespace_from_both_ends() {
    assert_eq!(trim("  a b\t\r\n"), "a b");
    assert_eq!(trim("\t\n \r"), "");
    assert_eq!(trim("already"), "already");
}

#[test]
fn trim_covers_unicode_whitespace() {
    assert_eq!(trim("\u{00A0}a\u{00A0}"), "a");
    assert_eq!(trim("\u{2009}x\u{3000}"), "x");
    let n = node(vec![text("a\u{00A0}"), text("\u{2028}b")]);
    assert_eq!(flatten(&n), "a b");
}
