use pubmed_norm::flatten::{MixedContentNode, Segment};
use pubmed_norm::refs::{
    extract_references, parse_u64, process_references, ArticleId, ArticleIdList,
    MalformedIdPolicy, Reference, ReferenceList, MAX_VALID_REF_ID,
};
use pubmed_norm::Stats;

fn citation(s: &str) -> MixedContentNode {
    MixedContentNode {
        segments: vec![Segment::Text(s.to_string())],
    }
}

fn pair(ty: &str, id: Option<&str>) -> ArticleId {
    ArticleId {
        ty: ty.to_string(),
        id: id.map(|s| s.to_string()),
    }
}

fn reference(ids: Option<Vec<ArticleId>>) -> Reference {
    Reference {
        citation: citation("some citation"),
        article_id_list: ids.map(|article_id| ArticleIdList { article_id }),
    }
}

fn list(refs: Vec<Reference>) -> Option<ReferenceList> {
    Some(ReferenceList { reference: refs })
}

#[test]
fn absent_list_yields_nothing() {
    let mut stats = Stats::new();
    let ids = process_references(1, &None, &mut stats);
    assert!(ids.is_empty());
    assert_eq!(stats.refs_before_filtering, 0);
    assert_eq!(stats.refs_after_filtering, 0);
}

#[test]
fn reference_without_id_list_is_skipped() {
    let mut stats = Stats::new();
    let input = list(vec![reference(None), reference(Some(vec![pair("pubmed", Some("17"))]))]);
    let ids = process_references(1, &input, &mut stats);
    assert_eq!(ids, vec!["17".to_string()]);
    assert_eq!(stats.refs_before_filtering, 1);
    assert_eq!(stats.refs_after_filtering, 1);
}

#[test]
fn threshold_boundary() {
    let mut stats = Stats::new();
    let input = list(vec![reference(Some(vec![
        pair("pubmed", Some("3024180")),
        pair("pubmed", Some("3024181")),
    ]))]);
    let ids = process_references(1, &input, &mut stats);
    assert_eq!(ids, vec!["3024180".to_string()]);
    assert_eq!(stats.refs_before_filtering, 2);
    assert_eq!(stats.refs_after_filtering, 1);
}

#[test]
fn other_vocabularies_and_missing_ids_are_dropped_but_counted() {
    let mut stats = Stats::new();
    let input = list(vec![reference(Some(vec![
        pair("doi", Some("10.1000/1")),
        pair("pubmed", None),
        pair("pubmed", Some("5")),
    ]))]);
    let ids = process_references(1, &input, &mut stats);
    assert_eq!(ids, vec!["5".to_string()]);
    assert_eq!(stats.refs_before_filtering, 3);
    assert_eq!(stats.refs_after_filtering, 1);
}

#[test]
fn malformed_id_is_skipped_under_skip_policy() {
    let input = list(vec![reference(Some(vec![
        pair("pubmed", Some("12a")),
        pair("pubmed", Some("7")),
    ]))]);
    let ex = extract_references(&input, MAX_VALID_REF_ID, MalformedIdPolicy::Skip).unwrap();
    assert_eq!(ex.ids, vec!["7".to_string()]);
    assert_eq!(ex.before, 2);
    assert_eq!(ex.after, 1);
}

#[test]
fn malformed_id_fails_under_fail_policy() {
    let input = list(vec![reference(Some(vec![
        pair("pubmed", Some("12a")),
        pair("pubmed", Some("7")),
    ]))]);
    let e = extract_references(&input, MAX_VALID_REF_ID, MalformedIdPolicy::Fail).unwrap_err();
    assert_eq!(e.id, "12a");
}

#[test]
fn well_formed_input_succeeds_under_both_policies() {
    let input = list(vec![reference(Some(vec![pair("pubmed", Some("7"))]))]);
    let fail = extract_references(&input, MAX_VALID_REF_ID, MalformedIdPolicy::Fail).unwrap();
    let skip = extract_references(&input, MAX_VALID_REF_ID, MalformedIdPolicy::Skip).unwrap();
    assert_eq!(fail.ids, skip.ids);
    assert_eq!(fail.ids, vec!["7".to_string()]);
}

#[test]
fn refiltering_already_filtered_ids_changes_nothing() {
    let mut stats = Stats::new();
    let input = list(vec![reference(Some(vec![
        pair("pubmed", Some("3024180")),
        pair("pubmed", Some("17")),
        pair("pubmed", Some("204")),
    ]))]);
    let first = process_references(1, &input, &mut stats);
    assert_eq!(first, vec!["3024180".to_string(), "17".to_string(), "204".to_string()]);
    assert_eq!(stats.refs_before_filtering, stats.refs_after_filtering);

    let again = list(vec![reference(Some(
        first.iter().map(|id| pair("pubmed", Some(id))).collect(),
    ))]);
    let mut stats2 = Stats::new();
    let second = process_references(1, &again, &mut stats2);
    assert_eq!(second, first);
    assert_eq!(stats2.refs_before_filtering, 3);
    assert_eq!(stats2.refs_after_filtering, 3);
}

#[test]
fn parse_u64_accepts_digit_strings() {
    assert_eq!(parse_u64("0"), Some(0));
    assert_eq!(parse_u64("007"), Some(7));
    assert_eq!(parse_u64("3024180"), Some(3024180));
    assert_eq!(parse_u64("18446744073709551615"), Some(u64::MAX));
}

#[test]
fn parse_u64_rejects_everything_else() {
    assert_eq!(parse_u64(""), None);
    assert_eq!(parse_u64("12a"), None);
    assert_eq!(parse_u64("-4"), None);
    assert_eq!(parse_u64(" 4"), None);
    assert_eq!(parse_u64("18446744073709551616"), None);
}
