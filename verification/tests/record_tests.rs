use pubmed_norm::authors::{EnumAuthor, RawAuthorEntry};
use pubmed_norm::flatten::{MixedContentNode, Segment};
use pubmed_norm::record::{assemble, assemble_set};
use pubmed_norm::refs::{ArticleId, ArticleIdList, Reference, ReferenceList};
use pubmed_norm::tree::{
    Article, Date, Journal, JournalIssue, KeywordList, MedlineCitation, MedlineJournalInfo,
    PubMedData, PublicationType, PublicationTypeList, PubmedArticle, PubmedArticleSet,
};
use pubmed_norm::Stats;

fn text(s: &str) -> Segment {
    Segment::Text(s.to_string())
}

fn person(last: &str, fore: &str, init: &str, affs: &[&str]) -> RawAuthorEntry {
    RawAuthorEntry {
        last_name: last.to_string(),
        fore_name: fore.to_string(),
        initials: init.to_string(),
        collective_name: String::new(),
        affiliations: affs.iter().map(|a| a.to_string()).collect(),
    }
}

fn collective(name: &str) -> RawAuthorEntry {
    RawAuthorEntry {
        last_name: String::new(),
        fore_name: String::new(),
        initials: String::new(),
        collective_name: name.to_string(),
        affiliations: vec![],
    }
}

fn article(
    id: u64,
    title: Vec<Segment>,
    authors: Option<Vec<RawAuthorEntry>>,
    reference_list: Vec<ReferenceList>,
) -> PubmedArticle {
    PubmedArticle {
        medline_citation: MedlineCitation {
            id,
            date_revised: Date {
                year: 2024,
                month: 1,
                day: 2,
            },
            date_completed: None,
            article: Article {
                pub_model: "Print".to_string(),
                journal: Journal {
                    issn: None,
                    journal_issue: Some(JournalIssue {
                        volume: Some("12".to_string()),
                        issue: None,
                    }),
                    title: "Journal of Things".to_string(),
                },
                article_title: MixedContentNode { segments: title },
                author_list: authors,
                publication_type_list: PublicationTypeList {
                    publication_type: vec![PublicationType {
                        id: "D016428".to_string(),
                        name: "Journal Article".to_string(),
                    }],
                },
                grant_list: None,
            },
            medline_journal_info: MedlineJournalInfo {
                id: "100971".to_string(),
                country: "Netherlands".to_string(),
                issn: "1234-5678".to_string(),
            },
            keyword_list: vec![KeywordList {
                keyword: vec![MixedContentNode {
                    segments: vec![text(" p53 "), Segment::Italic(vec![text("pathway")])],
                }],
            }],
        },
        pubmed_data: PubMedData {
            article_id_list: ArticleIdList {
                article_id: vec![ArticleId {
                    ty: "pubmed".to_string(),
                    id: Some(id.to_string()),
                }],
            },
            reference_list,
        },
    }
}

#[test]
fn end_to_end_person_author() {
    let mut stats = Stats::new();
    let a = article(
        12345,
        vec![
            text("Role of "),
            Segment::Italic(vec![text("p53")]),
            text(" in cancer"),
        ],
        Some(vec![person("Smith", "Jane", "J", &["Some University"])]),
        vec![],
    );
    let rec = assemble(a, &mut stats).unwrap();
    assert_eq!(rec.id, 12345);
    assert_eq!(rec.title, "Role of p53 in cancer");
    assert_eq!(rec.pub_model, "Print");
    assert_eq!(rec.keywords, vec!["p53 pathway".to_string()]);
    assert_eq!(rec.journal.id, "100971");
    assert_eq!(rec.journal.country, "Netherlands");
    assert_eq!(rec.journal.issn, "1234-5678");
    assert_eq!(rec.journal.title, "Journal of Things");
    let authors = rec.authors.expect("author list present");
    assert_eq!(authors.author.len(), 1);
    assert_eq!(
        authors.author[0],
        EnumAuthor::Person {
            last_name: "Smith".to_string(),
            fore_name: "Jane".to_string(),
            initials: "J".to_string(),
            affiliation: vec!["Some University".to_string()],
        }
    );
    assert!(rec.references.is_empty());
    assert_eq!(stats.refs_before_filtering, 0);
    assert_eq!(stats.refs_after_filtering, 0);
}

#[test]
fn end_to_end_collective_author() {
    let mut stats = Stats::new();
    let a = article(
        7,
        vec![text("Guidelines")],
        Some(vec![collective("WHO Group")]),
        vec![],
    );
    let rec = assemble(a, &mut stats).unwrap();
    let authors = rec.authors.expect("author list present");
    assert_eq!(authors.author.len(), 1);
    assert_eq!(
        authors.author[0],
        EnumAuthor::Collective {
            collective_name: "WHO Group".to_string(),
        }
    );
}

#[test]
fn absent_author_list_stays_absent() {
    let mut stats = Stats::new();
    let rec = assemble(article(7, vec![text("T")], None, vec![]), &mut stats).unwrap();
    assert!(rec.authors.is_none());
}

#[test]
fn ambiguous_author_rejects_article_and_leaves_counters_untouched() {
    let mut stats = Stats::new();
    let bad = RawAuthorEntry {
        last_name: String::new(),
        fore_name: String::new(),
        initials: String::new(),
        collective_name: String::new(),
        affiliations: vec![],
    };
    let a = article(
        7,
        vec![text("T")],
        Some(vec![bad]),
        vec![ReferenceList {
            reference: vec![Reference {
                citation: MixedContentNode {
                    segments: vec![text("cited")],
                },
                article_id_list: Some(ArticleIdList {
                    article_id: vec![ArticleId {
                        ty: "pubmed".to_string(),
                        id: Some("5".to_string()),
                    }],
                }),
            }],
        }],
    );
    let err = assemble(a, &mut stats).unwrap_err();
    assert!(err.person_empty);
    assert!(err.collective_empty);
    assert_eq!(stats.refs_before_filtering, 0);
    assert_eq!(stats.refs_after_filtering, 0);
}

#[test]
fn only_the_first_reference_list_is_read() {
    let mut stats = Stats::new();
    let make_list = |id: &str| ReferenceList {
        reference: vec![Reference {
            citation: MixedContentNode {
                segments: vec![text("cited")],
            },
            article_id_list: Some(ArticleIdList {
                article_id: vec![ArticleId {
                    ty: "pubmed".to_string(),
                    id: Some(id.to_string()),
                }],
            }),
        }],
    };
    let a = article(
        7,
        vec![text("T")],
        None,
        vec![make_list("11"), make_list("22")],
    );
    let rec = assemble(a, &mut stats).unwrap();
    assert_eq!(rec.references, vec!["11".to_string()]);
    assert_eq!(stats.refs_before_filtering, 1);
    assert_eq!(stats.refs_after_filtering, 1);
}

#[test]
fn duplicate_keywords_collapse_to_first_appearance() {
    let mut stats = Stats::new();
    let mut a = article(9, vec![text("T")], None, vec![]);
    a.medline_citation.keyword_list = vec![
        KeywordList {
            keyword: vec![
                MixedContentNode {
                    segments: vec![text("alpha")],
                },
                MixedContentNode {
                    segments: vec![text("beta")],
                },
            ],
        },
        KeywordList {
            keyword: vec![
                MixedContentNode {
                    // differently shaped, but flattens to the same string
                    segments: vec![text(" alpha "), Segment::Math],
                },
                MixedContentNode {
                    segments: vec![text("gamma")],
                },
            ],
        },
    ];
    let rec = assemble(a, &mut stats).unwrap();
    assert_eq!(
        rec.keywords,
        vec!["alpha".to_string(), "beta".to_string(), "gamma".to_string()]
    );
}

#[test]
fn collection_is_assembled_in_source_order() {
    let mut stats = Stats::new();
    let set = PubmedArticleSet {
        pubmed_article: vec![
            article(1, vec![text("First")], None, vec![]),
            article(2, vec![text("Second")], None, vec![]),
        ],
    };
    let recs = assemble_set(set, &mut stats).unwrap();
    assert_eq!(recs.len(), 2);
    assert_eq!(recs[0].id, 1);
    assert_eq!(recs[0].title, "First");
    assert_eq!(recs[1].id, 2);
    assert_eq!(recs[1].title, "Second");
}
