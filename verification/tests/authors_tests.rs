use pubmed_norm::authors::{
    resolve_author, resolve_authors, AuthorAmbiguityError, EnumAuthor, RawAuthorEntry,
};

fn entry(last: &str, fore: &str, init: &str, coll: &str, affs: &[&str]) -> RawAuthorEntry {
    RawAuthorEntry {
        last_name: last.to_string(),
        fore_name: fore.to_string(),
        initials: init.to_string(),
        collective_name: coll.to_string(),
        affiliations: affs.iter().map(|a| a.to_string()).collect(),
    }
}

#[test]
fn person_entry_resolves_to_person() {
    let r = resolve_author(entry("Smith", "Jane", "J", "", &["Univ A", "Univ B", "Univ A"]));
    assert_eq!(
        r,
        Ok(EnumAuthor::Person {
            last_name: "Smith".to_string(),
            fore_name: "Jane".to_string(),
            initials: "J".to_string(),
            affiliation: vec![
                "Univ A".to_string(),
                "Univ B".to_string(),
                "Univ A".to_string()
            ],
        })
    );
}

#[test]
fn partial_person_fields_still_resolve() {
    let r = resolve_author(entry("Smith", "", "", "", &[]));
    assert_eq!(
        r,
        Ok(EnumAuthor::Person {
            last_name: "Smith".to_string(),
            fore_name: String::new(),
            initials: String::new(),
            affiliation: vec![],
        })
    );
}

#[test]
fn collective_entry_resolves_to_collective() {
    let r = resolve_author(entry("", "", "", "WHO Group", &[]));
    assert_eq!(
        r,
        Ok(EnumAuthor::Collective {
            collective_name: "WHO Group".to_string(),
        })
    );
}

#[test]
fn both_shapes_empty_is_rejected() {
    let r = resolve_author(entry("", "", "", "", &[]));
    assert_eq!(
        r,
        Err(AuthorAmbiguityError {
            person_empty: true,
            collective_empty: true,
        })
    );
}

#[test]
fn both_shapes_populated_is_rejected() {
    let r = resolve_author(entry("Smith", "Jane", "J", "WHO Group", &[]));
    assert_eq!(
        r,
        Err(AuthorAmbiguityError {
            person_empty: false,
            collective_empty: false,
        })
    );
}

#[test]
fn list_resolution_keeps_order() {
    let r = resolve_authors(vec![
        entry("Smith", "Jane", "J", "", &[]),
        entry("", "", "", "WHO Group", &[]),
    ])
    .unwrap();
    assert_eq!(r.author.len(), 2);
    assert!(matches!(&r.author[0], EnumAuthor::Person { last_name, .. } if last_name == "Smith"));
    assert!(
        matches!(&r.author[1], EnumAuthor::Collective { collective_name } if collective_name == "WHO Group")
    );
}

#[test]
fn list_resolution_fails_on_first_invalid_entry() {
    let r = resolve_authors(vec![
        entry("Smith", "Jane", "J", "", &[]),
        entry("Jones", "", "", "Consortium", &[]),
        entry("", "", "", "", &[]),
    ]);
    assert_eq!(
        r.err(),
        Some(AuthorAmbiguityError {
            person_empty: false,
            collective_empty: false,
        })
    );
}
