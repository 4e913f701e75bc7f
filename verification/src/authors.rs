//! Author-identity disambiguation.
//!
//! A raw author entry is union-shaped: it may carry personal name parts
//! (last name, fore name, initials) or a single collective name, and the two
//! shapes are told apart only by which fields are populated.  Resolution
//! classifies each entry as a person or a collective author, and rejects an
//! entry where neither or both shapes are populated: validity is the
//! exclusive-or of the two emptiness tests.

use vstd::prelude::*;

verus! {

/// One author entry as the source document delivers it: every name field
/// present-or-empty, plus the entry's affiliation strings in document order.
#[derive(Debug)]
pub struct RawAuthorEntry {
    pub last_name: String,
    pub fore_name: String,
    pub initials: String,
    pub collective_name: String,
    pub affiliations: Vec<String>,
}

/// A classified author: a natural person with name parts and affiliations,
/// or a collective (corporate) author with a single name.
#[derive(Debug, PartialEq, Eq)]
pub enum EnumAuthor {
    Person {
        last_name: String,
        fore_name: String,
        initials: String,
        affiliation: Vec<String>,
    },
    Collective {
        collective_name: String,
    },
}

/// The resolved author list of one article.
#[derive(Debug)]
pub struct AuthorList {
    pub author: Vec<EnumAuthor>,
}

/// Rejection of one author entry, carrying the two emptiness tests that
/// failed to disambiguate it.
#[derive(Debug, Clone, Copy, PartialEq, Eq, Structural)]
pub struct AuthorAmbiguityError {
    pub person_empty: bool,
    pub collective_empty: bool,
}

/// Whether all three personal name fields are empty.
pub open spec fn person_fields_empty(e: RawAuthorEntry) -> bool {
    e.last_name@.len() == 0 && e.fore_name@.len() == 0 && e.initials@.len() == 0
}

/// Whether the collective name field is empty.
pub open spec fn collective_field_empty(e: RawAuthorEntry) -> bool {
    e.collective_name@.len() == 0
}

/// An entry is valid when exactly one of the two shapes is populated.
pub open spec fn entry_valid(e: RawAuthorEntry) -> bool {
    person_fields_empty(e) != collective_field_empty(e)
}

/// The classification of a valid entry: personal fields populated yield a
/// person, a populated collective name yields a collective author.
pub open spec fn resolved(e: RawAuthorEntry) -> EnumAuthor {
    if collective_field_empty(e) {
        EnumAuthor::Person {
            last_name: e.last_name,
            fore_name: e.fore_name,
            initials: e.initials,
            affiliation: e.affiliations,
        }
    } else {
        EnumAuthor::Collective { collective_name: e.collective_name }
    }
}

/// The error an invalid entry produces.
pub open spec fn ambiguity_of(e: RawAuthorEntry) -> AuthorAmbiguityError {
    AuthorAmbiguityError {
        person_empty: person_fields_empty(e),
        collective_empty: collective_field_empty(e),
    }
}

/// Whether every entry of a list is valid.
pub open spec fn all_valid(entries: Seq<RawAuthorEntry>) -> bool {
    forall|i: int| 0 <= i < entries.len() ==> entry_valid(entries[i])
}

/// Whether `e` is the rejection of the first invalid entry of `entries`.
pub open spec fn rejected_with(entries: Seq<RawAuthorEntry>, e: AuthorAmbiguityError) -> bool {
    exists|i: int|
        0 <= i < entries.len() && !entry_valid(entries[i]) && e == ambiguity_of(entries[i]) && (
        forall|j: int| 0 <= j < i ==> entry_valid(entries[j]))
}

/// Classify one author entry.  Succeeds exactly when one of the two shapes
/// is populated; an ambiguous entry is rejected with its emptiness tests.
pub fn resolve_author(entry: RawAuthorEntry) -> (r: Result<EnumAuthor, AuthorAmbiguityError>)
    ensures
        r is Ok <==> entry_valid(entry),
        entry_valid(entry) ==> r == Ok::<EnumAuthor, AuthorAmbiguityError>(resolved(entry)),
        !entry_valid(entry) ==> r == Err::<EnumAuthor, AuthorAmbiguityError>(ambiguity_of(entry)),
{
    let person_empty = entry.last_name.as_str().is_empty() && entry.fore_name.as_str().is_empty()
        && entry.initials.as_str().is_empty();
    let collective_empty = entry.collective_name.as_str().is_empty();
    if person_empty != collective_empty {
        if collective_empty {
            Ok(
                EnumAuthor::Person {
                    last_name: entry.last_name,
                    fore_name: entry.fore_name,
                    initials: entry.initials,
                    affiliation: entry.affiliations,
                },
            )
        } else {
            Ok(EnumAuthor::Collective { collective_name: entry.collective_name })
        }
    } else {
        Err(AuthorAmbiguityError { person_empty, collective_empty })
    }
}

/// Resolve a whole author list, in order.  Succeeds exactly when every entry
/// is valid; otherwise the first invalid entry's error is returned and the
/// list as a whole is rejected.
#[verifier::loop_isolation(false)]
pub fn resolve_authors(entries: Vec<RawAuthorEntry>) -> (r: Result<
    AuthorList,
    AuthorAmbiguityError,
>)
    ensures
        r is Ok <==> all_valid(entries@),
        r matches Ok(al) ==> al.author@.len() == entries@.len() && (forall|i: int|
            0 <= i < entries@.len() ==> al.author@[i] == resolved(entries@[i])),
        r matches Err(e) ==> rejected_with(entries@, e),
{
    let ghost orig = entries@;
    let mut rem = entries;
    let mut out: Vec<EnumAuthor> = Vec::new();
    while rem.len() > 0
        invariant
            out@.len() + rem@.len() == orig.len(),
            forall|i: int| 0 <= i < out@.len() ==> entry_valid(orig[i]),
            forall|i: int| 0 <= i < out@.len() ==> out@[i] == resolved(orig[i]),
            forall|i: int| out@.len() <= i < orig.len() ==> rem@[i - out@.len()] == orig[i],
        decreases rem@.len(),
    {
        let ghost k = out@.len() as int;
        let e = rem.remove(0);
        proof {
            assert(e == orig[k]);
        }
        match resolve_author(e) {
            Ok(a) => {
                out.push(a);
            },
            Err(err) => {
                proof {
                    assert(0 <= k < orig.len() && !entry_valid(orig[k]) && err == ambiguity_of(
                        orig[k],
                    ) && (forall|j: int| 0 <= j < k ==> entry_valid(orig[j])));
                    assert(!all_valid(orig));
                }
                return Err(err);
            },
        }
    }
    proof {
        assert(all_valid(orig));
    }
    Ok(AuthorList { author: out })
}

} // verus!
