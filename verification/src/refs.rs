//! Cross-reference extraction and filtering.
//!
//! A reference list carries, per reference, an optional list of identifier
//! pairs (vocabulary, optional id).  Extraction walks the list once and keeps,
//! in encounter order, the ids whose vocabulary is the trusted one, whose id
//! is present, and whose id parses as an unsigned 64-bit number no larger
//! than the corpus threshold.  Candidates are counted before and after
//! filtering for the batch counters.
//!
//! An id that passes the vocabulary filter but is not numeric is handled per
//! [`MalformedIdPolicy`]: `Fail` rejects the whole list with the offending id,
//! `Skip` drops the single malformed entry and continues.

use vstd::prelude::*;
use vstd::string::*;
use crate::flatten::MixedContentNode;
use crate::stats::{sat_add, sat_add_usize, sat_cap, Stats};

verus! {

/// One identifier pair of a citation: a vocabulary tag and an optional id.
#[derive(Debug)]
pub struct ArticleId {
    pub ty: String,
    pub id: Option<String>,
}

/// The identifier list of one article or reference.
#[derive(Debug)]
pub struct ArticleIdList {
    pub article_id: Vec<ArticleId>,
}

/// One reference: its citation text and an optional identifier list.
#[derive(Debug)]
pub struct Reference {
    pub citation: MixedContentNode,
    pub article_id_list: Option<ArticleIdList>,
}

/// A reference list.  The source schema permits a reference list to nest
/// another one inside itself; only the level walked here is read, deeper
/// nesting is deliberately ignored.
#[derive(Debug)]
pub struct ReferenceList {
    pub reference: Vec<Reference>,
}

/// The largest identifier the corpus considers valid.
pub const MAX_VALID_REF_ID: u64 = 3024180;

/// What to do with an id that passes the vocabulary filter but is not
/// numeric: reject the whole list, or drop the single malformed entry.
#[derive(Debug, Clone, Copy, PartialEq, Eq, Structural)]
pub enum MalformedIdPolicy {
    Fail,
    Skip,
}

/// A non-numeric id found after the vocabulary filter, under
/// [`MalformedIdPolicy::Fail`].
#[derive(Debug)]
pub struct RefIdFormatError {
    pub id: String,
}

/// What one extraction yields: the surviving ids in encounter order, and the
/// candidate counts before and after filtering.
#[derive(Debug)]
pub struct RefExtraction {
    pub ids: Vec<String>,
    pub before: usize,
    pub after: usize,
}

/// Whether `c` is a decimal digit.
pub open spec fn is_digit(c: char) -> bool {
    '0' <= c && c <= '9'
}

/// The value of one decimal digit.
pub open spec fn digit_val(c: char) -> nat {
    (c as int - '0' as int) as nat
}

/// Whether every character is a decimal digit.
pub open spec fn all_digits(s: Seq<char>) -> bool {
    forall|i: int| 0 <= i < s.len() ==> is_digit(s[i])
}

/// The number a digit string denotes.
pub open spec fn digits_val(s: Seq<char>) -> nat
    decreases s.len(),
{
    if s.len() == 0 {
        0
    } else {
        digits_val(s.drop_last()) * 10 + digit_val(s.last())
    }
}

/// Whether `s` is a non-empty digit string whose value fits in 64 bits.
pub open spec fn parses_to_u64(s: Seq<char>) -> bool {
    s.len() > 0 && all_digits(s) && digits_val(s) <= u64::MAX
}

/// Whether an identifier pair is a candidate: trusted vocabulary, id present.
pub open spec fn is_candidate(a: ArticleId) -> bool {
    a.ty@ == "pubmed"@ && a.id is Some
}

/// Whether a candidate survives filtering: its id is numeric and within the
/// threshold.
pub open spec fn is_kept(a: ArticleId, threshold: u64) -> bool {
    is_candidate(a) && parses_to_u64(a.id->0@) && digits_val(a.id->0@) <= threshold
}

/// Whether a candidate's id is not numeric.
pub open spec fn is_malformed(a: ArticleId) -> bool {
    is_candidate(a) && !parses_to_u64(a.id->0@)
}

/// The ids surviving the filter, in order.
pub open spec fn kept_ids(ids: Seq<ArticleId>, threshold: u64) -> Seq<String>
    decreases ids.len(),
{
    if ids.len() == 0 {
        Seq::empty()
    } else {
        let rest = kept_ids(ids.drop_last(), threshold);
        if is_kept(ids.last(), threshold) {
            rest.push(ids.last().id->0)
        } else {
            rest
        }
    }
}

/// The candidate count of one reference: the size of its identifier list,
/// if it has one.
pub open spec fn ref_id_count(r: Reference) -> nat {
    match r.article_id_list {
        Some(l) => l.article_id@.len(),
        None => 0,
    }
}

/// The surviving ids of one reference.
pub open spec fn ref_kept_ids(r: Reference, threshold: u64) -> Seq<String> {
    match r.article_id_list {
        Some(l) => kept_ids(l.article_id@, threshold),
        None => Seq::empty(),
    }
}

/// Whether one reference holds a malformed candidate.
pub open spec fn ref_has_malformed(r: Reference) -> bool {
    match r.article_id_list {
        Some(l) => exists|j: int| 0 <= j < l.article_id@.len() && is_malformed(l.article_id@[j]),
        None => false,
    }
}

/// Candidates seen across a reference sequence, before filtering.
pub open spec fn refs_before_count(refs: Seq<Reference>) -> nat
    decreases refs.len(),
{
    if refs.len() == 0 {
        0
    } else {
        refs_before_count(refs.drop_last()) + ref_id_count(refs.last())
    }
}

/// Surviving ids across a reference sequence, in encounter order.
pub open spec fn refs_kept_ids(refs: Seq<Reference>, threshold: u64) -> Seq<String>
    decreases refs.len(),
{
    if refs.len() == 0 {
        Seq::empty()
    } else {
        refs_kept_ids(refs.drop_last(), threshold) + ref_kept_ids(refs.last(), threshold)
    }
}

/// The ids an absent-or-present reference list yields.
pub open spec fn extracted(input: Option<ReferenceList>, threshold: u64) -> Seq<String> {
    match input {
        Some(l) => refs_kept_ids(l.reference@, threshold),
        None => Seq::empty(),
    }
}

/// Candidates an absent-or-present reference list holds, before filtering.
pub open spec fn before_count(input: Option<ReferenceList>) -> nat {
    match input {
        Some(l) => refs_before_count(l.reference@),
        None => 0,
    }
}

/// Candidates surviving the filter.
pub open spec fn after_count(input: Option<ReferenceList>, threshold: u64) -> nat {
    extracted(input, threshold).len()
}

/// Whether the list holds any malformed candidate.
pub open spec fn has_malformed(input: Option<ReferenceList>) -> bool {
    match input {
        Some(l) => exists|i: int| 0 <= i < l.reference@.len() && ref_has_malformed(l.reference@[i]),
        None => false,
    }
}

/// Whether `e` reports a malformed candidate actually present in the input.
pub open spec fn reports_malformed(input: Option<ReferenceList>, e: RefIdFormatError) -> bool {
    match input {
        Some(l) => exists|i: int, j: int|
            0 <= i < l.reference@.len() && l.reference@[i].article_id_list is Some && 0 <= j
                < l.reference@[i].article_id_list->0.article_id@.len() && is_malformed(
                #[trigger] l.reference@[i].article_id_list->0.article_id@[j],
            ) && e.id == l.reference@[i].article_id_list->0.article_id@[j].id->0,
        None => false,
    }
}

/// Parse a non-empty decimal digit string into a 64-bit number.  Returns
/// nothing when the string is empty, holds a non-digit, or overflows.
pub fn parse_u64(s: &str) -> (r: Option<u64>)
    ensures
        parses_to_u64(s@) ==> r == Some(digits_val(s@) as u64),
        !parses_to_u64(s@) ==> r is None,
{
    let n = s.unicode_len();
    if n == 0 {
        return None;
    }
    let mut acc: u64 = 0;
    let mut i: usize = 0;
    proof {
        assert(s@.take(0) =~= Seq::<char>::empty());
    }
    while i < n
        invariant
            0 < n == s@.len(),
            i <= n,
            all_digits(s@.take(i as int)),
            acc as nat == digits_val(s@.take(i as int)),
        decreases n - i,
    {
        let c = s.get_char(i);
        let u = c as u32;
        if u < 48 || u > 57 {
            proof {
                assert(!is_digit(s@[i as int]));
                assert(!all_digits(s@));
            }
            return None;
        }
        let d = (u - 48) as u64;
        proof {
            assert(s@.take(i as int + 1).drop_last() =~= s@.take(i as int));
            assert(s@.take(i as int + 1).last() == s@[i as int]);
            assert(d as nat == digit_val(s@[i as int]));
        }
        if acc > u64::MAX / 10 || (acc == u64::MAX / 10 && d > u64::MAX % 10) {
            proof {
                assert(digits_val(s@.take(i as int + 1)) > u64::MAX);
                lemma_digits_val_prefix_le(s@, i as int + 1);
                assert(digits_val(s@) > u64::MAX);
            }
            return None;
        }
        acc = acc * 10 + d;
        i = i + 1;
    }
    proof {
        assert(s@.take(n as int) =~= s@);
    }
    Some(acc)
}

/// A digit string's value is at least the value of any of its prefixes.
proof fn lemma_digits_val_prefix_le(s: Seq<char>, i: int)
    requires
        0 <= i <= s.len(),
    ensures
        digits_val(s.take(i)) <= digits_val(s),
    decreases s.len() - i,
{
    if i < s.len() {
        assert(s.take(i + 1).drop_last() =~= s.take(i));
        assert(s.take(i + 1).last() == s[i]);
        assert(digits_val(s.take(i)) <= digits_val(s.take(i)) * 10 + digit_val(s[i]));
        lemma_digits_val_prefix_le(s, i + 1);
    } else {
        assert(s.take(i) =~= s);
    }
}

/// Walk an optional reference list and keep the ids of the trusted
/// vocabulary whose numeric value is within `threshold`, counting candidates
/// before and after filtering.  Under [`MalformedIdPolicy::Skip`] extraction
/// always succeeds; under [`MalformedIdPolicy::Fail`] it succeeds exactly
/// when no candidate id is non-numeric, and otherwise reports one of the
/// malformed ids.
#[verifier::loop_isolation(false)]
pub fn extract_references(
    input: &Option<ReferenceList>,
    threshold: u64,
    policy: MalformedIdPolicy,
) -> (r: Result<RefExtraction, RefIdFormatError>)
    ensures
        policy == MalformedIdPolicy::Skip ==> r is Ok,
        policy == MalformedIdPolicy::Fail ==> (r is Ok <==> !has_malformed(*input)),
        r matches Ok(ex) ==> ex.ids@ == extracted(*input, threshold) && ex.before as nat == sat_cap(
            before_count(*input),
        ) && ex.after == ex.ids@.len(),
        r matches Err(e) ==> reports_malformed(*input, e),
{
    let list = match input {
        None => {
            return Ok(RefExtraction { ids: Vec::new(), before: 0, after: 0 });
        },
        Some(list) => list,
    };
    let refs = &list.reference;
    let mut out: Vec<String> = Vec::new();
    let mut before: usize = 0;
    let pm = String::from_str("pubmed");
    let mut i: usize = 0;
    proof {
        assert(refs@.take(0) =~= Seq::<Reference>::empty());
    }
    while i < refs.len()
        invariant
            i <= refs@.len(),
            out@ == refs_kept_ids(refs@.take(i as int), threshold),
            before as nat == sat_cap(refs_before_count(refs@.take(i as int))),
            pm@ == "pubmed"@,
            policy == MalformedIdPolicy::Fail ==> forall|k: int|
                0 <= k < i ==> !ref_has_malformed(refs@[k]),
        decreases refs@.len() - i,
    {
        let r = &refs[i];
        proof {
            assert(refs@.take(i as int + 1).drop_last() =~= refs@.take(i as int));
            assert(refs@.take(i as int + 1).last() == refs@[i as int]);
        }
        match &r.article_id_list {
            None => {
                proof {
                    assert(ref_kept_ids(refs@[i as int], threshold) =~= Seq::<String>::empty());
                    assert(out@ + Seq::<String>::empty() =~= out@);
                }
            },
            Some(al) => {
                let ids = &al.article_id;
                before = sat_add_usize(before, ids.len());
                let ghost out_base = out@;
                let mut j: usize = 0;
                proof {
                    assert(ids@.take(0) =~= Seq::<ArticleId>::empty());
                    assert(out@ + kept_ids(ids@.take(0), threshold) =~= out@);
                }
                while j < ids.len()
                    invariant
                        j <= ids@.len(),
                        out@ == out_base + kept_ids(ids@.take(j as int), threshold),
                        policy == MalformedIdPolicy::Fail ==> forall|k: int|
                            0 <= k < j ==> !is_malformed(ids@[k]),
                    decreases ids@.len() - j,
                {
                    let a = &ids[j];
                    proof {
                        assert(ids@.take(j as int + 1).drop_last() =~= ids@.take(j as int));
                        assert(ids@.take(j as int + 1).last() == ids@[j as int]);
                    }
                    if a.ty == pm {
                        match &a.id {
                            Some(ids_str) => {
                                match parse_u64(ids_str.as_str()) {
                                    Some(v) => {
                                        if v <= threshold {
                                            out.push(ids_str.clone());
                                            proof {
                                                assert(out@ =~= out_base + kept_ids(
                                                    ids@.take(j as int + 1),
                                                    threshold,
                                                ));
                                            }
                                        }
                                    },
                                    None => {
                                        proof {
                                            assert(is_malformed(ids@[j as int]));
                                        }
                                        if matches!(policy, MalformedIdPolicy::Fail) {
                                            let e = RefIdFormatError { id: ids_str.clone() };
                                            proof {
                                                let wi = i as int;
                                                let wj = j as int;
                                                assert(refs@[wi].article_id_list matches Some(wal)
                                                    && 0 <= wj < wal.article_id@.len()
                                                    && is_malformed(wal.article_id@[wj]) && e.id
                                                    == wal.article_id@[wj].id->0);
                                                assert(reports_malformed(*input, e));
                                                assert(ref_has_malformed(refs@[wi]));
                                                assert(has_malformed(*input));
                                            }
                                            return Err(e);
                                        }
                                    },
                                }
                            },
                            None => {},
                        }
                    }
                    j = j + 1;
                }
                proof {
                    assert(ids@.take(ids@.len() as int) =~= ids@);
                }
            },
        }
        i = i + 1;
    }
    proof {
        assert(refs@.take(refs@.len() as int) =~= refs@);
        if policy == MalformedIdPolicy::Fail {
            assert(!has_malformed(*input));
        }
    }
    let after = out.len();
    Ok(RefExtraction { ids: out, before, after })
}

/// Extract with the corpus threshold, dropping malformed candidates, and
/// fold the before/after counts into the batch counters.  The self id is
/// what the enclosing article knows itself as; it does not take part in
/// filtering.
pub fn process_references(self_id: u64, input: &Option<ReferenceList>, stats: &mut Stats) -> (r:
    Vec<String>)
    ensures
        r@ == extracted(*input, MAX_VALID_REF_ID),
        final(stats).refs_before_filtering as nat == sat_add(
            old(stats).refs_before_filtering as nat,
            before_count(*input),
        ),
        final(stats).refs_after_filtering as nat == sat_add(
            old(stats).refs_after_filtering as nat,
            after_count(*input, MAX_VALID_REF_ID),
        ),
        final(stats).articles_count == old(stats).articles_count,
        final(stats).jobs_range == old(stats).jobs_range,
        final(stats).completed_job == old(stats).completed_job,
{
    match extract_references(input, MAX_VALID_REF_ID, MalformedIdPolicy::Skip) {
        Ok(ex) => {
            stats.add_refs_before(ex.before);
            stats.add_refs_after(ex.after);
            ex.ids
        },
        Err(_) => {
            proof {
                assert(false);
            }
            Vec::new()
        },
    }
}

/// Filtering identifier pairs that would all be kept changes nothing: the
/// surviving ids are exactly the input's ids in order, so a second pass over
/// an already-filtered sequence keeps everything, and the after-count equals
/// the before-count.
pub proof fn lemma_filter_fixed_point(ids: Seq<ArticleId>, threshold: u64)
    requires
        forall|i: int| 0 <= i < ids.len() ==> is_kept(ids[i], threshold),
    ensures
        kept_ids(ids, threshold).len() == ids.len(),
        forall|i: int| 0 <= i < ids.len() ==> kept_ids(ids, threshold)[i] == ids[i].id->0,
    decreases ids.len(),
{
    if ids.len() > 0 {
        lemma_filter_fixed_point(ids.drop_last(), threshold);
    }
}

/// When every candidate in every reference would be kept, as many ids come
/// out of the filter as went in: the after-count equals the before-count.
pub proof fn lemma_all_kept_counts_equal(input: Option<ReferenceList>, threshold: u64)
    requires
        match input {
            Some(l) => forall|i: int, j: int|
                0 <= i < l.reference@.len() && l.reference@[i].article_id_list is Some && 0 <= j
                    < l.reference@[i].article_id_list->0.article_id@.len() ==> is_kept(
                    l.reference@[i].article_id_list->0.article_id@[j],
                    threshold,
                ),
            None => true,
        },
    ensures
        after_count(input, threshold) == before_count(input),
{
    match input {
        Some(l) => {
            lemma_refs_all_kept(l.reference@, threshold);
        },
        None => {},
    }
}

/// Helper: across a reference sequence whose candidates are all kept, the
/// surviving ids number exactly the candidates.
proof fn lemma_refs_all_kept(refs: Seq<Reference>, threshold: u64)
    requires
        forall|i: int, j: int|
            0 <= i < refs.len() && refs[i].article_id_list is Some && 0 <= j
                < refs[i].article_id_list->0.article_id@.len() ==> is_kept(
                refs[i].article_id_list->0.article_id@[j],
                threshold,
            ),
    ensures
        refs_kept_ids(refs, threshold).len() == refs_before_count(refs),
    decreases refs.len(),
{
    if refs.len() > 0 {
        lemma_refs_all_kept(refs.drop_last(), threshold);
        let last = refs.last();
        match last.article_id_list {
            Some(al) => {
                assert(forall|j: int| 0 <= j < al.article_id@.len() ==> is_kept(al.article_id@[j], threshold));
                lemma_filter_fixed_point(al.article_id@, threshold);
            },
            None => {},
        }
    }
}

} // verus!
