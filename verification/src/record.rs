//! Record assembly.
//!
//! [`assemble`] turns one parsed article into its flat output record: the
//! title is flattened, the keywords are flattened and collected as an
//! ordered set keeping each string's first appearance, the author list is
//! resolved, the cross-references of the first reference list are extracted
//! and filtered, and the remaining fields are carried over unchanged.  Optional sections
//! stay optional: an absent section of the source is an absent field of the
//! record.  [`assemble_set`] does this for a whole collection in source
//! order, folding the reference counts of every article into the batch
//! counters as it goes.

use vstd::prelude::*;
use crate::authors::{
    all_valid,
    rejected_with,
    resolved,
    resolve_authors,
    AuthorAmbiguityError,
    AuthorList,
    RawAuthorEntry,
};
use crate::flatten::{flatten, flattened};
use crate::refs::{
    after_count,
    before_count,
    extracted,
    process_references,
    ArticleId,
    ReferenceList,
    MAX_VALID_REF_ID,
};
use crate::stats::{sat_add, Stats};
use crate::tree::{Date, GrantList, JournalIssue, KeywordList, PubmedArticle, PubmedArticleSet, PublicationType};

verus! {

/// The journal block of one output record: journal-info fields merged with
/// the journal's own title and optional issue block.
#[derive(Debug)]
pub struct Journal {
    pub id: String,
    pub country: String,
    pub issn: String,
    pub title: String,
    pub journal_issue: Option<JournalIssue>,
}

/// One flat output record.
#[derive(Debug)]
pub struct Article {
    pub id: u64,
    pub title: String,
    pub pub_model: String,
    pub date_created: Date,
    pub date_completed: Option<Date>,
    pub keywords: Vec<String>,
    pub journal: Journal,
    pub authors: Option<AuthorList>,
    pub publication_types: Vec<PublicationType>,
    pub grants: Option<GrantList>,
    pub references: Vec<String>,
    pub article_ids: Vec<ArticleId>,
}

/// Every keyword of every keyword list, in source order.
pub open spec fn all_keywords(kls: Seq<KeywordList>) -> Seq<crate::flatten::MixedContentNode>
    decreases kls.len(),
{
    if kls.len() == 0 {
        Seq::empty()
    } else {
        all_keywords(kls.drop_last()) + kls.last().keyword@
    }
}

/// The flattened text of one keyword node.
pub open spec fn node_text(n: crate::flatten::MixedContentNode) -> Seq<char> {
    flattened(n.segments@)
}

/// The flattened texts of a sequence of keyword nodes, in order.
pub open spec fn node_texts(nodes: Seq<crate::flatten::MixedContentNode>) -> Seq<Seq<char>> {
    nodes.map_values(|n: crate::flatten::MixedContentNode| node_text(n))
}

/// The flattened text of every keyword of every list, in source order,
/// duplicates included.
pub open spec fn keyword_texts(kls: Seq<KeywordList>) -> Seq<Seq<char>> {
    node_texts(all_keywords(kls))
}

/// The character sequences of a sequence of strings.
pub open spec fn texts_of(out: Seq<String>) -> Seq<Seq<char>> {
    out.map_values(|s: String| s@)
}

/// Whether `t` occurs among `texts`.
pub open spec fn contains_text(texts: Seq<Seq<char>>, t: Seq<char>) -> bool {
    exists|i: int| 0 <= i < texts.len() && texts[i] == t
}

/// `texts` with every later duplicate removed: an ordered set keeping the
/// first occurrence of each string, in order of first appearance.
pub open spec fn dedup_texts(texts: Seq<Seq<char>>) -> Seq<Seq<char>>
    decreases texts.len(),
{
    if texts.len() == 0 {
        Seq::empty()
    } else {
        let rest = dedup_texts(texts.drop_last());
        if contains_text(texts.drop_last(), texts.last()) {
            rest
        } else {
            rest.push(texts.last())
        }
    }
}

/// Whether `out` holds the distinct flattened keyword strings of the lists,
/// as an ordered set in order of first appearance.
pub open spec fn keywords_flattened(out: Seq<String>, kls: Seq<KeywordList>) -> bool {
    texts_of(out) == dedup_texts(keyword_texts(kls))
}

/// The reference list an article's cross-references come from: the first
/// top-level block, further blocks being deliberately ignored.
pub open spec fn first_reference_list(lists: Seq<ReferenceList>) -> Option<ReferenceList> {
    if lists.len() == 0 {
        None
    } else {
        Some(lists[0])
    }
}

/// Whether an optional author list can be resolved: absent, or every entry
/// valid.
pub open spec fn author_list_ok(src: Option<Vec<RawAuthorEntry>>) -> bool {
    match src {
        None => true,
        Some(entries) => all_valid(entries@),
    }
}

/// Whether `out` is the resolution of the optional author list `src`.
pub open spec fn authors_resolved(src: Option<Vec<RawAuthorEntry>>, out: Option<AuthorList>) -> bool {
    match src {
        None => out is None,
        Some(entries) => out matches Some(al) && al.author@.len() == entries@.len() && (forall|
            i: int,
        | 0 <= i < entries@.len() ==> al.author@[i] == resolved(entries@[i])),
    }
}

/// Whether `rec` is the record assembled from `a`: every computed field is
/// what the flattener, the resolver and the extractor yield, and every other
/// field is carried over unchanged.
pub open spec fn is_assembly(rec: Article, a: PubmedArticle) -> bool {
    let mc = a.medline_citation;
    let art = mc.article;
    &&& rec.id == mc.id
    &&& rec.title@ == flattened(art.article_title.segments@)
    &&& rec.pub_model == art.pub_model
    &&& rec.date_created == mc.date_revised
    &&& rec.date_completed == mc.date_completed
    &&& keywords_flattened(rec.keywords@, mc.keyword_list@)
    &&& rec.journal.id == mc.medline_journal_info.id
    &&& rec.journal.country == mc.medline_journal_info.country
    &&& rec.journal.issn == mc.medline_journal_info.issn
    &&& rec.journal.title == art.journal.title
    &&& rec.journal.journal_issue == art.journal.journal_issue
    &&& authors_resolved(art.author_list, rec.authors)
    &&& rec.publication_types == art.publication_type_list.publication_type
    &&& rec.grants == art.grant_list
    &&& rec.references@ == extracted(
        first_reference_list(a.pubmed_data.reference_list@),
        MAX_VALID_REF_ID,
    )
    &&& rec.article_ids == a.pubmed_data.article_id_list.article_id
}

/// Candidates the first reference lists of a collection hold, before
/// filtering.
pub open spec fn set_before_count(arts: Seq<PubmedArticle>) -> nat
    decreases arts.len(),
{
    if arts.len() == 0 {
        0
    } else {
        set_before_count(arts.drop_last()) + before_count(
            first_reference_list(arts.last().pubmed_data.reference_list@),
        )
    }
}

/// Candidates of a collection surviving the filter.
pub open spec fn set_after_count(arts: Seq<PubmedArticle>, threshold: u64) -> nat
    decreases arts.len(),
{
    if arts.len() == 0 {
        0
    } else {
        set_after_count(arts.drop_last(), threshold) + after_count(
            first_reference_list(arts.last().pubmed_data.reference_list@),
            threshold,
        )
    }
}

/// Membership among the strings collected so far, compared by contents.
fn contains_string(out: &Vec<String>, s: &String) -> (r: bool)
    ensures
        r == contains_text(texts_of(out@), s@),
{
    let mut k: usize = 0;
    while k < out.len()
        invariant
            k <= out@.len(),
            forall|i: int| 0 <= i < k ==> out@[i]@ != s@,
        decreases out@.len() - k,
    {
        if out[k] == *s {
            proof {
                assert(texts_of(out@)[k as int] == s@);
            }
            return true;
        }
        k = k + 1;
    }
    proof {
        assert(forall|i: int| 0 <= i < out@.len() ==> texts_of(out@)[i] != s@);
    }
    false
}

/// Membership in a sequence extended by one string.
proof fn lemma_contains_push(texts: Seq<Seq<char>>, x: Seq<char>, t: Seq<char>)
    ensures
        contains_text(texts.push(x), t) == (contains_text(texts, t) || x == t),
{
    if contains_text(texts, t) {
        let i = choose|i: int| 0 <= i < texts.len() && texts[i] == t;
        assert(texts.push(x)[i] == t);
    }
    if x == t {
        assert(texts.push(x)[texts.len() as int] == t);
    }
    if contains_text(texts.push(x), t) {
        let i = choose|i: int| 0 <= i < texts.push(x).len() && texts.push(x)[i] == t;
        if i < texts.len() {
            assert(texts[i] == t);
        }
    }
}

/// Deduplication keeps exactly the strings that occur.
proof fn lemma_dedup_contains(texts: Seq<Seq<char>>, t: Seq<char>)
    ensures
        contains_text(dedup_texts(texts), t) == contains_text(texts, t),
    decreases texts.len(),
{
    if texts.len() > 0 {
        let prefix = texts.drop_last();
        let x = texts.last();
        lemma_dedup_contains(prefix, t);
        assert(texts =~= prefix.push(x));
        lemma_contains_push(prefix, x, t);
        if !contains_text(prefix, x) {
            lemma_contains_push(dedup_texts(prefix), x, t);
        }
    }
}

/// Flatten every keyword of every keyword list, collecting the distinct
/// strings in order of first appearance.
#[verifier::loop_isolation(false)]
fn flatten_keywords(kls: &Vec<KeywordList>) -> (r: Vec<String>)
    ensures
        keywords_flattened(r@, kls@),
{
    let mut out: Vec<String> = Vec::new();
    let mut i: usize = 0;
    proof {
        assert(kls@.take(0) =~= Seq::<KeywordList>::empty());
        assert(all_keywords(kls@.take(0)) =~= Seq::<crate::flatten::MixedContentNode>::empty());
        assert(keyword_texts(kls@.take(0)) =~= Seq::<Seq<char>>::empty());
        assert(texts_of(out@) =~= Seq::<Seq<char>>::empty());
    }
    while i < kls.len()
        invariant
            i <= kls@.len(),
            texts_of(out@) == dedup_texts(keyword_texts(kls@.take(i as int))),
        decreases kls@.len() - i,
    {
        let kl = &kls[i];
        let ghost base = keyword_texts(kls@.take(i as int));
        let mut j: usize = 0;
        proof {
            assert(node_texts(kl.keyword@.take(0)) =~= Seq::<Seq<char>>::empty());
            assert(base + node_texts(kl.keyword@.take(0)) =~= base);
        }
        while j < kl.keyword.len()
            invariant
                j <= kl.keyword@.len(),
                texts_of(out@) == dedup_texts(base + node_texts(kl.keyword@.take(j as int))),
            decreases kl.keyword@.len() - j,
        {
            let s = flatten(&kl.keyword[j]);
            let dup = contains_string(&out, &s);
            let ghost cur = base + node_texts(kl.keyword@.take(j as int));
            let ghost t = s@;
            proof {
                assert(t == node_text(kl.keyword@[j as int]));
                lemma_dedup_contains(cur, t);
                assert(cur.push(t).drop_last() =~= cur);
                assert(cur.push(t).last() == t);
                assert(node_texts(kl.keyword@.take(j as int + 1)) =~= node_texts(
                    kl.keyword@.take(j as int),
                ).push(t));
                assert(base + node_texts(kl.keyword@.take(j as int + 1)) =~= cur.push(t));
            }
            if !dup {
                out.push(s);
                proof {
                    assert(texts_of(out@) =~= dedup_texts(cur).push(t));
                }
            }
            j = j + 1;
        }
        proof {
            assert(kl.keyword@.take(kl.keyword@.len() as int) =~= kl.keyword@);
            assert(kls@.take(i as int + 1).drop_last() =~= kls@.take(i as int));
            assert(kls@.take(i as int + 1).last() == kls@[i as int]);
            assert(all_keywords(kls@.take(i as int + 1)) == all_keywords(kls@.take(i as int))
                + kls@[i as int].keyword@);
            assert(keyword_texts(kls@.take(i as int + 1)) =~= base + node_texts(
                kls@[i as int].keyword@,
            ));
        }
        i = i + 1;
    }
    proof {
        assert(kls@.take(kls@.len() as int) =~= kls@);
    }
    out
}

/// The first reference list, taken out of the sequence of blocks.
fn take_first_reference_list(lists: Vec<ReferenceList>) -> (r: Option<ReferenceList>)
    ensures
        r == first_reference_list(lists@),
{
    let mut l = lists;
    if l.len() == 0 {
        None
    } else {
        Some(l.remove(0))
    }
}

/// Assemble one article into its flat record.  Succeeds exactly when the
/// author list, if present, resolves; the counts of the article's first
/// reference list are folded into the batch counters on success, and the
/// counters are untouched on failure.
pub fn assemble(article: PubmedArticle, stats: &mut Stats) -> (r: Result<
    Article,
    AuthorAmbiguityError,
>)
    ensures
        r is Ok <==> author_list_ok(article.medline_citation.article.author_list),
        r matches Ok(rec) ==> is_assembly(rec, article),
        r matches Ok(rec) ==> final(stats).refs_before_filtering as nat == sat_add(
            old(stats).refs_before_filtering as nat,
            before_count(first_reference_list(article.pubmed_data.reference_list@)),
        ) && final(stats).refs_after_filtering as nat == sat_add(
            old(stats).refs_after_filtering as nat,
            after_count(
                first_reference_list(article.pubmed_data.reference_list@),
                MAX_VALID_REF_ID,
            ),
        ),
        r matches Err(e) ==> *final(stats) == *old(stats) && (
        article.medline_citation.article.author_list matches Some(entries) && rejected_with(
            entries@,
            e,
        )),
        final(stats).articles_count == old(stats).articles_count,
        final(stats).jobs_range == old(stats).jobs_range,
        final(stats).completed_job == old(stats).completed_job,
{
    let PubmedArticle { medline_citation: mc, pubmed_data: pd } = article;
    let crate::tree::MedlineCitation {
        id,
        date_revised,
        date_completed,
        article: art,
        medline_journal_info: mji,
        keyword_list,
    } = mc;
    let crate::tree::Article {
        pub_model,
        journal,
        article_title,
        author_list,
        publication_type_list,
        grant_list,
    } = art;
    let title = flatten(&article_title);
    let keywords = flatten_keywords(&keyword_list);
    let authors = match author_list {
        None => None,
        Some(entries) => match resolve_authors(entries) {
            Ok(al) => Some(al),
            Err(e) => {
                return Err(e);
            },
        },
    };
    let crate::tree::PubMedData { article_id_list, reference_list } = pd;
    let input = take_first_reference_list(reference_list);
    let references = process_references(id, &input, stats);
    Ok(
        Article {
            id,
            title,
            pub_model,
            date_created: date_revised,
            date_completed,
            keywords,
            journal: Journal {
                id: mji.id,
                country: mji.country,
                issn: mji.issn,
                title: journal.title,
                journal_issue: journal.journal_issue,
            },
            authors,
            publication_types: publication_type_list.publication_type,
            grants: grant_list,
            references,
            article_ids: article_id_list.article_id,
        },
    )
}

/// Assemble a whole collection in source order.  Succeeds exactly when every
/// article's author list resolves; the reference counts of every assembled
/// article are folded into the batch counters, and on failure the counters
/// stand exactly at the totals of the articles before the failing one.
#[verifier::loop_isolation(false)]
pub fn assemble_set(set: PubmedArticleSet, stats: &mut Stats) -> (r: Result<
    Vec<Article>,
    AuthorAmbiguityError,
>)
    ensures
        r is Ok <==> (forall|i: int|
            0 <= i < set.pubmed_article@.len() ==> author_list_ok(
                set.pubmed_article@[i].medline_citation.article.author_list,
            )),
        r matches Ok(recs) ==> recs@.len() == set.pubmed_article@.len() && (forall|i: int|
            0 <= i < recs@.len() ==> is_assembly(recs@[i], set.pubmed_article@[i])),
        r matches Ok(recs) ==> final(stats).refs_before_filtering as nat == sat_add(
            old(stats).refs_before_filtering as nat,
            set_before_count(set.pubmed_article@),
        ) && final(stats).refs_after_filtering as nat == sat_add(
            old(stats).refs_after_filtering as nat,
            set_after_count(set.pubmed_article@, MAX_VALID_REF_ID),
        ),
        r matches Err(e) ==> exists|k: int|
            0 <= k < set.pubmed_article@.len() && !author_list_ok(
                #[trigger] set.pubmed_article@[k].medline_citation.article.author_list,
            ) && (forall|j: int|
                0 <= j < k ==> author_list_ok(
                    set.pubmed_article@[j].medline_citation.article.author_list,
                )) && (set.pubmed_article@[k].medline_citation.article.author_list matches Some(
                entries,
            ) && rejected_with(entries@, e)) && final(stats).refs_before_filtering as nat
                == sat_add(
                old(stats).refs_before_filtering as nat,
                set_before_count(set.pubmed_article@.take(k)),
            ) && final(stats).refs_after_filtering as nat == sat_add(
                old(stats).refs_after_filtering as nat,
                set_after_count(set.pubmed_article@.take(k), MAX_VALID_REF_ID),
            ),
        final(stats).articles_count == old(stats).articles_count,
        final(stats).jobs_range == old(stats).jobs_range,
        final(stats).completed_job == old(stats).completed_job,
{
    let ghost orig = set.pubmed_article@;
    let ghost stats0 = *stats;
    let mut rem = set.pubmed_article;
    let mut out: Vec<Article> = Vec::new();
    proof {
        assert(orig.take(0) =~= Seq::<PubmedArticle>::empty());
    }
    while rem.len() > 0
        invariant
            out@.len() + rem@.len() == orig.len(),
            forall|i: int| 0 <= i < out@.len() ==> is_assembly(out@[i], orig[i]),
            forall|i: int|
                0 <= i < out@.len() ==> author_list_ok(
                    orig[i].medline_citation.article.author_list,
                ),
            forall|i: int| out@.len() <= i < orig.len() ==> rem@[i - out@.len()] == orig[i],
            stats.refs_before_filtering as nat == sat_add(
                stats0.refs_before_filtering as nat,
                set_before_count(orig.take(out@.len() as int)),
            ),
            stats.refs_after_filtering as nat == sat_add(
                stats0.refs_after_filtering as nat,
                set_after_count(orig.take(out@.len() as int), MAX_VALID_REF_ID),
            ),
            stats.articles_count == stats0.articles_count,
            stats.jobs_range == stats0.jobs_range,
            stats.completed_job == stats0.completed_job,
        decreases rem@.len(),
    {
        let ghost k = out@.len() as int;
        let a = rem.remove(0);
        proof {
            assert(a == orig[k]);
            assert(orig.take(k + 1).drop_last() =~= orig.take(k));
            assert(orig.take(k + 1).last() == orig[k]);
        }
        match assemble(a, stats) {
            Ok(rec) => {
                out.push(rec);
            },
            Err(e) => {
                return Err(e);
            },
        }
    }
    proof {
        assert(orig.take(orig.len() as int) =~= orig);
    }
    Ok(out)
}

} // verus!
