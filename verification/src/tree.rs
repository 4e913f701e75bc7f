//! The parsed input tree.
//!
//! These types hold one article collection as the upstream parser delivers
//! it: journal metadata, dates, identifiers, keyword and publication-type
//! lists, raw author entries still awaiting classification, and
//! mixed-content titles and keywords still awaiting flattening.

use vstd::prelude::*;
use crate::authors::RawAuthorEntry;
use crate::flatten::MixedContentNode;
use crate::refs::{ArticleIdList, ReferenceList};

verus! {

/// A calendar date as the source carries it.
#[derive(Debug, Clone, Copy, PartialEq, Eq, Structural)]
pub struct Date {
    pub year: u16,
    pub month: u8,
    pub day: u8,
}

/// Volume and issue of one journal issue, either possibly absent.
#[derive(Debug)]
pub struct JournalIssue {
    pub volume: Option<String>,
    pub issue: Option<String>,
}

/// A serial number with its type tag.
#[derive(Debug)]
pub struct Issn {
    pub id: String,
    pub ty: String,
}

/// The journal element of one article.
#[derive(Debug)]
pub struct Journal {
    pub issn: Option<Issn>,
    pub journal_issue: Option<JournalIssue>,
    pub title: String,
}

/// The journal-info block kept beside the citation.
#[derive(Debug)]
pub struct MedlineJournalInfo {
    pub id: String,
    pub country: String,
    pub issn: String,
}

/// One grant acknowledged by an article.
#[derive(Debug)]
pub struct Grant {
    pub id: Option<String>,
    pub acronym: Option<String>,
    pub agency: String,
    pub country: Option<String>,
}

/// The grant list of one article.
#[derive(Debug)]
pub struct GrantList {
    pub grant: Vec<Grant>,
}

/// One keyword list; each keyword is mixed content until flattened.
#[derive(Debug)]
pub struct KeywordList {
    pub keyword: Vec<MixedContentNode>,
}

/// One publication type with its identifier.
#[derive(Debug)]
pub struct PublicationType {
    pub id: String,
    pub name: String,
}

/// The publication-type list of one article.
#[derive(Debug)]
pub struct PublicationTypeList {
    pub publication_type: Vec<PublicationType>,
}

/// The article element proper.
#[derive(Debug)]
pub struct Article {
    pub pub_model: String,
    pub journal: Journal,
    pub article_title: MixedContentNode,
    pub author_list: Option<Vec<RawAuthorEntry>>,
    pub publication_type_list: PublicationTypeList,
    pub grant_list: Option<GrantList>,
}

/// The citation block: identifier, dates, article, journal info, keywords.
#[derive(Debug)]
pub struct MedlineCitation {
    pub id: u64,
    pub date_revised: Date,
    pub date_completed: Option<Date>,
    pub article: Article,
    pub medline_journal_info: MedlineJournalInfo,
    pub keyword_list: Vec<KeywordList>,
}

/// The data block beside the citation: the article's own identifiers and
/// its reference lists.
#[derive(Debug)]
pub struct PubMedData {
    pub article_id_list: ArticleIdList,
    pub reference_list: Vec<ReferenceList>,
}

/// One article of the collection.
#[derive(Debug)]
pub struct PubmedArticle {
    pub medline_citation: MedlineCitation,
    pub pubmed_data: PubMedData,
}

/// One parsed input document: an article collection.
#[derive(Debug)]
pub struct PubmedArticleSet {
    pub pubmed_article: Vec<PubmedArticle>,
}

} // verus!
