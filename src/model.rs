//! The record model: work summaries as the registry lists them, full work
//! details, and the collection that the cache file holds.
use vstd::prelude::*;

verus! {

/// A value wrapped in a `{ "value": ... }` object, as the registry writes it.
#[derive(Debug, Clone, PartialEq, Eq)]
pub struct Value<T> {
    pub value: T,
}

#[derive(Debug, Clone, PartialEq, Eq)]
pub struct ExternalId {
    pub external_id_type: String,
    pub external_id_value: String,
    pub external_id_url: Option<Value<String>>,
    pub external_id_relationship: String,
}

#[derive(Debug, Clone, PartialEq, Eq)]
pub struct SourceRef {
    pub uri: Option<String>,
    pub path: Option<String>,
    pub host: Option<String>,
}

#[derive(Debug, Clone, PartialEq, Eq)]
pub struct Source {
    pub source_orcid: Option<SourceRef>,
    pub source_client_id: Option<SourceRef>,
    pub source_name: Option<Value<String>>,
}

#[derive(Debug, Clone, PartialEq, Eq)]
pub struct Title {
    pub title: Value<String>,
    pub subtitle: Option<Value<String>>,
    pub translated_title: Option<TranslatedTitle>,
}

#[derive(Debug, Clone, PartialEq, Eq)]
pub struct TranslatedTitle {
    pub value: String,
    pub language_code: String,
}

#[derive(Debug, Clone, PartialEq, Eq)]
pub struct PublicationDate {
    pub year: Value<String>,
    pub month: Option<Value<String>>,
    pub day: Option<Value<String>>,
    pub media_type: Option<String>,
}

#[derive(Debug, Clone, PartialEq, Eq)]
pub struct Contributor {
    pub contributor_orcid: Option<SourceRef>,
    pub credit_name: Option<Value<String>>,
    pub contributor_email: Option<Value<String>>,
    pub contributor_attributes: Option<ContributorAttributes>,
}

#[derive(Debug, Clone, PartialEq, Eq)]
pub struct ContributorAttributes {
    pub contributor_sequence: Option<String>,
    pub contributor_role: Option<String>,
}

#[derive(Debug, Clone, PartialEq, Eq)]
pub struct ExternalIds {
    pub external_id: Option<Vec<ExternalId>>,
}

/// The lightweight record that the registry lists for a work: enough to tell
/// whether the cached detail is stale.
#[derive(Debug, Clone, PartialEq, Eq)]
pub struct OrcidWorkSummary {
    /// The record identifier ("put-code"), unique within one owner's works.
    pub put_code: u64,
    pub created_date: Value<u64>,
    /// Modification time, in milliseconds since the epoch.
    pub last_modified_date: Value<u64>,
    pub source: Source,
    pub title: Title,
    pub external_ids: ExternalIds,
    /// The work's type ("journal-article", ...).
    pub work_type: String,
    pub publication_date: Option<PublicationDate>,
    pub visibility: String,
    pub path: String,
    pub display_index: Option<String>,
}

#[derive(Debug, Clone, PartialEq, Eq)]
pub struct Citation {
    pub citation_type: String,
    pub citation_value: String,
}

#[derive(Debug, Clone, PartialEq, Eq)]
pub struct Contributors {
    pub contributor: Option<Vec<Contributor>>,
}

/// The full record of one work: its summary and the extended fields. This is
/// the unit that the cache stores.
#[derive(Debug, Clone, PartialEq, Eq)]
pub struct OrcidWorkDetail {
    pub summary: OrcidWorkSummary,
    pub journal_title: Option<Value<String>>,
    pub short_description: Option<String>,
    pub citation: Option<Citation>,
    pub url: Option<Value<String>>,
    pub contributors: Option<Contributors>,
    pub language_code: Option<String>,
    pub country: Option<Value<String>>,
}

/// A cluster of summaries that the registry groups together.
#[derive(Debug, Clone, PartialEq, Eq)]
pub struct WorkGroup {
    pub last_modified_date: Value<u64>,
    pub external_ids: ExternalIds,
    pub work_summary: Vec<OrcidWorkSummary>,
}

/// The summary list of one owner's works.
#[derive(Debug, Clone, PartialEq, Eq)]
pub struct OrcidWorks {
    pub last_modified_date: Value<u64>,
    pub group: Vec<WorkGroup>,
    pub path: String,
}

/// The collection that the cache file holds.
#[derive(Debug, Clone, PartialEq, Eq)]
pub struct OrcidWorkDetailFile {
    pub records: Vec<OrcidWorkDetail>,
}

/// The identifier of a detail record.
pub open spec fn put_code_of(d: OrcidWorkDetail) -> u64 {
    d.summary.put_code
}

/// The modification time of a detail record.
pub open spec fn stamp_of(d: OrcidWorkDetail) -> u64 {
    d.summary.last_modified_date.value
}

} // verus!
