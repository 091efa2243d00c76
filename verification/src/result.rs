//! What searches, listings and metadata reads return.
use vstd::prelude::*;
use crate::text;
use crate::vector::VectorKind;

verus! {

/// A single search hit.
#[derive(Debug, Clone, PartialEq)]
pub struct QueryResult {
    /// Stable row id.
    pub id: u64,
    /// Similarity score, by its bits; the metric depends on the query type.
    pub score: u32,
    /// The stored vector, unless the caller opted out; always `None` for
    /// multivector hits.
    pub vector: Option<Vec<u32>>,
    /// The stored text, if any.
    pub text: Option<String>,
    /// Write time in microseconds since the Unix epoch; `None` where the table
    /// has no such column.
    pub ingested_at_micros: Option<i64>,
}

/// A full query response.
#[derive(Debug, Clone, PartialEq)]
pub struct QueryResultSet {
    /// Opaque identifier for tracing. No part of any cache key.
    pub query_id: String,
    /// Hits, ranked by the engine.
    pub results: Vec<QueryResult>,
}

/// A hit by its contents: id, score, vector, text, write time.
pub type HitView = (u64, u32, Option<Seq<u32>>, Option<Seq<char>>, Option<i64>);

/// The components of an optional vector.
pub open spec fn vector_opt(o: Option<Vec<u32>>) -> Option<Seq<u32>> {
    match o {
        Some(v) => Some(v@),
        None => None,
    }
}

impl View for QueryResult {
    type V = HitView;

    open spec fn view(&self) -> HitView {
        (
            self.id,
            self.score,
            vector_opt(self.vector),
            text::text_opt(self.text),
            self.ingested_at_micros,
        )
    }
}

/// The contents of a run of hits.
pub open spec fn hits(s: Seq<QueryResult>) -> Seq<HitView> {
    s.map_values(|h: QueryResult| h@)
}

impl View for QueryResultSet {
    type V = (Seq<char>, Seq<HitView>);

    open spec fn view(&self) -> (Seq<char>, Seq<HitView>) {
        (self.query_id@, hits(self.results@))
    }
}

/// Sort order of a listing.
#[derive(Debug, Clone, Copy, PartialEq, Eq, Structural)]
pub enum ListOrder {
    /// Oldest first.
    Asc,
    /// Newest first.
    Desc,
}

/// A single row of a listing.
#[derive(Debug, Clone, PartialEq)]
pub struct ListRow {
    /// Stable row id.
    pub id: u64,
    /// The stored vector; empty for multivector rows.
    pub vector: Vec<u32>,
    /// The stored text, if any.
    pub text: Option<String>,
    /// Write time in microseconds since the Unix epoch.
    pub ingested_at_micros: i64,
}

/// A listed row by its contents: id, vector, text, write time.
pub type ListRowView = (u64, Seq<u32>, Option<Seq<char>>, i64);

impl View for ListRow {
    type V = ListRowView;

    open spec fn view(&self) -> ListRowView {
        (self.id, self.vector@, text::text_opt(self.text), self.ingested_at_micros)
    }
}

/// The contents of a run of listed rows.
pub open spec fn listed(s: Seq<ListRow>) -> Seq<ListRowView> {
    s.map_values(|r: ListRow| r@)
}

/// A page of a listing.
#[derive(Debug, Clone, PartialEq)]
pub struct ListPage {
    /// Rows in the requested order.
    pub rows: Vec<ListRow>,
    /// Cursor for the next page; `None` on the last one.
    pub next_cursor: Option<String>,
}

impl View for ListPage {
    type V = (Seq<ListRowView>, Option<Seq<char>>);

    open spec fn view(&self) -> (Seq<ListRowView>, Option<Seq<char>>) {
        (listed(self.rows@), text::text_opt(self.next_cursor))
    }
}

/// Operational metadata of a namespace.
#[derive(Debug, Clone, PartialEq)]
pub struct NamespaceInfo {
    /// Namespace name.
    pub namespace: String,
    /// Vector representation.
    pub kind: VectorKind,
    /// Vector dimension; the sub-vector width for multivector namespaces.
    pub vector_dim: usize,
    /// Live row count.
    pub row_count: usize,
    /// Number of data fragments.
    pub fragment_count: usize,
    /// Whether a vector index is built.
    pub has_vector_index: bool,
    /// Whether a full-text index is built.
    pub has_fts_index: bool,
    /// Whether a scalar index is built.
    pub has_scalar_index: bool,
    /// Current table version.
    pub table_version: u64,
}

// ------------------------------------------------------------------ laws
/// Hits that are the same by their contents are the same in every part: id, score,
/// each component of the vector, text and write time.
pub proof fn law_hits_are_seen_whole(a: QueryResult, b: QueryResult)
    requires
        a@ == b@,
    ensures
        a.id == b.id,
        a.score == b.score,
        a.vector is Some <==> b.vector is Some,
        a.vector is Some ==> a.vector->0@ == b.vector->0@,
        a.text is Some <==> b.text is Some,
        a.text is Some ==> a.text->0@ == b.text->0@,
        a.ingested_at_micros == b.ingested_at_micros,
{
}

/// Results that are the same by their contents have as many hits, each the same, in
/// the same order.
pub proof fn law_results_are_seen_whole(a: QueryResultSet, b: QueryResultSet, i: int)
    requires
        a@ == b@,
        0 <= i < a.results@.len(),
    ensures
        a.query_id@ == b.query_id@,
        a.results@.len() == b.results@.len(),
        a.results@[i]@ == b.results@[i]@,
{
    assert(hits(a.results@)[i] == hits(b.results@)[i]);
    assert(hits(a.results@).len() == hits(b.results@).len());
}

/// Pages that are the same by their contents have the same rows in the same order,
/// each the same in every part, and the same cursor.
pub proof fn law_pages_are_seen_whole(a: ListPage, b: ListPage, i: int)
    requires
        a@ == b@,
        0 <= i < a.rows@.len(),
    ensures
        a.rows@.len() == b.rows@.len(),
        a.rows@[i].id == b.rows@[i].id,
        a.rows@[i].vector@ == b.rows@[i].vector@,
        a.rows@[i].text is Some <==> b.rows@[i].text is Some,
        a.rows@[i].text is Some ==> a.rows@[i].text->0@ == b.rows@[i].text->0@,
        a.rows@[i].ingested_at_micros == b.rows@[i].ingested_at_micros,
        a.next_cursor is Some <==> b.next_cursor is Some,
        a.next_cursor is Some ==> a.next_cursor->0@ == b.next_cursor->0@,
{
    assert(listed(a.rows@)[i] == listed(b.rows@)[i]);
    assert(listed(a.rows@).len() == listed(b.rows@).len());
}

} // verus!
