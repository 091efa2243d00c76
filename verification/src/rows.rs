//! Rows on their way into a namespace: what shape a payload has, and whether a
//! request as a whole may be written.
use std::collections::HashSet;
use vstd::prelude::*;
use crate::error::{self, ErrorView, FirnflowError};
use crate::query;
use crate::text;
use crate::vector::{self, VectorKind};

verus! {

broadcast use vstd::std_specs::hash::group_hash_axioms;

/// A single row to write. At most one of the two vector fields is populated.
#[derive(Debug, Clone)]
pub struct UpsertRow {
    /// Stable row identifier.
    pub id: u64,
    /// Single-vector payload; empty means none.
    pub vector: Vec<u32>,
    /// Multivector payload.
    pub vectors: Option<Vec<Vec<u32>>>,
    /// Text payload.
    pub text: Option<String>,
    /// Attributes that the writer gave the row: the name of each, and its value
    /// as JSON text.
    pub attributes: Vec<(String, String)>,
}

impl From<(u64, Vec<u32>)> for UpsertRow {
    fn from(pair: (u64, Vec<u32>)) -> (r: UpsertRow)
        ensures
            r.id == pair.0,
            r.vector == pair.1,
            r.vectors is None,
            r.text is None,
            r.attributes@.len() == 0,
    {
        UpsertRow { id: pair.0, vector: pair.1, vectors: None, text: None, attributes: Vec::new() }
    }
}

impl vstd::std_specs::convert::FromSpecImpl<(u64, Vec<u32>)> for UpsertRow {
    open spec fn obeys_from_spec() -> bool {
        false
    }

    open spec fn from_spec(pair: (u64, Vec<u32>)) -> UpsertRow {
        arbitrary()
    }
}

/// What is known of a namespace's table: the vector width, the vector
/// representation, and whether rows carry their write time.
#[derive(Debug, Clone, Copy, PartialEq, Eq, Structural)]
pub struct NamespaceSchemaInfo {
    /// Vector dimension; the sub-vector width for multivector namespaces.
    pub dim: usize,
    /// Vector representation.
    pub kind: VectorKind,
    /// Whether the table has the write-time column.
    pub has_ingested_at: bool,
}

/// The position of the first sub-vector at or after `from` whose width is not
/// `dim`, if there is one.
pub open spec fn first_off_width(subs: Seq<Vec<u32>>, dim: usize, from: int) -> Option<int>
    decreases subs.len() - from,
{
    if from < 0 || from >= subs.len() {
        None
    } else if subs[from].len() != dim {
        Some(from)
    } else {
        first_off_width(subs, dim, from + 1)
    }
}

/// The start of every message about a row.
pub open spec fn row_label(id: u64) -> Seq<char> {
    "row id "@ + text::dec(id as nat)
}

/// The representation and width that a row's payload implies, or why it
/// implies none.
pub open spec fn payload(row: UpsertRow) -> Result<(VectorKind, usize), ErrorView> {
    let single = row.vector@.len() > 0;
    let multi = query::has_vectors(row.vectors);
    if single && multi {
        Err(
            ErrorView::InvalidRequest(
                row_label(row.id) + ": set exactly one of `vector` or `vectors`, not both"@,
            ),
        )
    } else if single {
        Ok((VectorKind::Single, row.vector.len()))
    } else if multi {
        let subs = row.vectors->0@;
        let dim = subs[0].len();
        if dim == 0 {
            Err(
                ErrorView::InvalidRequest(
                    row_label(row.id) + ": multivector sub-vector 0 is empty"@,
                ),
            )
        } else {
            match first_off_width(subs, dim, 0) {
                Some(i) => Err(
                    ErrorView::InvalidRequest(
                        row_label(row.id) + ": multivector sub-vector "@ + text::dec(i as nat)
                            + " length "@ + text::dec(subs[i].len() as nat) + ", expected "@
                            + text::dec(dim as nat)
                            + " (all sub-vectors in a row must share a dim)"@,
                    ),
                ),
                None => Ok((VectorKind::Multivector, dim)),
            }
        }
    } else {
        Err(
            ErrorView::InvalidRequest(
                row_label(row.id)
                    + ": missing vector payload (set `vector` for single-vector namespaces or `vectors` for multivector namespaces)"@,
            ),
        )
    }
}

fn row_prefix(id: u64) -> (r: String)
    ensures
        r@ == row_label(id),
{
    text::cat2("row id ", text::dec_text(id).as_str())
}

/// The representation and width that a row's payload implies. The first row of
/// the first write fixes both for the namespace.
pub fn inspect_row_payload(row: &UpsertRow) -> (r: Result<(VectorKind, usize), FirnflowError>)
    ensures
        error::outcome(r) == payload(*row),
{
    let single_set = row.vector.len() > 0;
    let multi_set = query::has_bag(&row.vectors);
    if single_set && multi_set {
        return Err(
            FirnflowError::InvalidRequest(
                text::cat2(
                    row_prefix(row.id).as_str(),
                    ": set exactly one of `vector` or `vectors`, not both",
                ),
            ),
        );
    }
    if single_set {
        return Ok((VectorKind::Single, row.vector.len()));
    }
    if !multi_set {
        return Err(
            FirnflowError::InvalidRequest(
                text::cat2(
                    row_prefix(row.id).as_str(),
                    ": missing vector payload (set `vector` for single-vector namespaces or `vectors` for multivector namespaces)",
                ),
            ),
        );
    }
    let multi = row.vectors.as_ref().unwrap();
    let dim: usize = multi[0].len();
    if dim == 0 {
        return Err(
            FirnflowError::InvalidRequest(
                text::cat2(row_prefix(row.id).as_str(), ": multivector sub-vector 0 is empty"),
            ),
        );
    }
    let mut idx: usize = 0;
    while idx < multi.len()
        invariant
            idx <= multi@.len(),
            first_off_width(multi@, dim, 0) == first_off_width(multi@, dim, idx as int),
            row.vectors == Some(*multi),
            multi@.len() > 0,
            row.vector@.len() == 0,
            dim == multi@[0].len(),
            dim != 0,
        decreases multi@.len() - idx,
    {
        if multi[idx].len() != dim {
            return Err(
                FirnflowError::InvalidRequest(
                    text::cat8(
                        row_prefix(row.id).as_str(),
                        ": multivector sub-vector ",
                        text::dec_text(idx as u64).as_str(),
                        " length ",
                        text::dec_text(multi[idx].len() as u64).as_str(),
                        ", expected ",
                        text::dec_text(dim as u64).as_str(),
                        " (all sub-vectors in a row must share a dim)",
                    ),
                ),
            );
        }
        idx = idx + 1;
    }
    Ok((VectorKind::Multivector, dim))
}

/// The payload shape that a representation calls for, as messages spell it.
pub open spec fn shape_text(kind: VectorKind) -> Seq<char> {
    match kind {
        VectorKind::Single => "`vector: [...]`"@,
        VectorKind::Multivector => "`vectors: [[...], ...]`"@,
    }
}

/// The representation that is not `kind`.
pub open spec fn other_kind(kind: VectorKind) -> VectorKind {
    match kind {
        VectorKind::Single => VectorKind::Multivector,
        VectorKind::Multivector => VectorKind::Single,
    }
}

/// Whether a row may be written to a namespace of this representation and
/// width, or why not.
pub open spec fn row_check(row: UpsertRow, kind: VectorKind, dim: usize) -> Result<(), ErrorView> {
    match payload(row) {
        Err(e) => Err(e),
        Ok((row_kind, row_dim)) => if row_kind != kind {
            Err(
                ErrorView::InvalidRequest(
                    row_label(row.id) + ": namespace kind is "@ + vector::kind_label(kind)
                        + ", expected "@ + shape_text(kind) + " but got "@ + shape_text(
                        other_kind(kind),
                    ),
                ),
            )
        } else if row_dim != dim {
            Err(
                ErrorView::InvalidRequest(
                    row_label(row.id) + ": "@ + vector::kind_label(kind) + " dimension "@
                        + text::dec(row_dim as nat) + ", expected "@ + text::dec(dim as nat),
                ),
            )
        } else {
            Ok(())
        },
    }
}

/// Checks a row against the representation and width of its namespace.
pub fn validate_row_against(row: &UpsertRow, kind: VectorKind, dim: usize) -> (r: Result<
    (),
    FirnflowError,
>)
    ensures
        error::outcome(r) == row_check(*row, kind, dim),
{
    let (row_kind, row_dim) = match inspect_row_payload(row) {
        Ok(p) => p,
        Err(e) => {
            return Err(e);
        },
    };
    if row_kind != kind {
        let (expected, got) = match kind {
            VectorKind::Single => ("`vector: [...]`", "`vectors: [[...], ...]`"),
            VectorKind::Multivector => ("`vectors: [[...], ...]`", "`vector: [...]`"),
        };
        return Err(
            FirnflowError::InvalidRequest(
                text::cat7(
                    row_prefix(row.id).as_str(),
                    ": namespace kind is ",
                    kind.as_label(),
                    ", expected ",
                    expected,
                    " but got ",
                    got,
                ),
            ),
        );
    }
    if row_dim != dim {
        return Err(
            FirnflowError::InvalidRequest(
                text::cat7(
                    row_prefix(row.id).as_str(),
                    ": ",
                    kind.as_label(),
                    " dimension ",
                    text::dec_text(row_dim as u64).as_str(),
                    ", expected ",
                    text::dec_text(dim as u64).as_str(),
                ),
            ),
        );
    }
    Ok(())
}

// ------------------------------------------------------- a write request
/// The ids of a run of rows.
pub open spec fn ids(rows: Seq<UpsertRow>) -> Seq<u64> {
    rows.map_values(|r: UpsertRow| r.id)
}

/// Whether any of some rows has attributes.
pub fn any_attributes(rows: &Vec<UpsertRow>) -> (r: bool)
    ensures
        r == exists|i: int| 0 <= i < rows@.len() && (#[trigger] rows@[i]).attributes@.len() > 0,
{
    let mut i: usize = 0;
    while i < rows.len()
        invariant
            i <= rows@.len(),
            forall|j: int| 0 <= j < i ==> (#[trigger] rows@[j]).attributes@.len() == 0,
        decreases rows@.len() - i,
    {
        if rows[i].attributes.len() > 0 {
            return true;
        }
        i = i + 1;
    }
    false
}

/// The answer to a request that holds an id twice.
pub open spec fn duplicate_id(id: u64) -> ErrorView {
    ErrorView::InvalidRequest(
        "duplicate id "@ + text::dec(id as nat)
            + " in upsert request; ids must be unique within a single request"@,
    )
}

/// Refuses a request in which an id occurs twice: which of the two rows would
/// stay is not defined.
pub fn check_unique_ids(rows: &Vec<UpsertRow>) -> (r: Result<(), FirnflowError>)
    ensures
        r is Ok <==> ids(rows@).no_duplicates(),
        r matches Err(e) ==> exists|i: int| #[trigger]
            query::first_repeat(ids(rows@), i) && e@ == duplicate_id(ids(rows@)[i]),
{
    let mut seen: HashSet<u64> = HashSet::with_capacity(rows.len());
    let mut i: usize = 0;
    while i < rows.len()
        invariant
            i <= rows@.len(),
            forall|x: u64| #[trigger]
                seen@.contains(x) <==> exists|k: int| 0 <= k < i && rows@[k].id == x,
            forall|k: int| 0 <= k < i ==> !query::repeats(ids(rows@), k),
        decreases rows@.len() - i,
    {
        let id: u64 = rows[i].id;
        let ghost before = seen@;
        if !seen.insert(id) {
            proof {
                let k = choose|k: int| 0 <= k < i && rows@[k].id == id;
                assert(ids(rows@)[k] == ids(rows@)[i as int]);
                assert(query::repeats(ids(rows@), i as int));
                assert(query::first_repeat(ids(rows@), i as int));
            }
            return Err(
                FirnflowError::InvalidRequest(
                    text::cat3(
                        "duplicate id ",
                        text::dec_text(id).as_str(),
                        " in upsert request; ids must be unique within a single request",
                    ),
                ),
            );
        }
        proof {
            assert(!query::repeats(ids(rows@), i as int)) by {
                if query::repeats(ids(rows@), i as int) {
                    let j = choose|j: int|
                        0 <= j < i && #[trigger] ids(rows@)[j] == ids(rows@)[i as int];
                    assert(rows@[j].id == id);
                    assert(before.contains(id));
                }
            }
            assert forall|x: u64| #[trigger] seen@.contains(x) implies exists|k: int|
                0 <= k < i + 1 && rows@[k].id == x by {
                if x == id {
                    assert(rows@[i as int].id == x);
                } else {
                    assert(before.contains(x));
                }
            }
        }
        i = i + 1;
    }
    assert(ids(rows@).no_duplicates()) by {
        assert forall|a: int, b: int|
            0 <= a < b < rows@.len() implies ids(rows@)[a] != ids(rows@)[b] by {
            assert(!query::repeats(ids(rows@), b));
        }
    }
    Ok(())
}

/// What every row of a request is checked against: the known facts of the
/// table, or those that the first row of a fresh namespace implies.
pub open spec fn target_schema(
    rows: Seq<UpsertRow>,
    known: Option<NamespaceSchemaInfo>,
) -> Result<NamespaceSchemaInfo, ErrorView> {
    match known {
        Some(info) => Ok(info),
        None => match payload(rows[0]) {
            Ok((kind, dim)) => Ok(NamespaceSchemaInfo { dim, kind, has_ingested_at: true }),
            Err(e) => Err(e),
        },
    }
}

/// The first refusal among the rows from `from` on, if any is refused.
pub open spec fn first_refused(
    rows: Seq<UpsertRow>,
    info: NamespaceSchemaInfo,
    from: int,
) -> Option<ErrorView>
    decreases rows.len() - from,
{
    if from < 0 || from >= rows.len() {
        None
    } else {
        match row_check(rows[from], info.kind, info.dim) {
            Err(e) => Some(e),
            Ok(()) => first_refused(rows, info, from + 1),
        }
    }
}

/// What a write does once the namespace's facts are resolved: the facts that
/// the rows are written under, and whether the write creates the table.
pub open spec fn write_plan(
    rows: Seq<UpsertRow>,
    known: Option<NamespaceSchemaInfo>,
) -> Result<(NamespaceSchemaInfo, bool), ErrorView> {
    match target_schema(rows, known) {
        Err(e) => Err(e),
        Ok(info) => match first_refused(rows, info, 0) {
            Some(e) => Err(e),
            None => Ok((info, known is None)),
        },
    }
}

/// Resolves what the rows of a write are written under: existing facts, or
/// those of the first row for a fresh namespace; and checks every row against
/// it.
pub fn plan_write(rows: &Vec<UpsertRow>, known: Option<NamespaceSchemaInfo>) -> (r: Result<
    (NamespaceSchemaInfo, bool),
    FirnflowError,
>)
    requires
        rows@.len() > 0,
    ensures
        error::outcome(r) == write_plan(rows@, known),
{
    let (info, is_fresh) = match known {
        Some(info) => (info, false),
        None => match inspect_row_payload(&rows[0]) {
            Ok((kind, dim)) => (NamespaceSchemaInfo { dim, kind, has_ingested_at: true }, true),
            Err(e) => {
                return Err(e);
            },
        },
    };
    let mut i: usize = 0;
    while i < rows.len()
        invariant
            i <= rows@.len(),
            target_schema(rows@, known) == Ok::<NamespaceSchemaInfo, ErrorView>(info),
            first_refused(rows@, info, 0) == first_refused(rows@, info, i as int),
        decreases rows@.len() - i,
    {
        match validate_row_against(&rows[i], info.kind, info.dim) {
            Err(e) => {
                return Err(e);
            },
            Ok(()) => {},
        }
        i = i + 1;
    }
    Ok((info, is_fresh))
}

// ------------------------------------------------------------------ laws
/// A row that has been accepted has exactly the payload that its namespace
/// stores: a single vector of the namespace's width, or a non-empty bag of
/// sub-vectors of that width, and never both.
pub proof fn law_accepted_rows_have_the_namespace_shape(
    row: UpsertRow,
    kind: VectorKind,
    dim: usize,
)
    requires
        row_check(row, kind, dim) is Ok,
    ensures
        dim > 0,
        kind is Single ==> row.vector@.len() == dim && !query::has_vectors(row.vectors),
        kind is Multivector ==> row.vector@.len() == 0 && query::has_vectors(row.vectors)
            && forall|i: int|
            0 <= i < row.vectors->0@.len() ==> (#[trigger] row.vectors->0@[i])@.len() == dim,
{
    if kind is Multivector {
        let subs = row.vectors->0@;
        lemma_no_off_width(subs, dim, 0);
    }
}

proof fn lemma_no_off_width(subs: Seq<Vec<u32>>, dim: usize, from: int)
    requires
        0 <= from,
        first_off_width(subs, dim, from) is None,
    ensures
        forall|i: int| from <= i < subs.len() ==> (#[trigger] subs[i])@.len() == dim,
    decreases subs.len() - from,
{
    if from < subs.len() {
        lemma_no_off_width(subs, dim, from + 1);
    }
}

proof fn lemma_none_refused(rows: Seq<UpsertRow>, info: NamespaceSchemaInfo, from: int)
    requires
        0 <= from,
        first_refused(rows, info, from) is None,
    ensures
        forall|i: int|
            from <= i < rows.len() ==> row_check(#[trigger] rows[i], info.kind, info.dim) is Ok,
    decreases rows.len() - from,
{
    if from < rows.len() {
        lemma_none_refused(rows, info, from + 1);
    }
}

/// A planned write accepts every one of its rows, under the facts of the plan;
/// the facts of an existing table are never changed by a write, and a fresh
/// table always gets the write-time column.
pub proof fn law_planned_writes_match_the_table(
    rows: Seq<UpsertRow>,
    known: Option<NamespaceSchemaInfo>,
)
    requires
        rows.len() > 0,
        write_plan(rows, known) is Ok,
    ensures
        ({
            let (info, fresh) = write_plan(rows, known)->Ok_0;
            &&& fresh == (known is None)
            &&& known matches Some(k) ==> info == k
            &&& fresh ==> info.has_ingested_at
            &&& forall|i: int|
                0 <= i < rows.len() ==> row_check(#[trigger] rows[i], info.kind, info.dim) is Ok
        }),
{
    let (info, fresh) = write_plan(rows, known)->Ok_0;
    lemma_none_refused(rows, info, 0);
}

/// Planning a write again, now against the facts that its first run left,
/// gives the same facts: a replay of a request is accepted as the request was.
pub proof fn law_replayed_writes_are_accepted(
    rows: Seq<UpsertRow>,
    known: Option<NamespaceSchemaInfo>,
)
    requires
        rows.len() > 0,
        write_plan(rows, known) is Ok,
    ensures
        ({
            let info = (write_plan(rows, known)->Ok_0).0;
            write_plan(rows, Some(info)) == Ok::<(NamespaceSchemaInfo, bool), ErrorView>(
                (info, false),
            )
        }),
{
}

/// A row as a table holds it: its payload, its text, and its write time.
pub struct StoredRow {
    pub vector: Seq<u32>,
    pub vectors: Option<Seq<Seq<u32>>>,
    pub text: Option<Seq<char>>,
    pub ingested_at_micros: i64,
}

/// What a table holds for a row that was written at a time.
pub open spec fn as_stored(row: UpsertRow, now: i64) -> StoredRow {
    StoredRow {
        vector: row.vector@,
        vectors: match row.vectors {
            Some(subs) => Some(vector::bag(subs@)),
            None => None,
        },
        text: text::text_opt(row.text),
        ingested_at_micros: now,
    }
}

/// What a table holds once rows were merged into it by id: a known id has its
/// row replaced, a new one adds a row.
pub open spec fn merged(table: Map<u64, StoredRow>, rows: Seq<UpsertRow>, now: i64) -> Map<
    u64,
    StoredRow,
>
    decreases rows.len(),
{
    if rows.len() == 0 {
        table
    } else {
        merged(table, rows.drop_last(), now).insert(rows.last().id, as_stored(rows.last(), now))
    }
}

proof fn lemma_merged(table: Map<u64, StoredRow>, rows: Seq<UpsertRow>, now: i64)
    requires
        ids(rows).no_duplicates(),
    ensures
        forall|i: int|
            0 <= i < rows.len() ==> merged(table, rows, now).dom().contains(
                (#[trigger] rows[i]).id,
            ) && merged(table, rows, now)[rows[i].id] == as_stored(rows[i], now),
        forall|id: u64|
            !ids(rows).contains(id) ==> (#[trigger] merged(table, rows, now).dom().contains(id)
                <==> table.dom().contains(id)) && (table.dom().contains(id) ==> merged(
                table,
                rows,
                now,
            )[id] == table[id]),
    decreases rows.len(),
{
    if rows.len() > 0 {
        let front = rows.drop_last();
        let last = rows.last();
        assert(ids(front) =~= ids(rows).drop_last());
        lemma_merged(table, front, now);
        let before = merged(table, front, now);
        let after = merged(table, rows, now);
        assert forall|i: int| 0 <= i < rows.len() implies after.dom().contains(
            (#[trigger] rows[i]).id,
        ) && after[rows[i].id] == as_stored(rows[i], now) by {
            if i < front.len() {
                assert(front[i] == rows[i]);
                assert(ids(rows)[i] != ids(rows)[rows.len() - 1]);
            }
        }
        assert forall|id: u64| !ids(rows).contains(id) implies (
        #[trigger] after.dom().contains(id) <==> table.dom().contains(id)) && (
        table.dom().contains(id) ==> after[id] == table[id]) by {
            assert(ids(rows)[rows.len() - 1] == last.id);
            assert(!ids(front).contains(id)) by {
                if ids(front).contains(id) {
                    let j = choose|j: int| 0 <= j < ids(front).len() && ids(front)[j] == id;
                    assert(ids(rows)[j] == id);
                }
            }
            assert(before.dom().contains(id) <==> table.dom().contains(id));
        }
    }
}

/// A write replaces by id. Merged into a table, each row of a request stands
/// there in full, a missing text included, and every other row is as it was. The
/// same request again changes nothing but the write time of its rows.
pub proof fn law_writes_replace_by_id(
    table: Map<u64, StoredRow>,
    rows: Seq<UpsertRow>,
    now: i64,
    later: i64,
    i: int,
    other: u64,
)
    requires
        ids(rows).no_duplicates(),
        0 <= i < rows.len(),
        !ids(rows).contains(other),
    ensures
        ({
            let once = merged(table, rows, now);
            let twice = merged(once, rows, later);
            &&& once.dom().contains(rows[i].id)
            &&& once[rows[i].id] == as_stored(rows[i], now)
            &&& once.dom().contains(other) <==> table.dom().contains(other)
            &&& table.dom().contains(other) ==> once[other] == table[other]
            &&& twice.dom() == once.dom()
            &&& twice[rows[i].id] == (StoredRow {
                ingested_at_micros: later,
                ..once[rows[i].id]
            })
            &&& once.dom().contains(other) ==> twice[other] == once[other]
        }),
{
    let once = merged(table, rows, now);
    let twice = merged(once, rows, later);
    lemma_merged(table, rows, now);
    lemma_merged(once, rows, later);
    assert(twice.dom() =~= once.dom()) by {
        assert forall|id: u64| #[trigger] twice.dom().contains(id) <==> once.dom().contains(id) by {
            if ids(rows).contains(id) {
                let j = choose|j: int| 0 <= j < ids(rows).len() && ids(rows)[j] == id;
                assert(rows[j].id == id);
            }
        }
    }
}

/// Whether a row carries what a namespace of this representation and width stores:
/// one vector of the width, or a bag of vectors of the width, and not both.
pub open spec fn carries(row: UpsertRow, kind: VectorKind, dim: usize) -> bool {
    match kind {
        VectorKind::Single => row.vector@.len() > 0 && row.vector@.len() == dim && (row.vectors is None
            || row.vectors->0@.len() == 0),
        VectorKind::Multivector => row.vector@.len() == 0 && row.vectors is Some
            && row.vectors->0@.len() > 0 && dim > 0 && forall|i: int|
            0 <= i < row.vectors->0@.len() ==> (#[trigger] row.vectors->0@[i])@.len() == dim,
    }
}

proof fn lemma_all_of_width(subs: Seq<Vec<u32>>, dim: usize, from: int)
    requires
        0 <= from,
        forall|i: int| from <= i < subs.len() ==> (#[trigger] subs[i])@.len() == dim,
    ensures
        first_off_width(subs, dim, from) is None,
    decreases subs.len() - from,
{
    if from < subs.len() {
        lemma_all_of_width(subs, dim, from + 1);
    }
}

/// A row is accepted exactly where it carries what its namespace stores; whatever
/// else it carries is refused as the writer's mistake.
pub proof fn law_rows_are_accepted_where_they_fit(row: UpsertRow, kind: VectorKind, dim: usize)
    ensures
        row_check(row, kind, dim) is Ok <==> carries(row, kind, dim),
        row_check(row, kind, dim) matches Err(e) ==> e is InvalidRequest,
{
    if row_check(row, kind, dim) is Ok {
        law_accepted_rows_have_the_namespace_shape(row, kind, dim);
    }
    if carries(row, kind, dim) && kind is Multivector {
        lemma_all_of_width(row.vectors->0@, dim, 0);
    }
}

/// A row's payload says the representation and the width: a vector that there is
/// one per row and how long it is, a bag that there are bags and how long their
/// vectors are.
pub proof fn law_payloads_imply_the_shape(row: UpsertRow, kind: VectorKind, dim: usize)
    ensures
        payload(row) == Ok::<(VectorKind, usize), ErrorView>((kind, dim)) <==> carries(
            row,
            kind,
            dim,
        ),
{
    if carries(row, kind, dim) && kind is Multivector {
        lemma_all_of_width(row.vectors->0@, dim, 0);
    }
    if payload(row) == Ok::<(VectorKind, usize), ErrorView>((kind, dim)) {
        assert(row_check(row, kind, dim) is Ok);
        law_accepted_rows_have_the_namespace_shape(row, kind, dim);
    }
}

#[verifier::spinoff_prover]
#[verifier::rlimit(60)]
proof fn lemma_first_refused(rows: Seq<UpsertRow>, info: NamespaceSchemaInfo, from: int)
    requires
        0 <= from,
    ensures
        first_refused(rows, info, from) is None <==> forall|i: int|
            from <= i < rows.len() ==> row_check(#[trigger] rows[i], info.kind, info.dim) is Ok,
        first_refused(rows, info, from) matches Some(e) ==> exists|i: int|
            from <= i < rows.len() && row_check(#[trigger] rows[i], info.kind, info.dim) == Err::<
                (),
                ErrorView,
            >(e) && forall|j: int|
                from <= j < i ==> row_check(#[trigger] rows[j], info.kind, info.dim) is Ok,
    decreases rows.len() - from,
{
    if from < rows.len() {
        lemma_first_refused(rows, info, from + 1);
        match row_check(rows[from], info.kind, info.dim) {
            Err(e) => {
                assert(row_check(rows[from], info.kind, info.dim) == Err::<(), ErrorView>(e));
            },
            Ok(()) => {
                if let Some(e) = first_refused(rows, info, from + 1) {
                    let i = choose|i: int|
                        from + 1 <= i < rows.len() && row_check(
                            #[trigger] rows[i],
                            info.kind,
                            info.dim,
                        ) == Err::<(), ErrorView>(e) && forall|j: int|
                            from + 1 <= j < i ==> row_check(
                                #[trigger] rows[j],
                                info.kind,
                                info.dim,
                            ) is Ok;
                    assert(row_check(rows[i], info.kind, info.dim) == Err::<(), ErrorView>(e));
                }
            },
        }
    }
}

/// A write goes through exactly where every row carries what the namespace stores,
/// or, in a fresh namespace, what the first row fixes. A write into a known
/// namespace that does not go through is refused for the first row that does not
/// fit.
pub proof fn law_writes_go_through_where_every_row_fits(
    rows: Seq<UpsertRow>,
    known: Option<NamespaceSchemaInfo>,
)
    requires
        rows.len() > 0,
    ensures
        known matches Some(info) ==> (write_plan(rows, known) is Ok <==> forall|i: int|
            0 <= i < rows.len() ==> carries(#[trigger] rows[i], info.kind, info.dim)),
        known is None ==> (write_plan(rows, known) is Ok <==> (payload(rows[0]) matches Ok(shape)
            && forall|i: int|
            0 <= i < rows.len() ==> carries(#[trigger] rows[i], shape.0, shape.1))),
        known is Some && write_plan(rows, known) is Err ==> exists|i: int|
            0 <= i < rows.len() && row_check(
                #[trigger] rows[i],
                known->0.kind,
                known->0.dim,
            ) is Err && write_plan(rows, known)->Err_0 == row_check(
                rows[i],
                known->0.kind,
                known->0.dim,
            )->Err_0 && forall|j: int|
                0 <= j < i ==> carries(#[trigger] rows[j], known->0.kind, known->0.dim),
        write_plan(rows, known) matches Err(e) ==> e is InvalidRequest,
{
    if let Ok(info) = target_schema(rows, known) {
        lemma_first_refused(rows, info, 0);
        assert forall|i: int| 0 <= i < rows.len() implies (row_check(
            #[trigger] rows[i],
            info.kind,
            info.dim,
        ) is Ok <==> carries(rows[i], info.kind, info.dim)) by {
            law_rows_are_accepted_where_they_fit(rows[i], info.kind, info.dim);
        }
        if write_plan(rows, known) is Err {
            let e = write_plan(rows, known)->Err_0;
            let i = choose|i: int|
                0 <= i < rows.len() && row_check(#[trigger] rows[i], info.kind, info.dim) == Err::<
                    (),
                    ErrorView,
                >(e) && forall|j: int|
                    0 <= j < i ==> row_check(#[trigger] rows[j], info.kind, info.dim) is Ok;
            law_rows_are_accepted_where_they_fit(rows[i], info.kind, info.dim);
        }
    }
}

/// What a table holds for a written row is all of the row that is stored: its
/// vector, every vector of its bag, its text, and the time of its write.
pub proof fn law_stored_rows_are_whole(row: UpsertRow, now: i64, i: int)
    ensures
        as_stored(row, now).vector == row.vector@,
        as_stored(row, now).vectors is Some <==> row.vectors is Some,
        row.vectors matches Some(subs) ==> as_stored(row, now).vectors->0.len() == subs@.len() && (
        0 <= i < subs@.len() ==> as_stored(row, now).vectors->0[i] == subs@[i]@),
        as_stored(row, now).text is Some <==> row.text is Some,
        row.text matches Some(t) ==> as_stored(row, now).text == Some(t@),
        as_stored(row, now).ingested_at_micros == now,
{
}
/// A refusal of a row is the caller's mistake, and begins with the id of the row;
/// one for a repeated id tells that id.
pub proof fn law_refusals_name_the_row(row: UpsertRow, kind: VectorKind, dim: usize)
    ensures
        payload(row) matches Err(e) ==> e is InvalidRequest && ("row id "@ + text::dec(
            row.id as nat,
        )).is_prefix_of(e->InvalidRequest_0),
        row_check(row, kind, dim) matches Err(e) ==> e is InvalidRequest && ("row id "@ + text::dec(
            row.id as nat,
        )).is_prefix_of(e->InvalidRequest_0),
        duplicate_id(row.id) is InvalidRequest && ("duplicate id "@ + text::dec(
            row.id as nat,
        )).is_prefix_of(duplicate_id(row.id)->InvalidRequest_0),
{
    lemma_payload_refusal(row);
    lemma_check_refusal(row, kind, dim);
    lemma_begins(
        "duplicate id "@ + text::dec(row.id as nat),
        " in upsert request; ids must be unique within a single request"@,
    );
}

proof fn lemma_begins(front: Seq<char>, back: Seq<char>)
    ensures
        front.is_prefix_of(front + back),
{
    assert(front =~= (front + back).subrange(0, front.len() as int));
}

proof fn lemma_begins_further(front: Seq<char>, s: Seq<char>, back: Seq<char>)
    requires
        front.is_prefix_of(s),
    ensures
        front.is_prefix_of(s + back),
{
    assert(front =~= (s + back).subrange(0, front.len() as int));
}

#[verifier::spinoff_prover]
proof fn lemma_payload_refusal(row: UpsertRow)
    ensures
        payload(row) matches Err(e) ==> e is InvalidRequest && row_label(row.id).is_prefix_of(
            e->InvalidRequest_0,
        ),
{
    let label = row_label(row.id);
    lemma_begins(label, ": set exactly one of `vector` or `vectors`, not both"@);
    lemma_begins(label, ": multivector sub-vector 0 is empty"@);
    lemma_begins(
        label,
        ": missing vector payload (set `vector` for single-vector namespaces or `vectors` for multivector namespaces)"@,
    );
    if query::has_vectors(row.vectors) {
        let subs = row.vectors->0@;
        let dim = subs[0].len();
        if let Some(i) = first_off_width(subs, dim, 0) {
            let a = label + ": multivector sub-vector "@;
            let b = a + text::dec(i as nat);
            let c = b + " length "@;
            let d = c + text::dec(subs[i].len() as nat);
            let e = d + ", expected "@;
            let f = e + text::dec(dim as nat);
            lemma_begins(label, ": multivector sub-vector "@);
            lemma_begins_further(label, a, text::dec(i as nat));
            lemma_begins_further(label, b, " length "@);
            lemma_begins_further(label, c, text::dec(subs[i].len() as nat));
            lemma_begins_further(label, d, ", expected "@);
            lemma_begins_further(label, e, text::dec(dim as nat));
            lemma_begins_further(label, f, " (all sub-vectors in a row must share a dim)"@);
        }
    }
}

#[verifier::spinoff_prover]
proof fn lemma_check_refusal(row: UpsertRow, kind: VectorKind, dim: usize)
    ensures
        row_check(row, kind, dim) matches Err(e) ==> e is InvalidRequest && row_label(
            row.id,
        ).is_prefix_of(e->InvalidRequest_0),
{
    lemma_payload_refusal(row);
    let label = row_label(row.id);
    if let Ok((row_kind, row_dim)) = payload(row) {
        let a = label + ": namespace kind is "@;
        let b = a + vector::kind_label(kind);
        let c = b + ", expected "@;
        let d = c + shape_text(kind);
        let e = d + " but got "@;
        lemma_begins(label, ": namespace kind is "@);
        lemma_begins_further(label, a, vector::kind_label(kind));
        lemma_begins_further(label, b, ", expected "@);
        lemma_begins_further(label, c, shape_text(kind));
        lemma_begins_further(label, d, " but got "@);
        lemma_begins_further(label, e, shape_text(other_kind(kind)));
        let g = label + ": "@;
        let h = g + vector::kind_label(kind);
        let i = h + " dimension "@;
        let j = i + text::dec(row_dim as nat);
        let k = j + ", expected "@;
        lemma_begins(label, ": "@);
        lemma_begins_further(label, g, vector::kind_label(kind));
        lemma_begins_further(label, h, " dimension "@);
        lemma_begins_further(label, i, text::dec(row_dim as nat));
        lemma_begins_further(label, j, ", expected "@);
        lemma_begins_further(label, k, text::dec(dim as nat));
    }
}

/// A row of another width than its namespace is told the width that it has, and the
/// width that it should have.
pub proof fn law_refused_widths_are_told(row: UpsertRow, kind: VectorKind, dim: usize)
    requires
        payload(row) matches Ok(shape) && shape.0 == kind && shape.1 != dim,
    ensures
        row_check(row, kind, dim) is Err,
        (" dimension "@ + text::dec(payload(row)->Ok_0.1 as nat) + ", expected "@ + text::dec(
            dim as nat,
        )).is_suffix_of(row_check(row, kind, dim)->Err_0->InvalidRequest_0),
{
    let d = text::dec(payload(row)->Ok_0.1 as nat);
    let front = row_label(row.id) + ": "@ + vector::kind_label(kind);
    lemma_ends(front, " dimension "@, d, ", expected "@, text::dec(dim as nat));
}

proof fn lemma_ends(front: Seq<char>, a: Seq<char>, b: Seq<char>, c: Seq<char>, d: Seq<char>)
    ensures
        (a + b + c + d).is_suffix_of(front + a + b + c + d),
{
    let s = front + a + b + c + d;
    let t = a + b + c + d;
    assert(t =~= s.subrange(s.len() - t.len(), s.len() as int));
}
/// A row for the other representation is told what its namespace expects and what it
/// brought.
pub proof fn law_refused_kinds_are_told(row: UpsertRow, kind: VectorKind, dim: usize)
    requires
        payload(row) matches Ok(shape) && shape.0 != kind,
    ensures
        row_check(row, kind, dim) is Err,
        kind is Single ==> (", expected "@ + "`vector: [...]`"@ + " but got "@
            + "`vectors: [[...], ...]`"@).is_suffix_of(
            row_check(row, kind, dim)->Err_0->InvalidRequest_0,
        ),
        kind is Multivector ==> (", expected "@ + "`vectors: [[...], ...]`"@ + " but got "@
            + "`vector: [...]`"@).is_suffix_of(row_check(row, kind, dim)->Err_0->InvalidRequest_0),
{
    let front = row_label(row.id) + ": namespace kind is "@ + vector::kind_label(kind);
    lemma_ends(
        front,
        ", expected "@,
        "`vector: [...]`"@,
        " but got "@,
        "`vectors: [[...], ...]`"@,
    );
    lemma_ends(
        front,
        ", expected "@,
        "`vectors: [[...], ...]`"@,
        " but got "@,
        "`vector: [...]`"@,
    );
}

/// A row whose vectors differ in width is told the first that does, its width, and
/// the width of the first.
pub proof fn law_uneven_bags_are_told(row: UpsertRow, i: int)
    requires
        row.vector@.len() == 0,
        row.vectors is Some,
        0 <= i < row.vectors->0@.len(),
        row.vectors->0@[0]@.len() > 0,
        row.vectors->0@[i]@.len() != row.vectors->0@[0]@.len(),
        forall|j: int|
            0 <= j < i ==> (#[trigger] row.vectors->0@[j])@.len() == row.vectors->0@[0]@.len(),
    ensures
        payload(row) == Err::<(VectorKind, usize), ErrorView>(
            ErrorView::InvalidRequest(
                "row id "@ + text::dec(row.id as nat) + ": multivector sub-vector "@ + text::dec(
                    i as nat,
                ) + " length "@ + text::dec(row.vectors->0@[i]@.len()) + ", expected "@ + text::dec(
                    row.vectors->0@[0]@.len(),
                ) + " (all sub-vectors in a row must share a dim)"@,
            ),
        ),
{
    lemma_off_width_is_first(row.vectors->0@, row.vectors->0@[0].len(), 0, i);
}

proof fn lemma_off_width_is_first(subs: Seq<Vec<u32>>, dim: usize, from: int, i: int)
    requires
        0 <= from <= i < subs.len(),
        subs[i]@.len() != dim,
        forall|j: int| from <= j < i ==> (#[trigger] subs[j])@.len() == dim,
    ensures
        first_off_width(subs, dim, from) == Some(i),
    decreases i - from,
{
    if from < i {
        assert(subs[from]@.len() == dim);
        lemma_off_width_is_first(subs, dim, from + 1, i);
    }
}

} // verus!
