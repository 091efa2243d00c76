//! Columnar batches: how rows are laid out for a write, and how the batches of
//! a search or a scan become hits and listed rows.
use vstd::prelude::*;
use crate::clock;
use crate::error::{self, ErrorView, FirnflowError};
use crate::query;
use crate::result::{self, HitView, ListRow, ListRowView, QueryResult};
use crate::rows::{self, NamespaceSchemaInfo, UpsertRow};
use crate::schema;
use crate::text;
use crate::vector::{self, VectorKind};

verus! {

/// The values of one column.
#[derive(Debug)]
pub enum Column {
    /// Unsigned 64-bit integers.
    UInt64(Vec<u64>),
    /// Single-precision numbers, by their bits.
    Float32(Vec<u32>),
    /// One fixed-width vector per row.
    Vectors(Vec<Vec<u32>>),
    /// One fixed-width list per row, of something else than numbers.
    FixedLists,
    /// One bag of fixed-width vectors per row.
    Bags(Vec<Vec<Vec<u32>>>),
    /// One list per row, of something else than fixed-width vectors.
    Lists,
    /// Strings, or nulls.
    Text(Vec<Option<String>>),
    /// Timestamps in microseconds, and for each whether it is a value and no
    /// null.
    Micros(Vec<i64>, Vec<bool>),
    /// Values of any other type.
    Other,
}

/// A column with its name.
#[derive(Debug)]
pub struct NamedColumn {
    /// Column name.
    pub name: String,
    /// Column values.
    pub data: Column,
}

/// A batch of rows, column by column.
#[derive(Debug)]
pub struct Batch {
    /// Number of rows.
    pub num_rows: usize,
    /// The columns.
    pub columns: Vec<NamedColumn>,
}

/// Whether a column has `n` values.
pub open spec fn column_fits(c: Column, n: usize) -> bool {
    match c {
        Column::UInt64(v) => v@.len() == n,
        Column::Float32(v) => v@.len() == n,
        Column::Vectors(v) => v@.len() == n,
        Column::Bags(v) => v@.len() == n,
        Column::Text(v) => v@.len() == n,
        Column::Micros(v, valid) => v@.len() == n && valid@.len() == n,
        Column::FixedLists | Column::Lists | Column::Other => true,
    }
}

impl Batch {
    /// Every column has as many values as the batch has rows.
    pub open spec fn wf(self) -> bool {
        forall|i: int|
            0 <= i < self.columns@.len() ==> column_fits(
                (#[trigger] self.columns@[i]).data,
                self.num_rows,
            )
    }

    /// Whether every column has as many values as the batch has rows.
    pub fn is_well_formed(&self) -> (r: bool)
        ensures
            r == self.wf(),
    {
        let mut i: usize = 0;
        while i < self.columns.len()
            invariant
                i <= self.columns@.len(),
                forall|k: int|
                    0 <= k < i ==> column_fits((#[trigger] self.columns@[k]).data, self.num_rows),
            decreases self.columns@.len() - i,
        {
            let fits = match &self.columns[i].data {
                Column::UInt64(v) => v.len() == self.num_rows,
                Column::Float32(v) => v.len() == self.num_rows,
                Column::Vectors(v) => v.len() == self.num_rows,
                Column::Bags(v) => v.len() == self.num_rows,
                Column::Text(v) => v.len() == self.num_rows,
                Column::Micros(v, valid) => v.len() == self.num_rows && valid.len()
                    == self.num_rows,
                Column::FixedLists | Column::Lists | Column::Other => true,
            };
            if !fits {
                assert(!column_fits(self.columns@[i as int].data, self.num_rows));
                return false;
            }
            i = i + 1;
        }
        true
    }
}

/// The first column of the name at or after `from`.
pub open spec fn find_column(columns: Seq<NamedColumn>, name: Seq<char>, from: int) -> Option<
    Column,
>
    decreases columns.len() - from,
{
    if from < 0 || from >= columns.len() {
        None
    } else if columns[from].name@ == name {
        Some(columns[from].data)
    } else {
        find_column(columns, name, from + 1)
    }
}

/// The column of the name.
pub open spec fn column(b: Batch, name: Seq<char>) -> Option<Column> {
    find_column(b.columns@, name, 0)
}

/// The column of the name, if the batch has it.
pub fn column_by_name<'a>(b: &'a Batch, name: &str) -> (r: Option<&'a Column>)
    ensures
        match r {
            Some(c) => column(*b, name@) == Some(*c),
            None => column(*b, name@) is None,
        },
        b.wf() ==> (r matches Some(c) ==> column_fits(*c, b.num_rows)),
{
    let mut i: usize = 0;
    while i < b.columns.len()
        invariant
            i <= b.columns@.len(),
            column(*b, name@) == find_column(b.columns@, name@, i as int),
        decreases b.columns@.len() - i,
    {
        if text::same(b.columns[i].name.as_str(), name) {
            assert(b.wf() ==> column_fits(b.columns@[i as int].data, b.num_rows));
            return Some(&b.columns[i].data);
        }
        i = i + 1;
    }
    None
}

// ---------------------------------------------------------------- scores
/// The numbers of the column of the name, if it holds numbers.
pub open spec fn numbers(b: Batch, name: Seq<char>) -> Option<Seq<u32>> {
    match column(b, name) {
        Some(Column::Float32(v)) => Some(v@),
        _ => None,
    }
}

/// The scores of a batch. A hybrid search leaves them under one name, a vector
/// search under another, a full-text search under a third; the first that
/// holds numbers counts.
pub open spec fn scores(b: Batch) -> Option<Seq<u32>> {
    match numbers(b, "_relevance_score"@) {
        Some(s) => Some(s),
        None => match numbers(b, "_distance"@) {
            Some(s) => Some(s),
            None => numbers(b, "_score"@),
        },
    }
}

fn numbers_by_name<'a>(b: &'a Batch, name: &str) -> (r: Option<&'a Vec<u32>>)
    ensures
        match r {
            Some(v) => numbers(*b, name@) == Some(v@),
            None => numbers(*b, name@) is None,
        },
        b.wf() ==> (r matches Some(v) ==> v@.len() == b.num_rows),
{
    match column_by_name(b, name) {
        Some(Column::Float32(v)) => Some(v),
        _ => None,
    }
}

/// The score column of a batch.
pub fn find_score_column<'a>(b: &'a Batch) -> (r: Option<&'a Vec<u32>>)
    ensures
        match r {
            Some(v) => scores(*b) == Some(v@),
            None => scores(*b) is None,
        },
        b.wf() ==> (r matches Some(v) ==> v@.len() == b.num_rows),
{
    if let Some(v) = numbers_by_name(b, "_relevance_score") {
        return Some(v);
    }
    if let Some(v) = numbers_by_name(b, "_distance") {
        return Some(v);
    }
    numbers_by_name(b, "_score")
}

// ------------------------------------------------------- vectors of rows
/// The vector that row `row` of a batch is answered with: the stored one for
/// single-vector namespaces, none of the bag for multivector ones.
pub open spec fn row_vector(b: Batch, row: int, kind: VectorKind, context: Seq<char>) -> Result<
    Seq<u32>,
    ErrorView,
> {
    match (kind, column(b, "vector"@)) {
        (_, None) => Err(ErrorView::Backend(context + ": missing vector column"@)),
        (VectorKind::Single, Some(Column::Vectors(v))) => Ok(v@[row]@),
        (VectorKind::Single, Some(Column::FixedLists)) => Err(
            ErrorView::Backend(context + ": vector inner not Float32"@),
        ),
        (VectorKind::Single, Some(_)) => Err(
            ErrorView::Backend(context + ": vector not FixedSizeList"@),
        ),
        (VectorKind::Multivector, Some(Column::Bags(_))) => Ok(Seq::empty()),
        (VectorKind::Multivector, Some(Column::Lists)) => Ok(Seq::empty()),
        (VectorKind::Multivector, Some(_)) => Err(
            ErrorView::Backend(
                context + ": multivector column is not a List<FixedSizeList<Float32>>"@,
            ),
        ),
    }
}

/// The vector that a row is answered with.
pub fn extract_row_vector(b: &Batch, row: usize, kind: VectorKind, context: &str) -> (r: Result<
    Vec<u32>,
    FirnflowError,
>)
    requires
        b.wf(),
        row < b.num_rows,
    ensures
        match r {
            Ok(v) => row_vector(*b, row as int, kind, context@) == Ok::<Seq<u32>, ErrorView>(v@),
            Err(e) => row_vector(*b, row as int, kind, context@) == Err::<Seq<u32>, ErrorView>(e@),
        },
{
    let c = match column_by_name(b, "vector") {
        Some(c) => c,
        None => {
            return Err(FirnflowError::Backend(text::cat2(context, ": missing vector column")));
        },
    };
    match kind {
        VectorKind::Single => match c {
            Column::Vectors(v) => Ok(vector::copy_vector(&v[row])),
            Column::FixedLists => Err(
                FirnflowError::Backend(text::cat2(context, ": vector inner not Float32")),
            ),
            _ => Err(FirnflowError::Backend(text::cat2(context, ": vector not FixedSizeList"))),
        },
        VectorKind::Multivector => match c {
            Column::Bags(_) | Column::Lists => {
                let none: Vec<u32> = Vec::new();
                Ok(none)
            },
            _ => Err(
                FirnflowError::Backend(
                    text::cat2(
                        context,
                        ": multivector column is not a List<FixedSizeList<Float32>>",
                    ),
                ),
            ),
        },
    }
}

// --------------------------------------------------- shared column reads
/// The ids of a batch.
pub open spec fn batch_ids(b: Batch, context: Seq<char>) -> Result<Seq<u64>, ErrorView> {
    match column(b, "id"@) {
        None => Err(ErrorView::Backend(context + ": missing id column"@)),
        Some(Column::UInt64(v)) => Ok(v@),
        Some(_) => Err(ErrorView::Backend(context + ": id not UInt64"@)),
    }
}

/// The text of a row; none where the batch has no text column.
pub open spec fn row_text(b: Batch, row: int) -> Option<Seq<char>> {
    match column(b, "text"@) {
        Some(Column::Text(v)) => text::text_opt(v@[row]),
        _ => None,
    }
}

/// The write time of a row; none where it is null or the batch has no such
/// column.
pub open spec fn row_micros(b: Batch, row: int) -> Option<i64> {
    match column(b, "_ingested_at"@) {
        Some(Column::Micros(v, valid)) => if valid@[row] {
            Some(v@[row])
        } else {
            None
        },
        _ => None,
    }
}

fn ids_of<'a>(b: &'a Batch, context: &str) -> (r: Result<&'a Vec<u64>, FirnflowError>)
    requires
        b.wf(),
    ensures
        match r {
            Ok(v) => batch_ids(*b, context@) == Ok::<Seq<u64>, ErrorView>(v@) && v@.len()
                == b.num_rows,
            Err(e) => batch_ids(*b, context@) == Err::<Seq<u64>, ErrorView>(e@),
        },
{
    match column_by_name(b, "id") {
        None => Err(FirnflowError::Backend(text::cat2(context, ": missing id column"))),
        Some(Column::UInt64(v)) => Ok(v),
        Some(_) => Err(FirnflowError::Backend(text::cat2(context, ": id not UInt64"))),
    }
}

fn text_of(b: &Batch, row: usize) -> (r: Option<String>)
    requires
        b.wf(),
        row < b.num_rows,
    ensures
        text::text_opt(r) == row_text(*b, row as int),
{
    match column_by_name(b, "text") {
        Some(Column::Text(v)) => text::copy_opt(&v[row]),
        _ => None,
    }
}

// ---------------------------------------------------------------- search
/// One hit: the row's id, score, vector unless it is left out, text and write
/// time.
pub open spec fn hit(b: Batch, row: int, kind: VectorKind, with_vector: bool) -> HitView {
    (
        batch_ids(b, "query result"@)->Ok_0[row],
        scores(b)->0[row],
        if with_vector && kind is Single {
            Some(row_vector(b, row, kind, "query result"@)->Ok_0)
        } else {
            None
        },
        row_text(b, row),
        row_micros(b, row),
    )
}

/// The hits of one batch, in the order of its rows. A batch without rows is
/// never asked for its vectors.
pub open spec fn batch_hits(b: Batch, kind: VectorKind, with_vector: bool) -> Result<
    Seq<HitView>,
    ErrorView,
> {
    match batch_ids(b, "query result"@) {
        Err(e) => Err(e),
        Ok(_) => if scores(b) is None {
            Err(
                ErrorView::Backend(
                    "query result: no score column (_distance, _score, or _relevance_score)"@,
                ),
            )
        } else if with_vector && kind is Single && b.num_rows > 0 && row_vector(
            b,
            0,
            kind,
            "query result"@,
        ) is Err {
            Err(row_vector(b, 0, kind, "query result"@)->Err_0)
        } else {
            Ok(Seq::new(b.num_rows as nat, |row: int| hit(b, row, kind, with_vector)))
        },
    }
}

/// The hits of all batches, one batch after the other; the first batch that
/// cannot be read decides.
pub open spec fn all_hits(batches: Seq<Batch>, kind: VectorKind, with_vector: bool) -> Result<
    Seq<HitView>,
    ErrorView,
>
    decreases batches.len(),
{
    if batches.len() == 0 {
        Ok(Seq::empty())
    } else {
        match all_hits(batches.drop_last(), kind, with_vector) {
            Err(e) => Err(e),
            Ok(front) => match batch_hits(batches.last(), kind, with_vector) {
                Err(e) => Err(e),
                Ok(more) => Ok(front + more),
            },
        }
    }
}

/// Appends the hits of one batch.
fn push_hits(b: &Batch, kind: VectorKind, with_vector: bool, out: &mut Vec<QueryResult>) -> (r:
    Result<(), FirnflowError>)
    requires
        b.wf(),
    ensures
        match r {
            Ok(()) => batch_hits(*b, kind, with_vector) is Ok && result::hits(final(out)@)
                == result::hits(old(out)@) + batch_hits(*b, kind, with_vector)->Ok_0,
            Err(e) => batch_hits(*b, kind, with_vector) == Err::<Seq<HitView>, ErrorView>(e@),
        },
{
    let ids = match ids_of(b, "query result") {
        Ok(v) => v,
        Err(e) => {
            return Err(e);
        },
    };
    let scores = match find_score_column(b) {
        Some(v) => v,
        None => {
            return Err(
                FirnflowError::Backend(
                    "query result: no score column (_distance, _score, or _relevance_score)".to_string(),
                ),
            );
        },
    };
    let ghost start = result::hits(out@);
    let mut row: usize = 0;
    assert(result::hits(out@) =~= start + Seq::new(
        0,
        |i: int| hit(*b, i, kind, with_vector),
    ));
    while row < b.num_rows
        invariant
            b.wf(),
            row <= b.num_rows,
            ids@.len() == b.num_rows,
            scores@.len() == b.num_rows,
            batch_ids(*b, "query result"@) == Ok::<Seq<u64>, ErrorView>(ids@),
            self::scores(*b) == Some(scores@),
            result::hits(out@) == start + Seq::new(
                row as nat,
                |i: int| hit(*b, i, kind, with_vector),
            ),
            row > 0 && with_vector && kind is Single ==> row_vector(
                *b,
                0,
                kind,
                "query result"@,
            ) is Ok,
            start == result::hits(old(out)@),
        decreases b.num_rows - row,
    {
        let vector = if with_vector && kind == VectorKind::Single {
            match extract_row_vector(b, row, kind, "query result") {
                Ok(v) => Some(v),
                Err(e) => {
                    return Err(e);
                },
            }
        } else {
            None
        };
        let text = text_of(b, row);
        let ingested_at_micros: Option<i64> = match column_by_name(b, "_ingested_at") {
            Some(Column::Micros(v, valid)) => if valid[row] {
                Some(v[row])
            } else {
                None
            },
            _ => None,
        };
        let ghost before = out@;
        out.push(
            QueryResult { id: ids[row], score: scores[row], vector, text, ingested_at_micros },
        );
        proof {
            assert(out@.last()@ == hit(*b, row as int, kind, with_vector));
            assert(result::hits(out@) =~= result::hits(before).push(
                hit(*b, row as int, kind, with_vector),
            ));
            assert(start + Seq::new((row + 1) as nat, |i: int| hit(*b, i, kind, with_vector))
                =~= (start + Seq::new(row as nat, |i: int| hit(*b, i, kind, with_vector))).push(
                hit(*b, row as int, kind, with_vector),
            ));
        }
        row = row + 1;
    }
    Ok(())
}

/// The hits of the batches of a search.
pub fn batches_to_results(batches: &Vec<Batch>, kind: VectorKind, include_vector: bool) -> (r:
    Result<Vec<QueryResult>, FirnflowError>)
    requires
        forall|i: int| 0 <= i < batches@.len() ==> (#[trigger] batches@[i]).wf(),
    ensures
        match r {
            Ok(v) => all_hits(batches@, kind, include_vector) == Ok::<Seq<HitView>, ErrorView>(
                result::hits(v@),
            ),
            Err(e) => all_hits(batches@, kind, include_vector) == Err::<Seq<HitView>, ErrorView>(
                e@,
            ),
        },
{
    let mut out: Vec<QueryResult> = Vec::new();
    let mut i: usize = 0;
    proof {
        assert(batches@.take(0) =~= Seq::empty());
        assert(result::hits(out@) =~= Seq::empty());
    }
    while i < batches.len()
        invariant
            i <= batches@.len(),
            forall|i: int| 0 <= i < batches@.len() ==> (#[trigger] batches@[i]).wf(),
            all_hits(batches@.take(i as int), kind, include_vector) == Ok::<
                Seq<HitView>,
                ErrorView,
            >(result::hits(out@)),
        decreases batches@.len() - i,
    {
        proof {
            let next = batches@.take(i + 1);
            assert(next.drop_last() =~= batches@.take(i as int));
            assert(next.last() == batches@[i as int]);
        }
        match push_hits(&batches[i], kind, include_vector, &mut out) {
            Ok(()) => {},
            Err(e) => {
                proof {
                    lemma_hits_error(batches@, kind, include_vector, i + 1);
                }
                return Err(e);
            },
        }
        i = i + 1;
    }
    assert(batches@.take(batches@.len() as int) =~= batches@);
    Ok(out)
}

proof fn lemma_hits_error(batches: Seq<Batch>, kind: VectorKind, with_vector: bool, n: int)
    requires
        0 <= n <= batches.len(),
        all_hits(batches.take(n), kind, with_vector) is Err,
    ensures
        all_hits(batches, kind, with_vector) == all_hits(batches.take(n), kind, with_vector),
    decreases batches.len(),
{
    if n < batches.len() {
        assert(batches.drop_last().take(n) =~= batches.take(n));
        lemma_hits_error(batches.drop_last(), kind, with_vector, n);
    } else {
        assert(batches.take(n) =~= batches);
    }
}

// --------------------------------------------------------------- listing
/// The write times of a batch, with whatever stands in the place of nulls.
pub open spec fn list_micros(b: Batch) -> Result<Seq<i64>, ErrorView> {
    match column(b, "_ingested_at"@) {
        None => Err(ErrorView::Backend("list: missing _ingested_at column"@)),
        Some(Column::Micros(v, _)) => Ok(v@),
        Some(_) => Err(ErrorView::Backend("list: _ingested_at not Timestamp(Microsecond)"@)),
    }
}

/// One listed row.
pub open spec fn listed_row(b: Batch, row: int, kind: VectorKind) -> ListRowView {
    (
        batch_ids(b, "list"@)->Ok_0[row],
        row_vector(b, row, kind, "list"@)->Ok_0,
        row_text(b, row),
        list_micros(b)->Ok_0[row],
    )
}

/// The listed rows of one batch.
pub open spec fn batch_rows(b: Batch, kind: VectorKind) -> Result<Seq<ListRowView>, ErrorView> {
    match (batch_ids(b, "list"@), list_micros(b)) {
        (Err(e), _) => Err(e),
        (_, Err(e)) => Err(e),
        (Ok(_), Ok(_)) => if b.num_rows > 0 && row_vector(b, 0, kind, "list"@) is Err {
            Err(row_vector(b, 0, kind, "list"@)->Err_0)
        } else {
            Ok(Seq::new(b.num_rows as nat, |row: int| listed_row(b, row, kind)))
        },
    }
}

/// The listed rows of all batches; the first batch that cannot be read
/// decides.
pub open spec fn all_rows(batches: Seq<Batch>, kind: VectorKind) -> Result<
    Seq<ListRowView>,
    ErrorView,
>
    decreases batches.len(),
{
    if batches.len() == 0 {
        Ok(Seq::empty())
    } else {
        match all_rows(batches.drop_last(), kind) {
            Err(e) => Err(e),
            Ok(front) => match batch_rows(batches.last(), kind) {
                Err(e) => Err(e),
                Ok(more) => Ok(front + more),
            },
        }
    }
}

/// Appends the listed rows of one batch.
fn push_rows(b: &Batch, kind: VectorKind, out: &mut Vec<ListRow>) -> (r: Result<(), FirnflowError>)
    requires
        b.wf(),
    ensures
        match r {
            Ok(()) => batch_rows(*b, kind) is Ok && result::listed(final(out)@) == result::listed(
                old(out)@,
            ) + batch_rows(*b, kind)->Ok_0,
            Err(e) => batch_rows(*b, kind) == Err::<Seq<ListRowView>, ErrorView>(e@),
        },
{
    let ids = match ids_of(b, "list") {
        Ok(v) => v,
        Err(e) => {
            return Err(e);
        },
    };
    let micros = match column_by_name(b, "_ingested_at") {
        None => {
            return Err(FirnflowError::Backend("list: missing _ingested_at column".to_string()));
        },
        Some(Column::Micros(v, _)) => v,
        Some(_) => {
            return Err(
                FirnflowError::Backend(
                    "list: _ingested_at not Timestamp(Microsecond)".to_string(),
                ),
            );
        },
    };
    let ghost start = result::listed(out@);
    let mut row: usize = 0;
    assert(result::listed(out@) =~= start + Seq::new(0, |i: int| listed_row(*b, i, kind)));
    while row < b.num_rows
        invariant
            b.wf(),
            row <= b.num_rows,
            ids@.len() == b.num_rows,
            micros@.len() == b.num_rows,
            batch_ids(*b, "list"@) == Ok::<Seq<u64>, ErrorView>(ids@),
            list_micros(*b) == Ok::<Seq<i64>, ErrorView>(micros@),
            result::listed(out@) == start + Seq::new(
                row as nat,
                |i: int| listed_row(*b, i, kind),
            ),
            row > 0 ==> row_vector(*b, 0, kind, "list"@) is Ok,
            start == result::listed(old(out)@),
        decreases b.num_rows - row,
    {
        let vector = match extract_row_vector(b, row, kind, "list") {
            Ok(v) => v,
            Err(e) => {
                return Err(e);
            },
        };
        let text = text_of(b, row);
        let ghost before = out@;
        out.push(ListRow { id: ids[row], vector, text, ingested_at_micros: micros[row] });
        proof {
            assert(out@.last()@ == listed_row(*b, row as int, kind));
            assert(result::listed(out@) =~= result::listed(before).push(
                listed_row(*b, row as int, kind),
            ));
            assert(start + Seq::new((row + 1) as nat, |i: int| listed_row(*b, i, kind)) =~= (start
                + Seq::new(row as nat, |i: int| listed_row(*b, i, kind))).push(
                listed_row(*b, row as int, kind),
            ));
        }
        row = row + 1;
    }
    Ok(())
}

/// The listed rows of the batches of a scan.
pub fn batches_to_list_rows(batches: &Vec<Batch>, kind: VectorKind) -> (r: Result<
    Vec<ListRow>,
    FirnflowError,
>)
    requires
        forall|i: int| 0 <= i < batches@.len() ==> (#[trigger] batches@[i]).wf(),
    ensures
        match r {
            Ok(v) => all_rows(batches@, kind) == Ok::<Seq<ListRowView>, ErrorView>(
                result::listed(v@),
            ),
            Err(e) => all_rows(batches@, kind) == Err::<Seq<ListRowView>, ErrorView>(e@),
        },
{
    let mut out: Vec<ListRow> = Vec::new();
    let mut i: usize = 0;
    proof {
        assert(batches@.take(0) =~= Seq::empty());
        assert(result::listed(out@) =~= Seq::empty());
    }
    while i < batches.len()
        invariant
            i <= batches@.len(),
            forall|i: int| 0 <= i < batches@.len() ==> (#[trigger] batches@[i]).wf(),
            all_rows(batches@.take(i as int), kind) == Ok::<Seq<ListRowView>, ErrorView>(
                result::listed(out@),
            ),
        decreases batches@.len() - i,
    {
        proof {
            let next = batches@.take(i + 1);
            assert(next.drop_last() =~= batches@.take(i as int));
            assert(next.last() == batches@[i as int]);
        }
        match push_rows(&batches[i], kind, &mut out) {
            Ok(()) => {},
            Err(e) => {
                proof {
                    lemma_rows_error(batches@, kind, i + 1);
                }
                return Err(e);
            },
        }
        i = i + 1;
    }
    assert(batches@.take(batches@.len() as int) =~= batches@);
    Ok(out)
}

proof fn lemma_rows_error(batches: Seq<Batch>, kind: VectorKind, n: int)
    requires
        0 <= n <= batches.len(),
        all_rows(batches.take(n), kind) is Err,
    ensures
        all_rows(batches, kind) == all_rows(batches.take(n), kind),
    decreases batches.len(),
{
    if n < batches.len() {
        assert(batches.drop_last().take(n) =~= batches.take(n));
        lemma_rows_error(batches.drop_last(), kind, n);
    } else {
        assert(batches.take(n) =~= batches);
    }
}

// ---------------------------------------------------------------- writes
/// Whether a column holds the vectors of the rows, in the form of the
/// representation.
pub open spec fn holds_vectors(c: Column, kind: VectorKind, rows: Seq<UpsertRow>) -> bool {
    match kind {
        VectorKind::Single => c matches Column::Vectors(v) && v@.len() == rows.len() && forall|
            i: int,
        |
            0 <= i < rows.len() ==> (#[trigger] v@[i])@ == rows[i].vector@,
        VectorKind::Multivector => c matches Column::Bags(v) && v@.len() == rows.len() && forall|
            i: int,
        |
            0 <= i < rows.len() ==> vector::bag((#[trigger] v@[i])@) == vector::bag(
                rows[i].vectors->0@,
            ),
    }
}

/// Whether a column holds the texts of the rows.
pub open spec fn holds_texts(c: Column, rows: Seq<UpsertRow>) -> bool {
    c matches Column::Text(v) && v@.len() == rows.len() && forall|i: int|
        0 <= i < rows.len() ==> text::text_opt(#[trigger] v@[i]) == text::text_opt(rows[i].text)
}

/// Whether a column holds the same write time for `n` rows.
pub open spec fn holds_stamp(c: Column, n: nat, stamp: i64) -> bool {
    c matches Column::Micros(v, valid) && v@ == Seq::new(n, |i: int| stamp) && valid@ == Seq::new(
        n,
        |i: int| true,
    )
}

/// Whether a batch holds exactly the rows: ids, vectors and texts row by row,
/// and the one write time where the table has that column.
pub open spec fn holds_rows(
    b: Batch,
    kind: VectorKind,
    rows: Seq<UpsertRow>,
    stamp: Option<i64>,
) -> bool {
    let c = b.columns@;
    &&& b.num_rows == rows.len()
    &&& c.len() == (if stamp is Some {
        4int
    } else {
        3
    })
    &&& c[0].name@ == "id"@
    &&& c[0].data matches Column::UInt64(v)
    &&& v@ == rows::ids(rows)
    &&& c[1].name@ == "vector"@
    &&& holds_vectors(c[1].data, kind, rows)
    &&& c[2].name@ == "text"@
    &&& holds_texts(c[2].data, rows)
    &&& stamp matches Some(ts) ==> c[3].name@ == "_ingested_at"@ && holds_stamp(
        c[3].data,
        rows.len(),
        ts,
    )
}

/// Whether the rows can be laid out at the width: every vector has it. Rows
/// that passed the check against their namespace can.
pub open spec fn layable(rows: Seq<UpsertRow>, kind: VectorKind, dim: usize) -> bool {
    forall|i: int|
        0 <= i < rows.len() ==> match kind {
            VectorKind::Single => (#[trigger] rows[i]).vector@.len() == dim,
            VectorKind::Multivector => rows[i].vectors matches Some(subs) ==> forall|j: int|
                0 <= j < subs@.len() ==> (#[trigger] subs@[j])@.len() == dim,
        }
}

/// The first row at or after `from` without a multivector payload.
pub open spec fn first_without_bag(rows: Seq<UpsertRow>, from: int) -> Option<int>
    decreases rows.len() - from,
{
    if from < 0 || from >= rows.len() {
        None
    } else if rows[from].vectors is None {
        Some(from)
    } else {
        first_without_bag(rows, from + 1)
    }
}

/// The id of the first row that lacks the payload of a multivector namespace.
pub open spec fn bagless(rows: Seq<UpsertRow>, kind: VectorKind) -> Option<u64> {
    match (kind, first_without_bag(rows, 0)) {
        (VectorKind::Multivector, Some(i)) => Some(rows[i].id),
        _ => None,
    }
}

fn vector_column(rows: &Vec<UpsertRow>, kind: VectorKind) -> (r: Result<Column, FirnflowError>)
    ensures
        match r {
            Ok(c) => bagless(rows@, kind) is None && holds_vectors(c, kind, rows@) && column_fits(
                c,
                rows.len(),
            ),
            Err(e) => bagless(rows@, kind) matches Some(id) && e@ == ErrorView::InvalidRequest(
                rows::row_label(id) + ": multivector namespace requires `vectors` payload"@,
            ),
        },
{
    match kind {
        VectorKind::Single => {
            let mut out: Vec<Vec<u32>> = Vec::new();
            let mut i: usize = 0;
            while i < rows.len()
                invariant
                    i <= rows@.len(),
                    out@.len() == i,
                    forall|k: int| 0 <= k < i ==> (#[trigger] out@[k])@ == rows@[k].vector@,
                decreases rows@.len() - i,
            {
                out.push(vector::copy_vector(&rows[i].vector));
                i = i + 1;
            }
            Ok(Column::Vectors(out))
        },
        VectorKind::Multivector => {
            let mut out: Vec<Vec<Vec<u32>>> = Vec::new();
            let mut i: usize = 0;
            while i < rows.len()
                invariant
                    i <= rows@.len(),
                    out@.len() == i,
                    kind is Multivector,
                    first_without_bag(rows@, 0) == first_without_bag(rows@, i as int),
                    forall|k: int|
                        0 <= k < i ==> vector::bag((#[trigger] out@[k])@) == vector::bag(
                            rows@[k].vectors->0@,
                        ),
                decreases rows@.len() - i,
            {
                match &rows[i].vectors {
                    Some(subs) => {
                        out.push(vector::copy_bag(subs));
                    },
                    None => {
                        return Err(
                            FirnflowError::InvalidRequest(
                                text::cat3(
                                    "row id ",
                                    text::dec_text(rows[i].id).as_str(),
                                    ": multivector namespace requires `vectors` payload",
                                ),
                            ),
                        );
                    },
                }
                i = i + 1;
            }
            Ok(Column::Bags(out))
        },
    }
}

fn id_column(rows: &Vec<UpsertRow>) -> (r: Vec<u64>)
    ensures
        r@ == rows::ids(rows@),
{
    let mut out: Vec<u64> = Vec::new();
    let mut i: usize = 0;
    while i < rows.len()
        invariant
            i <= rows@.len(),
            out@.len() == i,
            forall|k: int| 0 <= k < i ==> out@[k] == rows@[k].id,
        decreases rows@.len() - i,
    {
        out.push(rows[i].id);
        i = i + 1;
    }
    assert(out@ =~= rows::ids(rows@));
    out
}

fn text_column(rows: &Vec<UpsertRow>) -> (r: Vec<Option<String>>)
    ensures
        holds_texts(Column::Text(r), rows@),
{
    let mut out: Vec<Option<String>> = Vec::new();
    let mut i: usize = 0;
    while i < rows.len()
        invariant
            i <= rows@.len(),
            out@.len() == i,
            forall|k: int|
                0 <= k < i ==> text::text_opt(#[trigger] out@[k]) == text::text_opt(rows@[k].text),
        decreases rows@.len() - i,
    {
        out.push(text::copy_opt(&rows[i].text));
        i = i + 1;
    }
    out
}

fn stamp_column(n: usize, stamp: i64) -> (r: Column)
    ensures
        holds_stamp(r, n as nat, stamp),
{
    let mut values: Vec<i64> = Vec::new();
    let mut valid: Vec<bool> = Vec::new();
    let mut i: usize = 0;
    while i < n
        invariant
            i <= n,
            values@ == Seq::new(i as nat, |k: int| stamp),
            valid@ == Seq::new(i as nat, |k: int| true),
        decreases n - i,
    {
        values.push(stamp);
        valid.push(true);
        i = i + 1;
    }
    Column::Micros(values, valid)
}

/// Lays rows out as a batch. Every row of the batch gets the same write time,
/// so that a row that replaces another carries the time of its own write.
pub fn rows_to_batch(kind: VectorKind, dim: usize, rows: &Vec<UpsertRow>, stamp: Option<i64>) -> (r:
    Result<Batch, FirnflowError>)
    requires
        dim <= i32::MAX,
        layable(rows@, kind, dim),
    ensures
        match r {
            Ok(b) => bagless(rows@, kind) is None && b.wf() && holds_rows(b, kind, rows@, stamp),
            Err(e) => bagless(rows@, kind) matches Some(id) && e@ == ErrorView::InvalidRequest(
                rows::row_label(id) + ": multivector namespace requires `vectors` payload"@,
            ),
        },
{
    let vectors = match vector_column(rows, kind) {
        Ok(c) => c,
        Err(e) => {
            return Err(e);
        },
    };
    let mut columns: Vec<NamedColumn> = Vec::new();
    columns.push(NamedColumn { name: "id".to_string(), data: Column::UInt64(id_column(rows)) });
    columns.push(NamedColumn { name: "vector".to_string(), data: vectors });
    columns.push(NamedColumn { name: "text".to_string(), data: Column::Text(text_column(rows)) });
    if let Some(ts) = stamp {
        columns.push(
            NamedColumn { name: "_ingested_at".to_string(), data: stamp_column(rows.len(), ts) },
        );
    }
    let b = Batch { num_rows: rows.len(), columns };
    assert(b.wf());
    Ok(b)
}

/// Whether a batch holds rows as a table stores them: with one write time where
/// the table has that column, and with none where it has not.
pub open spec fn holds_stamped(
    b: Batch,
    info: NamespaceSchemaInfo,
    rows: Seq<UpsertRow>,
    now: i64,
) -> bool {
    holds_rows(
        b,
        info.kind,
        rows,
        if info.has_ingested_at {
            Some(now)
        } else {
            None
        },
    )
}

/// Lays rows out as their table stores them, with the time of the call.
pub fn stamped_batch(info: NamespaceSchemaInfo, rows: &Vec<UpsertRow>) -> (r: Result<
    Batch,
    FirnflowError,
>)
    requires
        info.dim <= i32::MAX,
        layable(rows@, info.kind, info.dim),
    ensures
        match r {
            Ok(b) => bagless(rows@, info.kind) is None && b.wf() && exists|now: i64| #[trigger]
                holds_stamped(b, info, rows@, now) && clock::read_micros(now),
            Err(e) => bagless(rows@, info.kind) matches Some(id) && e@ == ErrorView::InvalidRequest(
                rows::row_label(id) + ": multivector namespace requires `vectors` payload"@,
            ),
        },
{
    let now: i64 = clock::current_micros();
    let stamp: Option<i64> = if info.has_ingested_at {
        Some(now)
    } else {
        None
    };
    match rows_to_batch(info.kind, info.dim, rows, stamp) {
        Ok(b) => {
            assert(holds_stamped(b, info, rows@, now));
            Ok(b)
        },
        Err(e) => Err(e),
    }
}

// ------------------------------------------------------------------ laws
/// Rows that were checked against their namespace can be laid out, and none
/// lacks the payload: such a write never fails on its layout.
pub proof fn law_checked_rows_can_be_laid_out(
    rows: Seq<UpsertRow>,
    kind: VectorKind,
    dim: usize,
)
    requires
        forall|i: int| 0 <= i < rows.len() ==> rows::row_check(#[trigger] rows[i], kind, dim) is Ok,
    ensures
        layable(rows, kind, dim),
        bagless(rows, kind) is None,
{
    assert forall|i: int| 0 <= i < rows.len() implies match kind {
        VectorKind::Single => (#[trigger] rows[i]).vector@.len() == dim,
        VectorKind::Multivector => rows[i].vectors matches Some(subs) ==> forall|j: int|
            0 <= j < subs@.len() ==> (#[trigger] subs@[j])@.len() == dim,
    } by {
        rows::law_accepted_rows_have_the_namespace_shape(rows[i], kind, dim);
    }
    if kind is Multivector {
        lemma_all_have_bags(rows, kind, dim, 0);
    }
}

proof fn lemma_all_have_bags(rows: Seq<UpsertRow>, kind: VectorKind, dim: usize, from: int)
    requires
        0 <= from,
        kind is Multivector,
        forall|i: int| 0 <= i < rows.len() ==> rows::row_check(#[trigger] rows[i], kind, dim) is Ok,
    ensures
        first_without_bag(rows, from) is None,
    decreases rows.len() - from,
{
    if from < rows.len() {
        rows::law_accepted_rows_have_the_namespace_shape(rows[from], kind, dim);
        lemma_all_have_bags(rows, kind, dim, from + 1);
    }
}

/// The row that a listing shows for a written row.
pub open spec fn shown(row: UpsertRow, kind: VectorKind, stamp: i64) -> ListRowView {
    (
        row.id,
        match kind {
            VectorKind::Single => row.vector@,
            VectorKind::Multivector => Seq::empty(),
        },
        text::text_opt(row.text),
        stamp,
    )
}

/// What a listing reads back of a batch is what was written: each row with its
/// id, its vector (none of the bag for multivector rows), its text, and the
/// write time of the batch.
pub proof fn law_listing_reads_back_the_write(
    b: Batch,
    kind: VectorKind,
    rows: Seq<UpsertRow>,
    stamp: i64,
)
    requires
        b.wf(),
        holds_rows(b, kind, rows, Some(stamp)),
    ensures
        batch_rows(b, kind) == Ok::<Seq<ListRowView>, ErrorView>(
            Seq::new(rows.len(), |i: int| shown(rows[i], kind, stamp)),
        ),
{
    lemma_columns_found(b, kind, rows, Some(stamp));
    let expected = Seq::new(rows.len(), |i: int| shown(rows[i], kind, stamp));
    let got = Seq::new(b.num_rows as nat, |row: int| listed_row(b, row, kind));
    assert(row_vector(b, 0, kind, "list"@) is Ok);
    assert(got =~= expected) by {
        assert forall|i: int| 0 <= i < rows.len() implies got[i] == expected[i] by {
            assert(row_vector(b, i, kind, "list"@) is Ok);
        }
    }
}

proof fn lemma_columns_found(
    b: Batch,
    kind: VectorKind,
    rows: Seq<UpsertRow>,
    stamp: Option<i64>,
)
    requires
        holds_rows(b, kind, rows, stamp),
    ensures
        column(b, "id"@) == Some(b.columns@[0].data),
        column(b, "vector"@) == Some(b.columns@[1].data),
        column(b, "text"@) == Some(b.columns@[2].data),
        stamp is Some ==> column(b, "_ingested_at"@) == Some(b.columns@[3].data),
        stamp is None ==> column(b, "_ingested_at"@) is None,
{
    reveal_strlit("id");
    reveal_strlit("vector");
    reveal_strlit("text");
    reveal_strlit("_ingested_at");
    assert("id"@.len() == 2 && "vector"@.len() == 6 && "text"@.len() == 4 && "_ingested_at"@.len()
        == 12);
    reveal_with_fuel(find_column, 6);
}

/// The hits of a batch are its rows, in their order. Each has the row's own id and
/// score, its text and its write time where the batch has them; it has the stored
/// vector exactly where that was asked for and the namespace stores single vectors.
pub proof fn law_hits_are_the_rows_of_the_batch(b: Batch, kind: VectorKind, with_vector: bool, i: int)
    requires
        b.wf(),
        batch_hits(b, kind, with_vector) is Ok,
        0 <= i < b.num_rows,
    ensures
        ({
            let hits = batch_hits(b, kind, with_vector)->Ok_0;
            &&& hits.len() == b.num_rows
            &&& column(b, "id"@) matches Some(Column::UInt64(ids)) && hits[i].0 == ids@[i]
            &&& hits[i].2 is Some <==> with_vector && kind is Single
            &&& hits[i].2 is Some ==> (column(b, "vector"@) matches Some(Column::Vectors(v))
                && hits[i].2->0 == v@[i]@)
            &&& (column(b, "text"@) matches Some(Column::Text(t)) && t@[i] is Some) ==> (hits[i].3
                == Some((column(b, "text"@)->0->Text_0)@[i]->0@))
            &&& !(column(b, "text"@) matches Some(Column::Text(t)) && t@[i] is Some)
                ==> hits[i].3 is None
            &&& (column(b, "_ingested_at"@) matches Some(Column::Micros(v, valid)) && valid@[i])
                ==> hits[i].4 == Some((column(b, "_ingested_at"@)->0->Micros_0)@[i])
            &&& !(column(b, "_ingested_at"@) matches Some(Column::Micros(v, valid)) && valid@[i])
                ==> hits[i].4 is None
        }),
{
}

/// The score of a hit is the relevance of a hybrid search where the batch has it,
/// else the distance of a vector search, else the score of a text search; a batch
/// with none of them cannot be answered from.
pub proof fn law_scores_of_hits(b: Batch, kind: VectorKind, with_vector: bool, i: int)
    requires
        b.wf(),
        batch_hits(b, kind, with_vector) is Ok,
        0 <= i < b.num_rows,
    ensures
        ({
            let score = batch_hits(b, kind, with_vector)->Ok_0[i].1;
            match (
                column(b, "_relevance_score"@),
                column(b, "_distance"@),
                column(b, "_score"@),
            ) {
                (Some(Column::Float32(v)), _, _) => score == v@[i],
                (_, Some(Column::Float32(v)), _) => score == v@[i],
                (_, _, Some(Column::Float32(v))) => score == v@[i],
                _ => false,
            }
        }),
{
}

/// The hits of several batches are the hits of each, one batch after the other.
pub proof fn law_batches_are_answered_in_order(
    front: Seq<Batch>,
    last: Batch,
    kind: VectorKind,
    with_vector: bool,
)
    ensures
        all_hits(Seq::empty(), kind, with_vector) == Ok::<Seq<HitView>, ErrorView>(Seq::empty()),
        all_hits(front, kind, with_vector) is Ok && batch_hits(last, kind, with_vector) is Ok
            ==> all_hits(front.push(last), kind, with_vector) == Ok::<Seq<HitView>, ErrorView>(
            all_hits(front, kind, with_vector)->Ok_0 + batch_hits(last, kind, with_vector)->Ok_0,
        ),
        all_rows(Seq::empty(), kind) == Ok::<Seq<ListRowView>, ErrorView>(Seq::empty()),
        all_rows(front, kind) is Ok && batch_rows(last, kind) is Ok ==> all_rows(
            front.push(last),
            kind,
        ) == Ok::<Seq<ListRowView>, ErrorView>(
            all_rows(front, kind)->Ok_0 + batch_rows(last, kind)->Ok_0,
        ),
{
    assert(front.push(last).drop_last() =~= front);
}

/// The listed rows of a batch are its rows, in their order, each with its own id,
/// write time and text, and with its vector where the namespace stores single ones.
pub proof fn law_listed_rows_are_the_rows_of_the_batch(b: Batch, kind: VectorKind, i: int)
    requires
        b.wf(),
        batch_rows(b, kind) is Ok,
        0 <= i < b.num_rows,
    ensures
        ({
            let rows = batch_rows(b, kind)->Ok_0;
            &&& rows.len() == b.num_rows
            &&& column(b, "id"@) matches Some(Column::UInt64(ids)) && rows[i].0 == ids@[i]
            &&& kind is Single ==> (column(b, "vector"@) matches Some(Column::Vectors(v))
                && rows[i].1 == v@[i]@)
            &&& kind is Multivector ==> rows[i].1.len() == 0
            &&& (column(b, "text"@) matches Some(Column::Text(t)) && t@[i] is Some) ==> (rows[i].2
                == Some((column(b, "text"@)->0->Text_0)@[i]->0@))
            &&& !(column(b, "text"@) matches Some(Column::Text(t)) && t@[i] is Some)
                ==> rows[i].2 is None
            &&& column(b, "_ingested_at"@) matches Some(Column::Micros(v, _)) && rows[i].3 == v@[i]
        }),
{
}

/// A batch that is written holds its rows whole: the id of each, its vector or every
/// vector of its bag, its text or none, and one write time for all, where the table
/// has that column.
pub proof fn law_written_batches_hold_their_rows(
    b: Batch,
    info: NamespaceSchemaInfo,
    rows: Seq<UpsertRow>,
    now: i64,
    i: int,
    j: int,
)
    requires
        b.wf(),
        holds_stamped(b, info, rows, now),
        0 <= i < rows.len(),
    ensures
        b.num_rows == rows.len(),
        column(b, "id"@) matches Some(Column::UInt64(ids)) && ids@[i] == rows[i].id,
        info.kind is Single ==> (column(b, "vector"@) matches Some(Column::Vectors(v)) && v@[i]@
            == rows[i].vector@),
        info.kind is Multivector ==> (column(b, "vector"@) matches Some(Column::Bags(v))
            && v@[i]@.len() == rows[i].vectors->0@.len() && (0 <= j < v@[i]@.len() ==> v@[i]@[j]@
            == rows[i].vectors->0@[j]@)),
        column(b, "text"@) matches Some(Column::Text(t)) && (rows[i].text matches Some(x)
            ==> t@[i] is Some && t@[i]->0@ == x@) && (rows[i].text is None ==> t@[i] is None),
        info.has_ingested_at ==> (column(b, "_ingested_at"@) matches Some(Column::Micros(v, valid))
            && v@[i] == now && valid@[i]),
        !info.has_ingested_at ==> column(b, "_ingested_at"@) is None,
{
    let stamp = if info.has_ingested_at {
        Some(now)
    } else {
        None
    };
    lemma_columns_found(b, info.kind, rows, stamp);
    if info.kind is Multivector {
        let v = b.columns@[1].data->Bags_0;
        let x = vector::bag(v@[i]@);
        let y = vector::bag(rows[i].vectors->0@);
        assert(x == y);
        assert(x.len() == y.len());
        if 0 <= j < v@[i]@.len() {
            assert(x[j] == y[j]);
        }
    }
    let t = b.columns@[2].data->Text_0;
    assert(text::text_opt(t@[i]) == text::text_opt(rows[i].text));
}
/// The row that is told to lack its vectors is the first of the write that does,
/// and none is told where single vectors are written or every row has some.
pub proof fn law_first_row_without_vectors_is_told(rows: Seq<UpsertRow>, kind: VectorKind)
    ensures
        match bagless(rows, kind) {
            Some(id) => kind is Multivector && exists|i: int|
                0 <= i < rows.len() && (#[trigger] rows[i]).id == id && rows[i].vectors is None
                    && forall|j: int| 0 <= j < i ==> (#[trigger] rows[j]).vectors is Some,
            None => kind is Single || forall|j: int|
                0 <= j < rows.len() ==> (#[trigger] rows[j]).vectors is Some,
        },
{
    lemma_first_without_bag(rows, 0);
}

proof fn lemma_first_without_bag(rows: Seq<UpsertRow>, from: int)
    requires
        0 <= from <= rows.len(),
    ensures
        match first_without_bag(rows, from) {
            Some(i) => from <= i < rows.len() && rows[i].vectors is None && forall|j: int|
                from <= j < i ==> (#[trigger] rows[j]).vectors is Some,
            None => forall|j: int|
                from <= j < rows.len() ==> (#[trigger] rows[j]).vectors is Some,
        },
    decreases rows.len() - from,
{
    if from < rows.len() && rows[from].vectors is Some {
        lemma_first_without_bag(rows, from + 1);
    }
}

/// A batch that cannot be read is trouble of storage; what is told begins with what
/// was being read, and names the column.
pub proof fn law_unreadable_batches_name_the_column(
    b: Batch,
    row: int,
    kind: VectorKind,
    context: Seq<char>,
)
    ensures
        column(b, "id"@) is None ==> batch_ids(b, context) == Err::<Seq<u64>, ErrorView>(
            ErrorView::Backend(context + ": missing id column"@),
        ),
        (column(b, "id"@) matches Some(c) && !(c is UInt64)) ==> batch_ids(b, context) == Err::<
            Seq<u64>,
            ErrorView,
        >(ErrorView::Backend(context + ": id not UInt64"@)),
        column(b, "vector"@) is None ==> row_vector(b, row, kind, context) == Err::<
            Seq<u32>,
            ErrorView,
        >(ErrorView::Backend(context + ": missing vector column"@)),
        row_vector(b, row, kind, context) matches Err(e) ==> e is Backend && context.is_prefix_of(
            e->Backend_0,
        ),
        column(b, "_ingested_at"@) is None ==> list_micros(b) == Err::<Seq<i64>, ErrorView>(
            ErrorView::Backend("list: missing _ingested_at column"@),
        ),
        (column(b, "_ingested_at"@) matches Some(c) && !(c is Micros)) ==> list_micros(b) == Err::<
            Seq<i64>,
            ErrorView,
        >(ErrorView::Backend("list: _ingested_at not Timestamp(Microsecond)"@)),
{
    if let Err(e) = row_vector(b, row, kind, context) {
        assert(context =~= e->Backend_0.subrange(0, context.len() as int));
    }
}

} // verus!
