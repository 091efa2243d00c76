//! The columns of a namespace's table, and what they say of the namespace.
use vstd::prelude::*;
use crate::error::{self, ErrorView, FirnflowError};
use crate::query;
use crate::rows::NamespaceSchemaInfo;
use crate::text;
use crate::vector::VectorKind;

verus! {

/// Name of the table in a namespace.
pub const TABLE_NAME: &'static str = "data";

/// The column types that the core tells apart.
#[derive(Debug, Clone, Copy, PartialEq, Eq, Structural)]
pub enum FieldType {
    /// Unsigned 64-bit integers.
    UInt64,
    /// Strings.
    Utf8,
    /// Lists of this many single-precision numbers.
    FixedVector(i32),
    /// Lists of lists of this many single-precision numbers.
    VectorList(i32),
    /// Timestamps in microseconds.
    TimestampMicros,
    /// Any other type.
    Other,
}

/// A column of a table.
#[derive(Debug)]
pub struct Field {
    /// Column name.
    pub name: String,
    /// Column type.
    pub data_type: FieldType,
    /// Whether the column may hold nulls.
    pub nullable: bool,
}

/// A column by its contents: name, type, nullability.
pub type FieldView = (Seq<char>, FieldType, bool);

impl View for Field {
    type V = FieldView;

    open spec fn view(&self) -> FieldView {
        (self.name@, self.data_type, self.nullable)
    }
}

/// The contents of a run of columns.
pub open spec fn fields_of(s: Seq<Field>) -> Seq<FieldView> {
    s.map_values(|f: Field| f@)
}

/// The type of the vector column of a representation and width.
pub open spec fn vector_type(kind: VectorKind, dim: usize) -> FieldType {
    match kind {
        VectorKind::Single => FieldType::FixedVector(dim as i32),
        VectorKind::Multivector => FieldType::VectorList(dim as i32),
    }
}

/// The columns of a namespace's table.
pub open spec fn table_schema(
    kind: VectorKind,
    dim: usize,
    with_ingested_at: bool,
) -> Seq<FieldView> {
    let base = seq![
        ("id"@, FieldType::UInt64, false),
        ("vector"@, vector_type(kind, dim), false),
        ("text"@, FieldType::Utf8, true),
    ];
    if with_ingested_at {
        base.push(("_ingested_at"@, FieldType::TimestampMicros, false))
    } else {
        base
    }
}

fn field(name: &str, data_type: FieldType, nullable: bool) -> (r: Field)
    ensures
        r@ == (name@, data_type, nullable),
{
    Field { name: name.to_string(), data_type, nullable }
}

/// The columns of a namespace's table. Fresh tables have the write-time
/// column; a batch for an existing table has it where the table has.
pub fn schema_for_kind(kind: VectorKind, dim: usize, with_ingested_at: bool) -> (r: Vec<Field>)
    requires
        dim <= i32::MAX,
    ensures
        fields_of(r@) == table_schema(kind, dim, with_ingested_at),
{
    let data_type = match kind {
        VectorKind::Single => FieldType::FixedVector(dim as i32),
        VectorKind::Multivector => FieldType::VectorList(dim as i32),
    };
    let mut fields: Vec<Field> = Vec::new();
    fields.push(field("id", FieldType::UInt64, false));
    fields.push(field("vector", data_type, false));
    fields.push(field("text", FieldType::Utf8, true));
    if with_ingested_at {
        fields.push(field("_ingested_at", FieldType::TimestampMicros, false));
    }
    assert(fields_of(fields@) =~= table_schema(kind, dim, with_ingested_at));
    fields
}

/// What a column says of the namespace's vectors, if it is the vector column
/// and has one of the two vector types.
pub open spec fn shape_of(f: FieldView) -> Option<(usize, VectorKind)> {
    if f.0 == "vector"@ {
        match f.1 {
            FieldType::FixedVector(size) => Some((size as usize, VectorKind::Single)),
            FieldType::VectorList(size) => Some((size as usize, VectorKind::Multivector)),
            _ => None,
        }
    } else {
        None
    }
}

/// What the last column that says something says of the vectors.
pub open spec fn vector_shape(fields: Seq<FieldView>) -> Option<(usize, VectorKind)>
    decreases fields.len(),
{
    if fields.len() == 0 {
        None
    } else {
        match shape_of(fields.last()) {
            Some(shape) => Some(shape),
            None => vector_shape(fields.drop_last()),
        }
    }
}

/// Whether the column holds write times.
pub open spec fn holds_write_time(f: FieldView) -> bool {
    f.0 == "_ingested_at"@ && f.1 is TimestampMicros
}

/// The facts that a table's columns state, or that it has no vector column.
pub open spec fn schema_info(fields: Seq<FieldView>) -> Result<NamespaceSchemaInfo, ErrorView> {
    match vector_shape(fields) {
        Some((dim, kind)) => Ok(
            NamespaceSchemaInfo {
                dim,
                kind,
                has_ingested_at: exists|i: int|
                    0 <= i < fields.len() && holds_write_time(#[trigger] fields[i]),
            },
        ),
        None => Err(
            ErrorView::Backend(
                "table schema 'vector' column is neither FixedSizeList nor List<FixedSizeList>"@,
            ),
        ),
    }
}

/// Reads the facts of a namespace from the columns of its table, in one pass.
pub fn read_schema_info_from_table(fields: &Vec<Field>) -> (r: Result<
    NamespaceSchemaInfo,
    FirnflowError,
>)
    ensures
        error::outcome(r) == schema_info(fields_of(fields@)),
{
    let ghost all = fields_of(fields@);
    let mut dim_kind: Option<(usize, VectorKind)> = None;
    let mut has_ingested_at = false;
    let mut i: usize = 0;
    assert(all.take(0) =~= Seq::empty());
    while i < fields.len()
        invariant
            i <= fields@.len(),
            all == fields_of(fields@),
            dim_kind == vector_shape(all.take(i as int)),
            has_ingested_at <==> exists|k: int| 0 <= k < i && holds_write_time(#[trigger] all[k]),
        decreases fields@.len() - i,
    {
        let f = &fields[i];
        proof {
            assert(all.take(i + 1).drop_last() =~= all.take(i as int));
            assert(all.take(i + 1).last() == f@);
            assert(all[i as int] == f@);
            reveal_strlit("vector");
            reveal_strlit("_ingested_at");
            assert("vector"@.len() == 6 && "_ingested_at"@.len() == 12);
            assert(holds_write_time(all[i as int]) == holds_write_time(f@));
        }
        if text::same(f.name.as_str(), "vector") {
            match f.data_type {
                FieldType::FixedVector(size) => {
                    dim_kind = Some((size as usize, VectorKind::Single));
                },
                FieldType::VectorList(size) => {
                    dim_kind = Some((size as usize, VectorKind::Multivector));
                },
                _ => {},
            }
        } else if text::same(f.name.as_str(), "_ingested_at") {
            if matches!(f.data_type, FieldType::TimestampMicros) {
                has_ingested_at = true;
            }
        }
        i = i + 1;
    }
    assert(all.take(all.len() as int) =~= all);
    match dim_kind {
        Some((dim, kind)) => Ok(NamespaceSchemaInfo { dim, kind, has_ingested_at }),
        None => Err(
            FirnflowError::Backend(
                "table schema 'vector' column is neither FixedSizeList nor List<FixedSizeList>".to_string(),
            ),
        ),
    }
}

// ---------------------------------------------------------- index types
/// Index kinds that a table may hold.
#[derive(Debug, Clone, Copy, PartialEq, Eq, Structural)]
pub enum IndexType {
    IvfFlat,
    IvfSq,
    IvfPq,
    IvfRq,
    IvfHnswPq,
    IvfHnswSq,
    IvfHnswFlat,
    BTree,
    Bitmap,
    LabelList,
    FTS,
}

/// Whether the index serves vector search.
pub open spec fn is_vector_index(ty: IndexType) -> bool {
    !(ty is FTS) && !is_scalar_index(ty)
}

/// Whether the index serves lookups of scalar values.
pub open spec fn is_scalar_index(ty: IndexType) -> bool {
    ty is BTree || ty is Bitmap || ty is LabelList
}

/// Whether a namespace's indexes hold a vector, a full-text and a scalar one.
pub fn classify_index_types(types: &Vec<IndexType>) -> (r: (bool, bool, bool))
    ensures
        r.0 <==> exists|i: int| 0 <= i < types@.len() && is_vector_index(#[trigger] types@[i]),
        r.1 <==> exists|i: int| 0 <= i < types@.len() && #[trigger] types@[i] is FTS,
        r.2 <==> exists|i: int| 0 <= i < types@.len() && is_scalar_index(#[trigger] types@[i]),
{
    let mut vector = false;
    let mut fts = false;
    let mut scalar = false;
    let mut i: usize = 0;
    while i < types.len()
        invariant
            i <= types@.len(),
            vector <==> exists|k: int| 0 <= k < i && is_vector_index(#[trigger] types@[k]),
            fts <==> exists|k: int| 0 <= k < i && #[trigger] types@[k] is FTS,
            scalar <==> exists|k: int| 0 <= k < i && is_scalar_index(#[trigger] types@[k]),
        decreases types@.len() - i,
    {
        match types[i] {
            IndexType::IvfFlat
            | IndexType::IvfSq
            | IndexType::IvfPq
            | IndexType::IvfRq
            | IndexType::IvfHnswPq
            | IndexType::IvfHnswSq
            | IndexType::IvfHnswFlat => {
                vector = true;
            },
            IndexType::FTS => {
                fts = true;
            },
            IndexType::BTree | IndexType::Bitmap | IndexType::LabelList => {
                scalar = true;
            },
        }
        i = i + 1;
    }
    (vector, fts, scalar)
}

/// Whether a scalar index may be built on a column of this name.
pub open spec fn scalar_indexable(column: Seq<char>) -> bool {
    column == "id"@ || column == "_ingested_at"@
}

/// The answer to a scalar index request on another column.
pub open spec fn not_indexable(column: Seq<char>) -> ErrorView {
    ErrorView::InvalidRequest(
        "scalar index column "@ + text::debug_text(column)
            + " is not supported; valid columns: [\"id\", \"_ingested_at\"]"@,
    )
}

/// Checks that a scalar index may be built on the column.
pub fn validate_scalar_index_column(column: &str) -> (r: Result<(), FirnflowError>)
    ensures
        error::outcome(r) == (if scalar_indexable(column@) {
            Ok::<(), ErrorView>(())
        } else {
            Err(not_indexable(column@))
        }),
{
    if text::same(column, "id") || text::same(column, "_ingested_at") {
        Ok(())
    } else {
        Err(
            FirnflowError::InvalidRequest(
                text::cat3(
                    "scalar index column ",
                    text::quoted(column).as_str(),
                    " is not supported; valid columns: [\"id\", \"_ingested_at\"]",
                ),
            ),
        )
    }
}

// ------------------------------------------------------------------ laws
/// Reading the facts back from the columns that were made for them gives the
/// same facts: a namespace that is opened again is what it was created as.
pub proof fn law_schema_reads_back(info: NamespaceSchemaInfo)
    requires
        info.dim <= i32::MAX,
    ensures
        schema_info(table_schema(info.kind, info.dim, info.has_ingested_at)) == Ok::<
            NamespaceSchemaInfo,
            ErrorView,
        >(info),
{
    reveal_strlit("id");
    reveal_strlit("vector");
    reveal_strlit("text");
    reveal_strlit("_ingested_at");
    let fields = table_schema(info.kind, info.dim, info.has_ingested_at);
    assert("id"@.len() == 2 && "vector"@.len() == 6 && "text"@.len() == 4);
    assert("_ingested_at"@.len() == 12);
    let two = fields.take(2);
    let three = fields.take(3);
    assert(three.drop_last() =~= two);
    assert(shape_of(three.last()) is None);
    assert(two.last() == fields[1]);
    assert(vector_shape(two) == Some((info.dim, info.kind)));
    assert(vector_shape(three) == vector_shape(two));
    if info.has_ingested_at {
        assert(fields.drop_last() =~= three);
        assert(holds_write_time(fields[3]));
    } else {
        assert(fields =~= three);
        assert forall|i: int| 0 <= i < fields.len() implies !holds_write_time(
            #[trigger] fields[i],
        ) by {
            assert(i == 0 || i == 1 || i == 2);
        }
    }
}

/// Every index kind belongs to exactly one of the three families.
pub proof fn law_index_families_partition(ty: IndexType)
    ensures
        is_vector_index(ty) ==> !(ty is FTS) && !is_scalar_index(ty),
        is_scalar_index(ty) ==> !(ty is FTS),
        is_vector_index(ty) || ty is FTS || is_scalar_index(ty),
{
}

/// The columns of a namespace's table. Ids are numbers, a single vector is a list of
/// the namespace's width and a bag is a list of such lists, texts may be missing,
/// and write times, where the table has them, are in microseconds.
pub proof fn law_table_columns(kind: VectorKind, dim: usize, with_ingested_at: bool)
    requires
        dim <= i32::MAX,
    ensures
        ({
            let columns = table_schema(kind, dim, with_ingested_at);
            &&& columns.len() == (if with_ingested_at {
                4int
            } else {
                3
            })
            &&& columns[0] == ("id"@, FieldType::UInt64, false)
            &&& columns[1].0 == "vector"@ && !columns[1].2
            &&& kind is Single ==> columns[1].1 == FieldType::FixedVector(dim as i32)
            &&& kind is Multivector ==> columns[1].1 == FieldType::VectorList(dim as i32)
            &&& columns[2] == ("text"@, FieldType::Utf8, true)
            &&& with_ingested_at ==> columns[3] == (
                "_ingested_at"@,
                FieldType::TimestampMicros,
                false,
            )
        }),
{
}

/// A table without a vector column of one of the two kinds is no namespace; one with
/// such a column alone is a namespace of that kind and width.
pub proof fn law_vector_columns_make_a_namespace(fields: Seq<FieldView>, i: int)
    requires
        0 <= i < fields.len(),
        forall|k: int| 0 <= k < fields.len() && k != i ==> (#[trigger] fields[k]).0 != "vector"@,
    ensures
        fields[i].0 == "vector"@ ==> (match fields[i].1 {
            FieldType::FixedVector(size) => schema_info(fields) matches Ok(info) && info.kind is Single
                && info.dim == size as usize,
            FieldType::VectorList(size) => schema_info(fields) matches Ok(info)
                && info.kind is Multivector && info.dim == size as usize,
            _ => schema_info(fields) matches Err(e) && e is Backend,
        }),
        fields[i].0 != "vector"@ ==> (schema_info(fields) matches Err(e) && e is Backend),
{
    lemma_lone_vector_column(fields, i);
}

proof fn lemma_lone_vector_column(fields: Seq<FieldView>, i: int)
    requires
        0 <= i < fields.len(),
        forall|k: int| 0 <= k < fields.len() && k != i ==> (#[trigger] fields[k]).0 != "vector"@,
    ensures
        vector_shape(fields) == shape_of(fields[i]),
    decreases fields.len(),
{
    if i == fields.len() - 1 {
        let front = fields.drop_last();
        assert forall|k: int| 0 <= k < front.len() implies (#[trigger] front[k]).0 != "vector"@ by {
            assert(fields[k].0 != "vector"@);
        }
        lemma_no_vector_column(front);
    } else {
        let front = fields.drop_last();
        assert(fields.last() == fields[fields.len() - 1]);
        assert forall|k: int| 0 <= k < front.len() && k != i implies (#[trigger] front[k]).0
            != "vector"@ by {
            assert(fields[k].0 != "vector"@);
        }
        lemma_lone_vector_column(front, i);
    }
}

proof fn lemma_no_vector_column(fields: Seq<FieldView>)
    requires
        forall|k: int| 0 <= k < fields.len() ==> (#[trigger] fields[k]).0 != "vector"@,
    ensures
        vector_shape(fields) is None,
    decreases fields.len(),
{
    if fields.len() > 0 {
        let front = fields.drop_last();
        assert forall|k: int| 0 <= k < front.len() implies (#[trigger] front[k]).0 != "vector"@ by {
            assert(fields[k].0 != "vector"@);
        }
        lemma_no_vector_column(front);
    }
}

/// Rows carry their write time exactly where the table has a column of that name
/// with timestamps in microseconds.
pub proof fn law_write_times_need_their_column(fields: Seq<FieldView>)
    requires
        schema_info(fields) is Ok,
    ensures
        schema_info(fields)->Ok_0.has_ingested_at <==> exists|i: int|
            0 <= i < fields.len() && (#[trigger] fields[i]).0 == "_ingested_at"@
                && fields[i].1 is TimestampMicros,
{
    if schema_info(fields)->Ok_0.has_ingested_at {
        let i = choose|i: int| 0 <= i < fields.len() && holds_write_time(#[trigger] fields[i]);
        assert(fields[i].0 == "_ingested_at"@);
    }
    if exists|i: int|
        0 <= i < fields.len() && (#[trigger] fields[i]).0 == "_ingested_at"@
            && fields[i].1 is TimestampMicros {
        let i = choose|i: int|
            0 <= i < fields.len() && (#[trigger] fields[i]).0 == "_ingested_at"@
                && fields[i].1 is TimestampMicros;
        assert(holds_write_time(fields[i]));
    }
}

/// Scalar indexes are for ids and write times; a request on any other column is the
/// caller's mistake. Which index kinds serve vectors, texts and scalars is fixed.
pub proof fn law_index_kinds(column: Seq<char>, ty: IndexType)
    ensures
        scalar_indexable("id"@),
        scalar_indexable("_ingested_at"@),
        scalar_indexable(column) ==> column == "id"@ || column == "_ingested_at"@,
        not_indexable(column) is InvalidRequest,
        is_scalar_index(ty) <==> ty == IndexType::BTree || ty == IndexType::Bitmap || ty
            == IndexType::LabelList,
        is_vector_index(ty) <==> ty == IndexType::IvfFlat || ty == IndexType::IvfSq || ty
            == IndexType::IvfPq || ty == IndexType::IvfRq || ty == IndexType::IvfHnswPq || ty
            == IndexType::IvfHnswSq || ty == IndexType::IvfHnswFlat,
{
}
/// A column that cannot be indexed is told as it was asked for, in quotes.
pub proof fn law_refused_columns_are_told(column: Seq<char>)
    ensures
        not_indexable(column) is InvalidRequest,
        text::occurs(not_indexable(column)->InvalidRequest_0, text::debug_text(column)),
{
    text::lemma_occurs_inside(
        "scalar index column "@,
        text::debug_text(column),
        " is not supported; valid columns: [\"id\", \"_ingested_at\"]"@,
    );
}
/// A column is seen whole, and columns are seen in their order.
pub proof fn law_columns_are_seen_whole(fields: Seq<Field>, i: int)
    requires
        0 <= i < fields.len(),
    ensures
        fields_of(fields).len() == fields.len(),
        fields_of(fields)[i].0 == fields[i].name@,
        fields_of(fields)[i].1 == fields[i].data_type,
        fields_of(fields)[i].2 == fields[i].nullable,
{
}

} // verus!
