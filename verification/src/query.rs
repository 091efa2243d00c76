//! Query, facet and index requests, and the checks on their shape.
use vstd::prelude::*;
use crate::error::{self, ErrorView, FirnflowError};
use crate::text;

verus! {

/// Number of IVF partitions that a query probes by default.
pub const DEFAULT_NPROBES: usize = 20;

/// Bucket cap of a facet request that names none.
pub const DEFAULT_FACET_TOP: usize = 100;

/// Largest bucket cap of a facet request.
pub const MAX_FACET_TOP: usize = 1000;

/// The bits of `1.0` in single precision. Read as integers, the bits of the
/// numbers in `(0.0, 1.0]` are exactly `1` up to this.
pub const ONE_BITS: u32 = 0x3F80_0000;

/// Default cosine threshold of semantic-cache hits: the bits of `0.995`.
pub const DEFAULT_SEMANTIC_MIN_SIMILARITY: u32 = 0x3F7E_B852;

/// A single-precision number: its bits, and its decimal text for messages.
#[derive(Debug, Clone, PartialEq)]
pub struct Similarity {
    /// IEEE 754 bits.
    pub bits: u32,
    /// Decimal text.
    pub shown: String,
}

/// Per-request controls of semantic caching.
#[derive(Debug, Clone, PartialEq)]
pub struct SemanticCacheRequest {
    /// Whether a near-duplicate query's result may be reused.
    pub enabled: bool,
    /// Cosine floor of a semantic hit; the default applies where absent.
    pub min_similarity: Option<Similarity>,
}

/// Parameters of a search query.
///
/// A vector field alone is a nearest-neighbour search, `text` alone a
/// full-text search, both together a hybrid one. `vector` belongs to
/// single-vector namespaces, `vectors` to multivector ones.
#[derive(Debug, Clone, PartialEq)]
pub struct QueryRequest {
    /// Single-vector payload; empty means none.
    pub vector: Vec<u32>,
    /// Multivector payload.
    pub vectors: Option<Vec<Vec<u32>>>,
    /// Maximum number of results.
    pub k: usize,
    /// Number of partitions to probe.
    pub nprobes: Option<usize>,
    /// Full-text query.
    pub text: Option<String>,
    /// Predicate that rows must satisfy, applied before the search.
    pub filter: Option<String>,
    /// Whether hits carry the stored vector.
    pub include_vector: bool,
    /// Semantic-cache controls. No part of the exact-cache key.
    pub semantic_cache: Option<SemanticCacheRequest>,
}

/// A facet request: counts of scalar values over the rows that match `filter`.
#[derive(Debug, Clone, PartialEq)]
pub struct FacetRequest {
    /// Predicate that rows must satisfy.
    pub filter: Option<String>,
    /// Fields to aggregate.
    pub fields: Vec<String>,
    /// Maximum buckets per field.
    pub top: Option<usize>,
}

/// An explicit index build request.
#[derive(Debug, Clone, PartialEq)]
pub struct IndexRequest {
    /// Index type; only `ivf_pq` is supported.
    pub kind: String,
    /// Number of IVF partitions.
    pub num_partitions: Option<u32>,
    /// Number of PQ sub-vectors.
    pub num_sub_vectors: Option<u32>,
    /// PQ codebook bit width: 4 or 8.
    pub num_bits: Option<u32>,
}

/// Vectors are returned unless the caller opts out.
pub fn default_include_vector() -> (r: bool)
    ensures
        r,
{
    true
}

/// The index type of a request that names none.
pub fn default_index_kind() -> (r: String)
    ensures
        r@ == "ivf_pq"@,
{
    "ivf_pq".to_string()
}

// ---------------------------------------------------------------- facets
/// The names in a facet request.
pub open spec fn names(fields: Seq<String>) -> Seq<Seq<char>> {
    fields.map_values(|f: String| f@)
}

/// Whether the item at `i` repeats an earlier one.
pub open spec fn repeats<T>(s: Seq<T>, i: int) -> bool {
    exists|j: int| 0 <= j < i && #[trigger] s[j] == s[i]
}

/// Whether `i` is the first item that repeats an earlier one.
pub open spec fn first_repeat<T>(s: Seq<T>, i: int) -> bool {
    0 <= i < s.len() && repeats(s, i) && forall|k: int| 0 <= k < i ==> !repeats(s, k)
}

/// The bucket cap that a request asks for.
pub open spec fn facet_top(top: Option<usize>) -> usize {
    match top {
        Some(t) => t,
        None => DEFAULT_FACET_TOP,
    }
}

/// Whether a facet request has a good shape: it names fields, none of them
/// twice, and a cap within bounds.
pub open spec fn facet_ok(req: FacetRequest) -> bool {
    names(req.fields@).len() > 0 && names(req.fields@).no_duplicates() && 1 <= facet_top(req.top)
        <= MAX_FACET_TOP
}

/// Whether `e` is what is wrong with a facet request, looked at in this order:
/// no fields, a repeated field, the cap.
pub open spec fn facet_fault(req: FacetRequest, e: ErrorView) -> bool {
    let fields = names(req.fields@);
    let top = facet_top(req.top);
    if fields.len() == 0 {
        e == ErrorView::InvalidRequest("facet fields must not be empty"@)
    } else if !fields.no_duplicates() {
        exists|i: int| #[trigger]
            first_repeat(fields, i) && e == ErrorView::InvalidRequest(
                "duplicate facet field '"@ + fields[i] + "'"@,
            )
    } else {
        !(1 <= top <= MAX_FACET_TOP) && e == ErrorView::InvalidRequest(
            "facet top must be in 1..=1000, got "@ + text::dec(top as nat),
        )
    }
}

/// Checks the shape of a facet request and gives its bucket cap. Whether the
/// fields exist is for the live schema to say.
pub fn validate_facet_request(req: &FacetRequest) -> (r: Result<usize, FirnflowError>)
    ensures
        match r {
            Ok(t) => facet_ok(*req) && t == facet_top(req.top),
            Err(e) => facet_fault(*req, e@),
        },
{
    let ghost fields = names(req.fields@);
    if req.fields.len() == 0 {
        return Err(FirnflowError::InvalidRequest("facet fields must not be empty".to_string()));
    }
    let mut i: usize = 0;
    while i < req.fields.len()
        invariant
            i <= req.fields@.len(),
            fields == names(req.fields@),
            req.fields@.len() > 0,
            forall|k: int| 0 <= k < i ==> !repeats(fields, k),
        decreases req.fields@.len() - i,
    {
        let mut j: usize = 0;
        while j < i
            invariant
                j <= i < req.fields@.len(),
                fields == names(req.fields@),
                req.fields@.len() > 0,
                forall|k: int| 0 <= k < i ==> !repeats(fields, k),
                forall|k: int| 0 <= k < j ==> fields[k] != fields[i as int],
            decreases i - j,
        {
            if text::same(req.fields[j].as_str(), req.fields[i].as_str()) {
                let msg = text::cat3("duplicate facet field '", req.fields[i].as_str(), "'");
                proof {
                    assert(fields[j as int] == fields[i as int]);
                    assert(repeats(fields, i as int));
                    assert(first_repeat(fields, i as int));
                    assert(!fields.no_duplicates());
                }
                return Err(FirnflowError::InvalidRequest(msg));
            }
            j = j + 1;
        }
        assert(!repeats(fields, i as int));
        i = i + 1;
    }
    assert(fields.no_duplicates()) by {
        assert forall|a: int, b: int|
            0 <= a < b < fields.len() implies fields[a] != fields[b] by {
            assert(!repeats(fields, b));
        }
    }
    let top: usize = match req.top {
        Some(t) => t,
        None => DEFAULT_FACET_TOP,
    };
    if top == 0 || top > MAX_FACET_TOP {
        return Err(
            FirnflowError::InvalidRequest(
                text::cat2(
                    "facet top must be in 1..=1000, got ",
                    text::dec_text(top as u64).as_str(),
                ),
            ),
        );
    }
    Ok(top)
}

// -------------------------------------------------------- semantic cache
/// Whether the bits are those of a number in `(0.0, 1.0]`.
pub open spec fn in_unit_range(bits: u32) -> bool {
    1 <= bits <= ONE_BITS
}

/// Whether a multivector payload is given and not empty.
pub open spec fn has_vectors(vectors: Option<Vec<Vec<u32>>>) -> bool {
    vectors matches Some(v) && v@.len() > 0
}

/// What the check of the semantic-cache controls answers, in the order in
/// which it looks: the threshold first, even where the cache is not enabled.
pub open spec fn semantic_check(req: QueryRequest) -> Result<(), ErrorView> {
    match req.semantic_cache {
        None => Ok(()),
        Some(sem) => if sem.min_similarity matches Some(t) && !in_unit_range(t.bits) {
            Err(
                ErrorView::InvalidRequest(
                    "semantic_cache.min_similarity must be in (0.0, 1.0], got "@
                        + sem.min_similarity->0.shown@,
                ),
            )
        } else if !sem.enabled {
            Ok(())
        } else if req.vector@.len() == 0 {
            Err(
                ErrorView::InvalidRequest(
                    "semantic_cache requires a single-vector `vector` field; multivector, FTS, and hybrid queries are not eligible in v1"@,
                ),
            )
        } else if req.vectors is Some {
            Err(
                ErrorView::InvalidRequest(
                    "semantic_cache is not supported for multivector queries in v1"@,
                ),
            )
        } else if req.text is Some {
            Err(
                ErrorView::InvalidRequest(
                    "semantic_cache is not supported for FTS or hybrid queries in v1"@,
                ),
            )
        } else if req.filter is Some {
            Err(
                ErrorView::InvalidRequest(
                    "semantic_cache is not supported for filtered queries in v1"@,
                ),
            )
        } else {
            Ok(())
        },
    }
}

/// Whether a multivector payload is given and not empty.
pub fn has_bag(vectors: &Option<Vec<Vec<u32>>>) -> (r: bool)
    ensures
        r == has_vectors(*vectors),
{
    match vectors {
        Some(v) => v.len() > 0,
        None => false,
    }
}

/// Checks the semantic-cache controls of a request, before any cache or
/// backend work.
pub fn validate_semantic_cache_request(req: &QueryRequest) -> (r: Result<(), FirnflowError>)
    ensures
        error::outcome(r) == semantic_check(*req),
{
    let sem = match &req.semantic_cache {
        None => {
            return Ok(());
        },
        Some(sem) => sem,
    };
    if let Some(threshold) = &sem.min_similarity {
        if threshold.bits < 1 || threshold.bits > ONE_BITS {
            return Err(
                FirnflowError::InvalidRequest(
                    text::cat2(
                        "semantic_cache.min_similarity must be in (0.0, 1.0], got ",
                        threshold.shown.as_str(),
                    ),
                ),
            );
        }
    }
    if !sem.enabled {
        return Ok(());
    }
    if req.vector.len() == 0 {
        return Err(
            FirnflowError::InvalidRequest(
                "semantic_cache requires a single-vector `vector` field; multivector, FTS, and hybrid queries are not eligible in v1".to_string(),
            ),
        );
    }
    if req.vectors.is_some() {
        return Err(
            FirnflowError::InvalidRequest(
                "semantic_cache is not supported for multivector queries in v1".to_string(),
            ),
        );
    }
    if req.text.is_some() {
        return Err(
            FirnflowError::InvalidRequest(
                "semantic_cache is not supported for FTS or hybrid queries in v1".to_string(),
            ),
        );
    }
    if req.filter.is_some() {
        return Err(
            FirnflowError::InvalidRequest(
                "semantic_cache is not supported for filtered queries in v1".to_string(),
            ),
        );
    }
    Ok(())
}

/// The cosine threshold that a request asks for, by its bits.
pub open spec fn threshold_bits(req: SemanticCacheRequest) -> u32 {
    match req.min_similarity {
        Some(t) => t.bits,
        None => DEFAULT_SEMANTIC_MIN_SIMILARITY,
    }
}

/// The cosine threshold of a request: its own, or the default.
pub fn effective_semantic_threshold(req: &SemanticCacheRequest) -> (r: u32)
    ensures
        r == threshold_bits(*req),
{
    match &req.min_similarity {
        Some(t) => t.bits,
        None => DEFAULT_SEMANTIC_MIN_SIMILARITY,
    }
}

// ----------------------------------------------------------------- index
/// What the check of the PQ options answers.
pub open spec fn ivf_pq_check(num_bits: Option<u32>, num_sub_vectors: Option<u32>) -> Result<
    (),
    ErrorView,
> {
    match num_bits {
        Some(bits) if bits != 4 && bits != 8 => Err(
            ErrorView::InvalidRequest(
                "num_bits="@ + text::dec(bits as nat)
                    + " is not supported; accepted values are 4 or 8"@,
            ),
        ),
        Some(4) => match num_sub_vectors {
            Some(n) if n % 2 != 0 => Err(
                ErrorView::InvalidRequest(
                    "num_bits=4 requires num_sub_vectors to be even (got "@ + text::dec(n as nat)
                        + ")"@,
                ),
            ),
            _ => Ok(()),
        },
        _ => Ok(()),
    }
}

/// Checks the IVF_PQ options: a bit width is 4 or 8, and a 4-bit width goes
/// with an even number of sub-vectors.
pub fn validate_ivf_pq_options(num_bits: Option<u32>, num_sub_vectors: Option<u32>) -> (r: Result<
    (),
    FirnflowError,
>)
    ensures
        error::outcome(r) == ivf_pq_check(num_bits, num_sub_vectors),
{
    if let Some(bits) = num_bits {
        if bits != 4 && bits != 8 {
            return Err(
                FirnflowError::InvalidRequest(
                    text::cat3(
                        "num_bits=",
                        text::dec_text(bits as u64).as_str(),
                        " is not supported; accepted values are 4 or 8",
                    ),
                ),
            );
        }
        if bits == 4 {
            if let Some(n) = num_sub_vectors {
                if n % 2 != 0 {
                    return Err(
                        FirnflowError::InvalidRequest(
                            text::cat3(
                                "num_bits=4 requires num_sub_vectors to be even (got ",
                                text::dec_text(n as u64).as_str(),
                                ")",
                            ),
                        ),
                    );
                }
            }
        }
    }
    Ok(())
}

// ------------------------------------------------------------------ laws
/// A request that passes the check has a threshold in `(0.0, 1.0]`, the
/// default included; so no lookup ever runs with another one.
pub proof fn law_checked_threshold_is_in_range(req: QueryRequest)
    requires
        semantic_check(req) is Ok,
        req.semantic_cache is Some,
    ensures
        in_unit_range(threshold_bits(req.semantic_cache->0)),
{
}

/// A request without semantic caching, or with it switched off and no
/// threshold, always passes the check.
pub proof fn law_semantic_cache_is_opt_in(req: QueryRequest)
    requires
        req.semantic_cache matches Some(s) ==> !s.enabled && s.min_similarity is None,
    ensures
        semantic_check(req) is Ok,
{
}

/// An omitted bit width is accepted with any number of sub-vectors, and an
/// omitted number of sub-vectors with any supported bit width.
pub proof fn law_omitted_pq_options_are_accepted(bits: Option<u32>, subs: Option<u32>)
    ensures
        ivf_pq_check(None, subs) is Ok,
        bits matches Some(b) && (b == 4 || b == 8) ==> ivf_pq_check(bits, None) is Ok,
{
}

/// A request passes the check of its semantic-cache controls exactly where it has
/// none, or has a threshold in `(0.0, 1.0]` or none at all and, where the cache is
/// enabled, goes by one vector alone. Whatever does not pass is the caller's
/// mistake.
pub proof fn law_semantic_controls_are_checked(req: QueryRequest)
    ensures
        semantic_check(req) is Ok <==> (req.semantic_cache matches Some(sem) ==> (
        sem.min_similarity matches Some(t) ==> 1 <= t.bits && t.bits <= 0x3F80_0000) && (
        sem.enabled ==> req.vector@.len() > 0 && req.vectors is None && req.text is None
            && req.filter is None)),
        semantic_check(req) matches Err(e) ==> e is InvalidRequest,
{
}

/// The threshold of a request is the one it gives, or the default; the default is
/// the bits of 0.995, and lies in the range that a request may ask for.
pub proof fn law_thresholds_are_asked_for_or_default(sem: SemanticCacheRequest)
    ensures
        sem.min_similarity matches Some(t) ==> threshold_bits(sem) == t.bits,
        sem.min_similarity is None ==> threshold_bits(sem) == 0x3F7E_B852,
        in_unit_range(DEFAULT_SEMANTIC_MIN_SIMILARITY),
{
}

/// A facet request has a good shape exactly where it names fields, names none of
/// them twice, and asks for one to a thousand buckets, a hundred where it does not
/// say.
pub proof fn law_facet_requests_are_checked(req: FacetRequest, e: ErrorView)
    ensures
        facet_ok(req) <==> req.fields@.len() > 0 && (forall|i: int, j: int|
            0 <= i < j < req.fields@.len() ==> (#[trigger] req.fields@[i])@ != (
            #[trigger] req.fields@[j])@) && (req.top matches Some(t) ==> 1 <= t && t <= 1000),
        req.top is None ==> facet_top(req.top) == 100,
        req.top matches Some(t) ==> facet_top(req.top) == t,
        facet_fault(req, e) ==> e is InvalidRequest && !facet_ok(req),
{
    let f = names(req.fields@);
    if f.no_duplicates() {
        assert forall|i: int, j: int| 0 <= i < j < req.fields@.len() implies (
        #[trigger] req.fields@[i])@ != (#[trigger] req.fields@[j])@ by {
            assert(f[i] != f[j]);
        }
    }
    if forall|i: int, j: int|
        0 <= i < j < req.fields@.len() ==> (#[trigger] req.fields@[i])@ != (
        #[trigger] req.fields@[j])@ {
        assert forall|i: int, j: int| 0 <= i < f.len() && 0 <= j < f.len() && i != j implies f[i]
            != f[j] by {
            assert(f[i] == req.fields@[i]@ && f[j] == req.fields@[j]@);
            if i < j {
                assert(req.fields@[i]@ != req.fields@[j]@);
            } else {
                assert(req.fields@[j]@ != req.fields@[i]@);
            }
        }
    }
}

/// The options of a vector index are accepted exactly where the bit width is four,
/// eight or not given, and four bits go with an even number of sub-vectors, if a
/// number is given. Anything else is the caller's mistake.
pub proof fn law_index_options_are_checked(bits: Option<u32>, subs: Option<u32>)
    ensures
        ivf_pq_check(bits, subs) is Ok <==> bits is None || bits == Some(8u32) || (bits == Some(
            4u32,
        ) && (subs matches Some(n) ==> n % 2 == 0)),
        ivf_pq_check(bits, subs) matches Err(e) ==> e is InvalidRequest,
{
}
/// A refused facet request is told why: a field that is named twice by its name, a
/// number of buckets by that number. A refused similarity is told as it was
/// written.
pub proof fn law_refused_values_are_told(req: FacetRequest, e: ErrorView, sem: QueryRequest)
    ensures
        facet_fault(req, e) && req.fields@.len() > 0 && !names(req.fields@).no_duplicates()
            ==> exists|i: int, j: int|
            0 <= j < i < req.fields@.len() && (#[trigger] req.fields@[i])@ == (
            #[trigger] req.fields@[j])@ && e == ErrorView::InvalidRequest(
                "duplicate facet field '"@ + req.fields@[i]@ + "'"@,
            ),
        facet_fault(req, e) && req.fields@.len() > 0 && names(req.fields@).no_duplicates()
            ==> req.top is Some && text::dec(req.top->0 as nat).is_suffix_of(e->InvalidRequest_0),
        (sem.semantic_cache matches Some(c) && c.min_similarity matches Some(t) && !in_unit_range(
            t.bits,
        )) ==> semantic_check(sem) is Err
            && sem.semantic_cache->0.min_similarity->0.shown@.is_suffix_of(
            semantic_check(sem)->Err_0->InvalidRequest_0,
        ),
{
    let f = names(req.fields@);
    if facet_fault(req, e) && f.len() > 0 && !f.no_duplicates() {
        let i = choose|i: int| #[trigger]
            first_repeat(f, i) && e == ErrorView::InvalidRequest(
                "duplicate facet field '"@ + f[i] + "'"@,
            );
        let j = choose|j: int| 0 <= j < i && #[trigger] f[j] == f[i];
        assert(req.fields@[i]@ == req.fields@[j]@);
    }
    if facet_fault(req, e) && f.len() > 0 && f.no_duplicates() {
        let n = text::dec(facet_top(req.top) as nat);
        let m = e->InvalidRequest_0;
        assert(n =~= m.subrange(m.len() - n.len(), m.len() as int));
    }
    if sem.semantic_cache matches Some(c) && c.min_similarity matches Some(t) && !in_unit_range(
        t.bits,
    ) {
        let n = sem.semantic_cache->0.min_similarity->0.shown@;
        let m = semantic_check(sem)->Err_0->InvalidRequest_0;
        assert(n =~= m.subrange(m.len() - n.len(), m.len() as int));
    }
}

/// Refused options of a vector index are told by their numbers.
pub proof fn law_refused_index_options_are_told(bits: Option<u32>, subs: Option<u32>)
    ensures
        bits is Some && bits->0 != 4 && bits->0 != 8 ==> text::occurs(
            ivf_pq_check(bits, subs)->Err_0->InvalidRequest_0,
            "num_bits="@ + text::dec(bits->0 as nat),
        ),
        bits == Some(4u32) && subs is Some && subs->0 % 2 != 0 ==> text::occurs(
            ivf_pq_check(bits, subs)->Err_0->InvalidRequest_0,
            text::dec(subs->0 as nat),
        ),
{
    if bits is Some && bits->0 != 4 && bits->0 != 8 {
        let word = "num_bits="@ + text::dec(bits->0 as nat);
        let back = " is not supported; accepted values are 4 or 8"@;
        text::lemma_occurs_inside(Seq::empty(), word, back);
        assert(Seq::<char>::empty() + word + back =~= word + back);
    }
    if bits == Some(4u32) && subs is Some && subs->0 % 2 != 0 {
        text::lemma_occurs_inside(
            "num_bits=4 requires num_sub_vectors to be even (got "@,
            text::dec(subs->0 as nat),
            ")"@,
        );
    }
}

} // verus!
