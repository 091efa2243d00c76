//! Cursors of the listing: where a page ended, as an opaque token.
use vstd::prelude::*;
use crate::error::{self, ErrorView, FirnflowError};
use crate::result::{self, ListOrder, ListPage, ListRow};
use crate::text;

verus! {

/// Largest page of a listing.
pub const LIST_MAX_LIMIT: usize = 500;

/// The token of a position: sixteen hexadecimal digits of the timestamp's
/// two's complement bits, then sixteen of the id.
pub open spec fn cursor_text(ts_micros: i64, id: u64) -> Seq<char> {
    text::hex_digits((ts_micros as u64) as nat, 16) + text::hex_digits(id as nat, 16)
}

/// Whether a text is thirty-two hexadecimal digits.
pub open spec fn is_cursor(s: Seq<char>) -> bool {
    s.len() == 32 && forall|i: int| 0 <= i < 32 ==> text::is_hex(#[trigger] s[i])
}

/// Whether `(ts, id)` is the position that a token stands for.
pub open spec fn denotes(s: Seq<char>, ts: i64, id: u64) -> bool {
    (ts as u64) as nat == text::hex_value(s.subrange(0, 16)) && id as nat == text::hex_value(
        s.subrange(16, 32),
    )
}

/// Encodes a position as a token. Clients hand it back as it is.
pub fn encode_list_cursor(ts_micros: i64, id: u64) -> (r: String)
    ensures
        r@ == cursor_text(ts_micros, id),
{
    let high = text::hex_text(ts_micros as u64, 16);
    let low = text::hex_text(id, 16);
    text::cat2(high.as_str(), low.as_str())
}

/// Decodes a token. Anything but thirty-two hexadecimal digits is refused.
pub fn decode_list_cursor(cursor: &str) -> (r: Result<(i64, u64), FirnflowError>)
    ensures
        match r {
            Ok((ts, id)) => is_cursor(cursor@) && denotes(cursor@, ts, id),
            Err(e) => !is_cursor(cursor@) && e@ == ErrorView::InvalidRequest(
                "malformed cursor "@ + text::debug_text(cursor@) + ": expected 32 hex characters"@,
            ),
        },
{
    let chars = text::chars_of(cursor);
    let mut valid = chars.len() == 32;
    if valid {
        let mut i: usize = 0;
        while i < 32 && valid
            invariant
                i <= 32,
                chars@.len() == 32,
                valid ==> forall|k: int| 0 <= k < i ==> text::is_hex(#[trigger] chars@[k]),
                !valid ==> exists|k: int| 0 <= k < 32 && !text::is_hex(#[trigger] chars@[k]),
            decreases 32 - i,
        {
            let c = chars[i];
            if !(('0' <= c && c <= '9') || ('a' <= c && c <= 'f') || ('A' <= c && c <= 'F')) {
                assert(!text::is_hex(chars@[i as int]));
                valid = false;
            }
            i = i + 1;
        }
    }
    if !valid {
        return Err(
            FirnflowError::InvalidRequest(
                text::cat3(
                    "malformed cursor ",
                    text::quoted(cursor).as_str(),
                    ": expected 32 hex characters",
                ),
            ),
        );
    }
    let high: u64 = text::parse_hex(&chars, 0, 16);
    let low: u64 = text::parse_hex(&chars, 16, 32);
    let ts: i64 = high as i64;
    assert((high as i64) as u64 == high) by (bit_vector);
    Ok((ts, low))
}

// ----------------------------------------------------------------- pages
/// A position in a listing: write time, then id.
pub type Position = (i64, u64);

/// Whether `b` comes strictly after `a` in the order.
pub open spec fn comes_after(order: ListOrder, a: Position, b: Position) -> bool {
    match order {
        ListOrder::Asc => b.0 > a.0 || (b.0 == a.0 && b.1 > a.1),
        ListOrder::Desc => b.0 < a.0 || (b.0 == a.0 && b.1 < a.1),
    }
}

/// The comparison sign of the order.
pub open spec fn sign(order: ListOrder) -> Seq<char> {
    match order {
        ListOrder::Asc => ">"@,
        ListOrder::Desc => "<"@,
    }
}

/// The predicate that keeps the rows after a position: a later write time, or
/// the same one and a later id.
pub open spec fn cursor_filter(order: ListOrder, at: Position) -> Seq<char> {
    "(_ingested_at "@ + sign(order) + " to_timestamp_micros("@ + text::dec_int(at.0 as int)
        + ")) OR (_ingested_at = to_timestamp_micros("@ + text::dec_int(at.0 as int)
        + ") AND id "@ + sign(order) + " "@ + text::dec(at.1 as nat) + ")"@
}

/// The predicate that keeps the rows after a position.
pub fn list_filter(order: ListOrder, ts: i64, id: u64) -> (r: String)
    ensures
        r@ == cursor_filter(order, (ts, id)),
{
    let s: &'static str = match order {
        ListOrder::Asc => ">",
        ListOrder::Desc => "<",
    };
    let t = text::dec_text_i64(ts);
    let mut r = text::cat9(
        "(_ingested_at ",
        s,
        " to_timestamp_micros(",
        t.as_str(),
        ")) OR (_ingested_at = to_timestamp_micros(",
        t.as_str(),
        ") AND id ",
        s,
        " ",
    );
    r.append(text::dec_text(id).as_str());
    r.append(")");
    r
}

/// How a scan orders its rows: the column, whether it descends, and whether
/// nulls come first.
#[derive(Debug)]
pub struct ScanOrdering {
    /// Column name.
    pub column: String,
    /// Whether larger values come first.
    pub descending: bool,
    /// Whether nulls come before values.
    pub nulls_first: bool,
}

impl View for ScanOrdering {
    type V = (Seq<char>, bool, bool);

    open spec fn view(&self) -> (Seq<char>, bool, bool) {
        (self.column@, self.descending, self.nulls_first)
    }
}

/// The scan that a page is read with.
#[derive(Debug)]
pub struct ListScan {
    /// Rows on the page, after clamping.
    pub limit: usize,
    /// Predicate of the cursor, if there is one.
    pub filter: Option<String>,
    /// Primary ordering.
    pub first: ScanOrdering,
    /// Ordering among equal write times.
    pub second: ScanOrdering,
    /// Rows to read: one more than the page holds.
    pub fetch: i64,
}

/// `limit` brought into `1..=LIST_MAX_LIMIT`.
pub open spec fn clamped(limit: usize) -> usize {
    if limit < 1 {
        1
    } else if limit > LIST_MAX_LIMIT {
        LIST_MAX_LIMIT
    } else {
        limit
    }
}

/// Plans the scan of a page: the rows after the cursor, by write time and then
/// id, one row more than the page holds so that a further page shows.
pub fn plan_list(limit: usize, order: ListOrder, cursor: Option<(i64, u64)>) -> (r: ListScan)
    ensures
        r.limit == clamped(limit),
        r.fetch == clamped(limit) + 1,
        text::text_opt(r.filter) == (match cursor {
            Some(at) => Some(cursor_filter(order, at)),
            None => None,
        }),
        r.first@ == ("_ingested_at"@, order is Desc, order is Asc),
        r.second@ == ("id"@, order is Desc, order is Asc),
{
    let limit: usize = if limit < 1 {
        1
    } else if limit > LIST_MAX_LIMIT {
        LIST_MAX_LIMIT
    } else {
        limit
    };
    let filter = match cursor {
        Some((ts, id)) => Some(list_filter(order, ts, id)),
        None => None,
    };
    let descending = matches!(order, ListOrder::Desc);
    ListScan {
        limit,
        filter,
        first: ScanOrdering {
            column: "_ingested_at".to_string(),
            descending,
            nulls_first: !descending,
        },
        second: ScanOrdering { column: "id".to_string(), descending, nulls_first: !descending },
        fetch: (limit + 1) as i64,
    }
}

/// The page that the rows of a scan make: at most `limit` of them, and a
/// cursor at the last one kept where rows were left over.
pub open spec fn page_of(rows: Seq<result::ListRowView>, limit: nat) -> (
    Seq<result::ListRowView>,
    Option<Seq<char>>,
) {
    if rows.len() > limit {
        let kept = rows.take(limit as int);
        (
            kept,
            if limit > 0 {
                Some(cursor_text(kept.last().3, kept.last().0))
            } else {
                None
            },
        )
    } else {
        (rows, None)
    }
}

/// Cuts the rows of a scan to a page.
pub fn finish_list(rows: Vec<ListRow>, limit: usize) -> (r: ListPage)
    ensures
        r@ == page_of(result::listed(rows@), limit as nat),
{
    let mut rows = rows;
    let ghost all = result::listed(rows@);
    if rows.len() > limit {
        rows.truncate(limit);
        assert(result::listed(rows@) =~= all.take(limit as int));
        let next_cursor = if rows.len() > 0 {
            let last: usize = rows.len() - 1;
            Some(encode_list_cursor(rows[last].ingested_at_micros, rows[last].id))
        } else {
            None
        };
        ListPage { rows, next_cursor }
    } else {
        ListPage { rows, next_cursor: None }
    }
}

// ------------------------------------------------------------------ laws
proof fn lemma_pow16_16()
    ensures
        text::pow16(16) == 0x1_0000_0000_0000_0000,
{
    reveal_with_fuel(text::pow16, 18);
}

/// Decoding an encoded position gives the position back: the token is well
/// formed, and the only position it stands for is the encoded one.
pub proof fn law_cursor_round_trip(ts: i64, id: u64, ts2: i64, id2: u64)
    ensures
        is_cursor(cursor_text(ts, id)),
        denotes(cursor_text(ts, id), ts, id),
        denotes(cursor_text(ts, id), ts2, id2) ==> ts2 == ts && id2 == id,
{
    lemma_pow16_16();
    let s = cursor_text(ts, id);
    text::lemma_hex_round_trip((ts as u64) as nat, 16);
    text::lemma_hex_round_trip(id as nat, 16);
    let high = text::hex_digits((ts as u64) as nat, 16);
    let low = text::hex_digits(id as nat, 16);
    assert(s.subrange(0, 16) =~= high);
    assert(s.subrange(16, 32) =~= low);
    assert forall|i: int| 0 <= i < 32 implies text::is_hex(#[trigger] s[i]) by {
        if i < 16 {
            assert(s[i] == high[i]);
        } else {
            assert(s[i] == low[i - 16]);
        }
    }
    if denotes(s, ts2, id2) {
        assert(ts2 == ts) by (bit_vector)
            requires
                ts as u64 == ts2 as u64,
        ;
    }
}

/// The order of a listing is strict and total on positions: of two different
/// positions exactly one comes after the other, and nothing comes after itself.
pub proof fn law_listing_order_is_total(order: ListOrder, a: Position, b: Position, c: Position)
    ensures
        !comes_after(order, a, a),
        a != b ==> (comes_after(order, a, b) <==> !comes_after(order, b, a)),
        comes_after(order, a, b) && comes_after(order, b, c) ==> comes_after(order, a, c),
{
}

/// In a listing in order, the rows after the cursor of a page that ends with
/// row `n` are exactly the rows from `n + 1` on: following cursors neither
/// repeats nor skips a row.
pub proof fn law_pages_follow_on(order: ListOrder, all: Seq<Position>, n: int, k: int)
    requires
        0 <= n < all.len(),
        0 <= k < all.len(),
        forall|i: int, j: int|
            0 <= i < j < all.len() ==> comes_after(order, #[trigger] all[i], #[trigger] all[j]),
    ensures
        comes_after(order, all[n], all[k]) <==> k > n,
{
    if k < n {
        assert(comes_after(order, all[k], all[n]));
    }
}

/// The position of a row.
pub open spec fn place(row: result::ListRowView) -> Position {
    (row.3, row.0)
}

/// Whether rows are in the order of a listing, no two of them at one position.
pub open spec fn in_order(order: ListOrder, all: Seq<result::ListRowView>) -> bool {
    forall|i: int, j: int|
        0 <= i < j < all.len() ==> comes_after(
            order,
            place(#[trigger] all[i]),
            place(#[trigger] all[j]),
        )
}

/// The rows after a position; all of them where there is none.
pub open spec fn rows_after(
    order: ListOrder,
    all: Seq<result::ListRowView>,
    at: Option<Position>,
) -> Seq<result::ListRowView> {
    all.filter(
        |row: result::ListRowView|
            match at {
                Some(p) => comes_after(order, p, place(row)),
                None => true,
            },
    )
}

/// The page of a listing after a position: of the rows after it the first ones,
/// one more read than the page holds.
pub open spec fn page_after(
    order: ListOrder,
    all: Seq<result::ListRowView>,
    limit: usize,
    at: Option<Position>,
) -> (Seq<result::ListRowView>, Option<Seq<char>>) {
    let rows = rows_after(order, all, at);
    let fetch = clamped(limit) + 1;
    page_of(
        if rows.len() > fetch {
            rows.take(fetch)
        } else {
            rows
        },
        clamped(limit) as nat,
    )
}

/// The position that a token stands for.
pub open spec fn position_in(cursor: Seq<char>) -> Position {
    choose|p: Position| #[trigger] denotes(cursor, p.0, p.1)
}

/// What following cursors lists, from a position on and for so many pages, and
/// whether the last of them had no cursor.
pub open spec fn walk(
    order: ListOrder,
    all: Seq<result::ListRowView>,
    limit: usize,
    at: Option<Position>,
    pages: nat,
) -> (Seq<result::ListRowView>, bool)
    decreases pages,
{
    if pages == 0 {
        (Seq::empty(), false)
    } else {
        let page = page_after(order, all, limit, at);
        match page.1 {
            None => (page.0, true),
            Some(cursor) => {
                let rest = walk(
                    order,
                    all,
                    limit,
                    Some(position_in(cursor)),
                    (pages - 1) as nat,
                );
                (page.0 + rest.0, rest.1)
            },
        }
    }
}

/// What a filter keeps, where it keeps exactly the items from `m` on.
proof fn lemma_filter_suffix<A>(s: Seq<A>, pred: spec_fn(A) -> bool, m: int)
    requires
        0 <= m <= s.len(),
        forall|i: int| 0 <= i < s.len() ==> (pred(#[trigger] s[i]) <==> i >= m),
    ensures
        s.filter(pred) == s.skip(m),
    decreases s.len(),
{
    reveal(Seq::filter);
    if s.len() > 0 {
        let front = s.drop_last();
        assert forall|i: int| 0 <= i < front.len() implies (pred(#[trigger] front[i]) <==> i >= m) by {
            assert(front[i] == s[i]);
        }
        let last = s.len() - 1;
        assert(pred(s[last]) <==> last >= m);
        if m <= last {
            lemma_filter_suffix(front, pred, m);
            assert(s.skip(m) =~= front.skip(m).push(s.last()));
        } else {
            lemma_filter_suffix(front, pred, front.len() as int);
            assert(front.skip(front.len() as int) =~= Seq::empty());
            assert(s.skip(m) =~= Seq::empty());
        }
    } else {
        assert(s.skip(m) =~= s.filter(pred));
    }
}

/// Following the cursors from row `n` on lists the rows from `n` on.
proof fn lemma_walk(
    order: ListOrder,
    all: Seq<result::ListRowView>,
    limit: usize,
    n: int,
    pages: nat,
)
    requires
        in_order(order, all),
        0 <= n <= all.len(),
        pages > all.len() - n,
    ensures
        ({
            let at = if n == 0 {
                None
            } else {
                Some(place(all[n - 1]))
            };
            walk(order, all, limit, at, pages) == (all.skip(n), true)
        }),
    decreases pages,
{
    let at = if n == 0 {
        None
    } else {
        Some(place(all[n - 1]))
    };
    let kept = |row: result::ListRowView|
        match at {
            Some(p) => comes_after(order, p, place(row)),
            None => true,
        };
    assert forall|i: int| 0 <= i < all.len() implies (kept(#[trigger] all[i]) <==> i >= n) by {
        if n > 0 {
            if i < n - 1 {
                assert(comes_after(order, place(all[i]), place(all[n - 1])));
            } else if i > n - 1 {
                assert(comes_after(order, place(all[n - 1]), place(all[i])));
            }
        }
    }
    lemma_filter_suffix(all, kept, n);
    let rows = all.skip(n);
    assert(rows_after(order, all, at) == rows);
    let size = clamped(limit) as int;
    if rows.len() > size {
        let page = page_after(order, all, limit, at);
        let last = n + size - 1;
        assert(page.0 =~= all.subrange(n, n + size)) by {
            if rows.len() > size + 1 {
                assert(rows.take(size + 1).take(size) =~= all.subrange(n, n + size));
            } else {
                assert(rows.take(size) =~= all.subrange(n, n + size));
            }
        }
        assert(page.0.last() == all[last]);
        let p = place(all[last]);
        let cursor = cursor_text(p.0, p.1);
        assert(page.1 == Some(cursor));
        law_cursor_round_trip(p.0, p.1, p.0, p.1);
        let q = position_in(cursor);
        assert(denotes(cursor, p.0, p.1));
        law_cursor_round_trip(p.0, p.1, q.0, q.1);
        assert(q == p);
        lemma_walk(order, all, limit, n + size, (pages - 1) as nat);
        assert(page.0 + all.skip(n + size) =~= rows);
    }
}

/// Following cursors from the first page on lists every row once, in order, and
/// ends: with rows in the order of the listing, as many pages as there are rows
/// and one more are enough, whatever the limit.
pub proof fn law_following_cursors_lists_every_row(
    order: ListOrder,
    all: Seq<result::ListRowView>,
    limit: usize,
    pages: nat,
)
    requires
        in_order(order, all),
        pages > all.len(),
    ensures
        walk(order, all, limit, None, pages) == (all, true),
{
    lemma_walk(order, all, limit, 0, pages);
    assert(all.skip(0) =~= all);
}

// --------------------------------------------------- the page's predicate
/// How a predicate compares a column with a number.
pub enum Comparison {
    Below,
    Above,
}

/// The sign that a comparison is written with.
pub open spec fn comparison_sign(c: Comparison) -> char {
    match c {
        Comparison::Below => '<',
        Comparison::Above => '>',
    }
}

/// Whether a comparison holds between the value of a column and a number.
pub open spec fn compares(c: Comparison, value: int, number: int) -> bool {
    match c {
        Comparison::Below => value < number,
        Comparison::Above => value > number,
    }
}

/// Whether a text is the predicate on write time and id with these comparisons and
/// numbers: the write time compared with the first, or equal to the second and the
/// id compared with the third.
pub open spec fn is_predicate(
    s: Seq<char>,
    first: Comparison,
    second: Comparison,
    ts: i64,
    tie: i64,
    id: u64,
) -> bool {
    s == "(_ingested_at "@ + seq![comparison_sign(first)] + " to_timestamp_micros("@
        + text::dec_int(ts as int) + ")) OR (_ingested_at = to_timestamp_micros("@ + text::dec_int(
        tie as int,
    ) + ") AND id "@ + seq![comparison_sign(second)] + " "@ + text::dec(id as nat) + ")"@
}

/// Whether a row at a position satisfies the predicate that a text writes down.
pub open spec fn keeps(s: Seq<char>, row: Position) -> bool {
    exists|first: Comparison, second: Comparison, ts: i64, tie: i64, id: u64| #[trigger]
        is_predicate(s, first, second, ts, tie, id) && (compares(first, row.0 as int, ts as int)
            || (row.0 == tie && compares(second, row.1 as int, id as int)))
}

/// Two texts that agree as a whole agree up to a character that the parts in front
/// do not hold, and behind it.
proof fn lemma_cut(x: Seq<char>, more: Seq<char>, y: Seq<char>, others: Seq<char>, stop: char)
    requires
        x + more == y + others,
        more.len() > 0 && more[0] == stop,
        others.len() > 0 && others[0] == stop,
        forall|i: int| 0 <= i < x.len() ==> #[trigger] x[i] != stop,
        forall|i: int| 0 <= i < y.len() ==> #[trigger] y[i] != stop,
    ensures
        x == y,
        more == others,
{
    let a = x + more;
    let b = y + others;
    assert(a[x.len() as int] == stop);
    assert(b[y.len() as int] == stop);
    if x.len() < y.len() {
        assert(b[x.len() as int] == y[x.len() as int]);
    }
    if y.len() < x.len() {
        assert(a[y.len() as int] == x[y.len() as int]);
    }
    assert(x =~= a.take(x.len() as int));
    assert(y =~= b.take(y.len() as int));
    assert(more =~= a.skip(x.len() as int));
    assert(others =~= b.skip(y.len() as int));
}

proof fn lemma_no_bracket(n: int)
    ensures
        forall|i: int| 0 <= i < text::dec_int(n).len() ==> #[trigger] text::dec_int(n)[i] != ')',
{
    text::law_numerals_are_distinct(n, n);
    assert forall|i: int| 0 <= i < text::dec_int(n).len() implies #[trigger] text::dec_int(n)[i]
        != ')' by {
        assert(text::is_digit(text::dec_int(n)[i]) || text::dec_int(n)[i] == '-');
    }
}

/// The parts of a text between brackets, each determined by the text.
#[verifier::spinoff_prover]
proof fn lemma_parts(
    s: Seq<char>,
    a: Seq<char>,
    p: char,
    b: Seq<char>,
    t: Seq<char>,
    rest: Seq<char>,
    p2: char,
    t2: Seq<char>,
    rest2: Seq<char>,
)
    requires
        s == a + seq![p] + b + t + rest,
        s == a + seq![p2] + b + t2 + rest2,
        rest.len() > 0 && rest[0] == ')',
        rest2.len() > 0 && rest2[0] == ')',
        forall|i: int| 0 <= i < t.len() ==> #[trigger] t[i] != ')',
        forall|i: int| 0 <= i < t2.len() ==> #[trigger] t2[i] != ')',
    ensures
        p == p2,
        t == t2,
        rest == rest2,
{
    let n = a.len() as int;
    assert(s[n] == p);
    assert((a + seq![p2] + b + t2 + rest2)[n] == p2);
    let m = n + 1 + b.len();
    assert((a + seq![p] + b + t + rest).skip(m) =~= t + rest);
    assert((a + seq![p2] + b + t2 + rest2).skip(m) =~= t2 + rest2);
    lemma_cut(t, rest, t2, rest2, ')');
}

/// Parts of a text, the last of them taken together.
#[verifier::spinoff_prover]
proof fn lemma_regrouped(
    x: Seq<char>,
    c: Seq<char>,
    u: Seq<char>,
    d: Seq<char>,
    q: Seq<char>,
    e: Seq<char>,
    n: Seq<char>,
    f: Seq<char>,
)
    ensures
        x + c + u + d + q + e + n + f == x + (c + u + (d + q + e + n + f)),
{
    let y = x + c + u;
    assert(y + d + q + e + n + f =~= y + (d + q + e + n + f));
    let z = d + q + e + n + f;
    assert(x + c + u + z =~= x + (c + u + z));
}

/// A text writes down one predicate at most.
#[verifier::spinoff_prover]
proof fn lemma_predicates_are_unambiguous(
    s: Seq<char>,
    first: Comparison,
    second: Comparison,
    ts: i64,
    tie: i64,
    id: u64,
    first2: Comparison,
    second2: Comparison,
    ts2: i64,
    tie2: i64,
    id2: u64,
)
    requires
        is_predicate(s, first, second, ts, tie, id),
        is_predicate(s, first2, second2, ts2, tie2, id2),
    ensures
        first == first2,
        second == second2,
        ts == ts2,
        tie == tie2,
        id == id2,
{
    let a = "(_ingested_at "@;
    let b = " to_timestamp_micros("@;
    let c = ")) OR (_ingested_at = to_timestamp_micros("@;
    let d = ") AND id "@;
    let e = " "@;
    let f = ")"@;
    assert(c.len() > 0 && c[0] == ')') by {
        reveal_strlit(")) OR (_ingested_at = to_timestamp_micros(");
    }
    assert(d.len() > 0 && d[0] == ')') by {
        reveal_strlit(") AND id ");
    }
    assert(f.len() > 0 && f[0] == ')') by {
        reveal_strlit(")");
    }
    let p = comparison_sign(first);
    let q = comparison_sign(second);
    let p2 = comparison_sign(first2);
    let q2 = comparison_sign(second2);
    let t = text::dec_int(ts as int);
    let t2 = text::dec_int(ts2 as int);
    let u = text::dec_int(tie as int);
    let u2 = text::dec_int(tie2 as int);
    let n = text::dec_int(id as int);
    let n2 = text::dec_int(id2 as int);
    assert(n == text::dec(id as nat) && n2 == text::dec(id2 as nat));
    lemma_no_bracket(ts as int);
    lemma_no_bracket(ts2 as int);
    lemma_no_bracket(tie as int);
    lemma_no_bracket(tie2 as int);
    lemma_no_bracket(id as int);
    lemma_no_bracket(id2 as int);
    let mid = d + seq![q] + e + n + f;
    let mid2 = d + seq![q2] + e + n2 + f;
    let tail = c + u + mid;
    let tail2 = c + u2 + mid2;
    lemma_regrouped(a + seq![p] + b + t, c, u, d, seq![q], e, n, f);
    lemma_regrouped(a + seq![p2] + b + t2, c, u2, d, seq![q2], e, n2, f);
    assert(tail[0] == c[0] && tail2[0] == c[0]);
    lemma_parts(s, a, p, b, t, tail, p2, t2, tail2);
    assert(mid[0] == d[0] && mid2[0] == d[0]);
    assert(tail.skip(c.len() as int) =~= u + mid);
    assert(tail2.skip(c.len() as int) =~= u2 + mid2);
    lemma_cut(u, mid, u2, mid2, ')');
    lemma_parts(mid, d, q, e, n, f, q2, n2, f);
    text::law_numerals_are_distinct(ts as int, ts2 as int);
    text::law_numerals_are_distinct(tie as int, tie2 as int);
    text::law_numerals_are_distinct(id as int, id2 as int);
}

/// The predicate of a page, read as a condition on a row's write time and id, holds
/// for exactly the rows that the listing still has to show behind the cursor: oldest
/// first, those written later, or at the same time under a higher id; newest first,
/// those written earlier, or at the same time under a lower id.
pub proof fn law_page_predicates_keep_what_follows(order: ListOrder, at: Position, row: Position)
    ensures
        keeps(cursor_filter(order, at), row) <==> comes_after(order, at, row),
        order is Asc ==> (keeps(cursor_filter(order, at), row) <==> row.0 > at.0 || (row.0 == at.0
            && row.1 > at.1)),
        order is Desc ==> (keeps(cursor_filter(order, at), row) <==> row.0 < at.0 || (row.0 == at.0
            && row.1 < at.1)),
{
    reveal_strlit(">");
    reveal_strlit("<");
    assert(">"@ =~= seq!['>']);
    assert("<"@ =~= seq!['<']);
    let c = match order {
        ListOrder::Asc => Comparison::Above,
        ListOrder::Desc => Comparison::Below,
    };
    let s = cursor_filter(order, at);
    assert(is_predicate(s, c, c, at.0, at.0, at.1));
    if keeps(s, row) {
        let (first, second, ts, tie, id) = choose|
            first: Comparison,
            second: Comparison,
            ts: i64,
            tie: i64,
            id: u64,
        | #[trigger]
            is_predicate(s, first, second, ts, tie, id) && (compares(
                first,
                row.0 as int,
                ts as int,
            ) || (row.0 == tie && compares(second, row.1 as int, id as int)));
        lemma_predicates_are_unambiguous(s, c, c, at.0, at.0, at.1, first, second, ts, tie, id);
    }
}

/// A listing that is newest first shows a row before every row that was written
/// earlier, one that is oldest first before every row that was written later; rows
/// of one time come by their ids, in the same direction.
pub proof fn law_listing_order_goes_by_write_time(a: Position, b: Position)
    ensures
        a.0 < b.0 ==> comes_after(ListOrder::Asc, a, b) && comes_after(ListOrder::Desc, b, a),
        a.0 == b.0 && a.1 < b.1 ==> comes_after(ListOrder::Asc, a, b) && comes_after(
            ListOrder::Desc,
            b,
            a,
        ),
        comes_after(ListOrder::Asc, a, b) <==> comes_after(ListOrder::Desc, b, a),
{
}

/// A page holds at least one row and at most five hundred, and as many as were asked
/// for where that is in between.
pub proof fn law_page_sizes_are_bounded(limit: usize)
    ensures
        1 <= clamped(limit) <= 500,
        limit == 0 ==> clamped(limit) == 1,
        1 <= limit <= 500 ==> clamped(limit) == limit,
        limit > 500 ==> clamped(limit) == 500,
{
}

/// A page is the first rows of what was read, as many as it has room for. It names a
/// next page exactly where rows were left over, by the position of its last row.
pub proof fn law_pages_are_the_first_rows(rows: Seq<result::ListRowView>, limit: nat)
    requires
        limit > 0,
    ensures
        page_of(rows, limit).0.len() == (if rows.len() < limit {
            rows.len()
        } else {
            limit
        }),
        forall|i: int|
            0 <= i < page_of(rows, limit).0.len() ==> page_of(rows, limit).0[i] == rows[i],
        page_of(rows, limit).1 is Some <==> rows.len() > limit,
        page_of(rows, limit).1 matches Some(next) ==> is_cursor(next) && denotes(
            next,
            rows[limit - 1].3,
            rows[limit - 1].0,
        ),
{
    if rows.len() > limit {
        law_cursor_round_trip(rows[limit - 1].3, rows[limit - 1].0, 0, 0);
    }
}

} // verus!
