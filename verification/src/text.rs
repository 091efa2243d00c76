//! Text building blocks: decimal and hexadecimal digits, concatenation,
//! trimming, searching and number parsing, each over the characters of a
//! string.
use vstd::prelude::*;

verus! {

/// `String::push` appends the one character it is given.
pub assume_specification[ String::push ](s: &mut String, c: char)
    ensures
        final(s)@ == old(s)@.push(c),
;

/// Whether a character has the Unicode `White_Space` property.
pub open spec fn unicode_space(c: char) -> bool {
    ||| '\u{9}' <= c <= '\u{d}'
    ||| c == ' '
    ||| c == '\u{85}'
    ||| c == '\u{a0}'
    ||| c == '\u{1680}'
    ||| '\u{2000}' <= c <= '\u{200a}'
    ||| c == '\u{2028}'
    ||| c == '\u{2029}'
    ||| c == '\u{202f}'
    ||| c == '\u{205f}'
    ||| c == '\u{3000}'
}

/// `char::is_whitespace` says whether a character has the `White_Space`
/// property.
pub assume_specification[ char::is_whitespace ](c: char) -> (r: bool)
    ensures
        r == unicode_space(c),
;

/// What the `{:?}` formatter of a string writes: the quoted, escaped text.
pub uninterp spec fn debug_text(s: Seq<char>) -> Seq<char>;

/// Formats a string with `{:?}`; the result depends on the characters of the
/// string alone. How each character is escaped is not stated.
#[verifier::external_body]
pub(crate) fn quoted(s: &str) -> (r: String)
    ensures
        r@ == debug_text(s@),
{
    format!("{:?}", s)
}

// ---------------------------------------------------------------- digits
/// The decimal digit `d`.
pub open spec fn digit_char(d: nat) -> char {
    ('0' as u8 + d) as u8 as char
}

/// The decimal numeral of `n`, without leading zeros.
pub open spec fn dec(n: nat) -> Seq<char>
    decreases n,
{
    if n < 10 {
        seq![digit_char(n)]
    } else {
        dec(n / 10).push(digit_char(n % 10))
    }
}

/// The decimal numeral of an integer, with a leading minus where negative.
pub open spec fn dec_int(n: int) -> Seq<char> {
    if n < 0 {
        seq!['-'] + dec((-n) as nat)
    } else {
        dec(n as nat)
    }
}

/// The lower-case hexadecimal digit `d`.
pub open spec fn hex_char(d: nat) -> char {
    if d < 10 {
        ('0' as u8 + d) as u8 as char
    } else {
        ('a' as u8 + (d - 10)) as u8 as char
    }
}

/// The low `width` hexadecimal digits of `n`, most significant first.
pub open spec fn hex_digits(n: nat, width: nat) -> Seq<char>
    decreases width,
{
    if width == 0 {
        Seq::empty()
    } else {
        hex_digits(n / 16, (width - 1) as nat).push(hex_char(n % 16))
    }
}

/// Whether `c` is an ASCII hexadecimal digit of either case.
pub open spec fn is_hex(c: char) -> bool {
    '0' <= c <= '9' || 'a' <= c <= 'f' || 'A' <= c <= 'F'
}

/// The value of one hexadecimal digit.
pub open spec fn hex_digit_value(c: char) -> nat {
    if '0' <= c <= '9' {
        (c as u32 - '0' as u32) as nat
    } else if 'a' <= c <= 'f' {
        (c as u32 - 'a' as u32 + 10) as nat
    } else {
        (c as u32 - 'A' as u32 + 10) as nat
    }
}

/// The number that a run of hexadecimal digits writes.
pub open spec fn hex_value(s: Seq<char>) -> nat
    decreases s.len(),
{
    if s.len() == 0 {
        0
    } else {
        hex_value(s.drop_last()) * 16 + hex_digit_value(s.last())
    }
}

/// The decimal digit `d` as a character.
pub fn digit(d: u8) -> (c: char)
    requires
        d < 10,
    ensures
        c == digit_char(d as nat),
{
    (48u8 + d) as char
}

/// The decimal numeral of `n`.
pub fn dec_text(n: u64) -> (r: String)
    ensures
        r@ == dec(n as nat),
    decreases n,
{
    if n < 10 {
        let mut s = String::new();
        s.push(digit(n as u8));
        assert(s@ =~= seq![digit_char(n as nat)]);
        s
    } else {
        let mut s = dec_text(n / 10);
        s.push(digit((n % 10) as u8));
        s
    }
}

/// The decimal numeral of a signed `n`.
pub fn dec_text_i64(n: i64) -> (r: String)
    ensures
        r@ == dec_int(n as int),
{
    if n < 0 {
        let magnitude: u64 = (-(n as i128)) as u64;
        let digits = dec_text(magnitude);
        let mut s = String::new();
        s.push('-');
        s.append(digits.as_str());
        assert(s@ =~= seq!['-'] + dec((-n) as nat));
        s
    } else {
        dec_text(n as u64)
    }
}

/// One lower-case hexadecimal digit.
pub fn hex_digit(d: u8) -> (c: char)
    requires
        d < 16,
    ensures
        c == hex_char(d as nat),
{
    if d < 10 {
        (48u8 + d) as char
    } else {
        (97u8 + (d - 10)) as char
    }
}

/// The low `width` hexadecimal digits of `n`.
pub fn hex_text(n: u64, width: u32) -> (r: String)
    ensures
        r@ == hex_digits(n as nat, width as nat),
    decreases width,
{
    if width == 0 {
        String::new()
    } else {
        let mut s = hex_text(n / 16, width - 1);
        s.push(hex_digit((n % 16) as u8));
        s
    }
}

/// The characters of a string, in order.
pub fn chars_of(s: &str) -> (r: Vec<char>)
    ensures
        r@ == s@,
{
    let mut r: Vec<char> = Vec::new();
    for c in it: s.chars()
        invariant
            it.seq() == s@,
            r@ == it.seq().take(it.index() as int),
    {
        r.push(c);
    }
    assert(s@.take(s@.len() as int) =~= s@);
    r
}

/// The string made of `chars[from..to]`.
pub fn string_of(chars: &Vec<char>, from: usize, to: usize) -> (r: String)
    requires
        from <= to <= chars@.len(),
    ensures
        r@ == chars@.subrange(from as int, to as int),
{
    let mut r = String::new();
    let mut i: usize = from;
    while i < to
        invariant
            from <= i <= to <= chars@.len(),
            r@ == chars@.subrange(from as int, i as int),
        decreases to - i,
    {
        r.push(chars[i]);
        i = i + 1;
    }
    r
}

/// The characters of an optional string.
pub open spec fn text_opt(o: Option<String>) -> Option<Seq<char>> {
    match o {
        Some(s) => Some(s@),
        None => None,
    }
}

/// A copy of an optional string.
pub fn copy_opt(o: &Option<String>) -> (r: Option<String>)
    ensures
        text_opt(r) == text_opt(*o),
{
    match o {
        Some(s) => Some(s.clone()),
        None => None,
    }
}

// --------------------------------------------------------- concatenation
/// `a` followed by `b`.
pub fn cat2(a: &str, b: &str) -> (r: String)
    ensures
        r@ == a@ + b@,
{
    let mut r = a.to_string();
    r.append(b);
    r
}

/// `a`, `b` and `c` in a row.
pub fn cat3(a: &str, b: &str, c: &str) -> (r: String)
    ensures
        r@ == a@ + b@ + c@,
{
    let mut r = cat2(a, b);
    r.append(c);
    r
}

/// Four pieces in a row.
pub fn cat4(a: &str, b: &str, c: &str, d: &str) -> (r: String)
    ensures
        r@ == a@ + b@ + c@ + d@,
{
    let mut r = cat3(a, b, c);
    r.append(d);
    r
}

/// Five pieces in a row.
pub fn cat5(a: &str, b: &str, c: &str, d: &str, e: &str) -> (r: String)
    ensures
        r@ == a@ + b@ + c@ + d@ + e@,
{
    let mut r = cat4(a, b, c, d);
    r.append(e);
    r
}

/// Seven pieces in a row.
pub fn cat7(a: &str, b: &str, c: &str, d: &str, e: &str, f: &str, g: &str) -> (r: String)
    ensures
        r@ == a@ + b@ + c@ + d@ + e@ + f@ + g@,
{
    let mut r = cat5(a, b, c, d, e);
    r.append(f);
    r.append(g);
    r
}

/// Eight pieces in a row.
pub fn cat8(
    a: &str,
    b: &str,
    c: &str,
    d: &str,
    e: &str,
    f: &str,
    g: &str,
    h: &str,
) -> (r: String)
    ensures
        r@ == a@ + b@ + c@ + d@ + e@ + f@ + g@ + h@,
{
    let mut r = cat7(a, b, c, d, e, f, g);
    r.append(h);
    r
}

/// Nine pieces in a row.
pub fn cat9(
    a: &str,
    b: &str,
    c: &str,
    d: &str,
    e: &str,
    f: &str,
    g: &str,
    h: &str,
    i: &str,
) -> (r: String)
    ensures
        r@ == a@ + b@ + c@ + d@ + e@ + f@ + g@ + h@ + i@,
{
    let mut r = cat8(a, b, c, d, e, f, g, h);
    r.append(i);
    r
}

// ------------------------------------------------------------- searching
/// Whether the two strings hold the same characters.
pub fn same(a: &str, b: &str) -> (r: bool)
    ensures
        r == (a@ == b@),
{
    let x = chars_of(a);
    let y = chars_of(b);
    if x.len() != y.len() {
        return false;
    }
    let r = stands_at(&x, &y, 0);
    assert(x@.subrange(0, y@.len() as int) =~= x@);
    r
}

/// Whether `needle` occurs in `s` at position `i`.
pub open spec fn occurs_at(s: Seq<char>, needle: Seq<char>, i: int) -> bool {
    0 <= i && i + needle.len() <= s.len() && s.subrange(i, i + needle.len()) == needle
}

/// Whether `needle` occurs in `s`.
pub open spec fn occurs(s: Seq<char>, needle: Seq<char>) -> bool {
    exists|i: int| occurs_at(s, needle, i)
}

/// Whether `needle` stands at position `i` of `s`.
fn stands_at(s: &Vec<char>, needle: &Vec<char>, i: usize) -> (r: bool)
    requires
        i + needle@.len() <= s@.len(),
    ensures
        r == occurs_at(s@, needle@, i as int),
{
    let mut j: usize = 0;
    while j < needle.len()
        invariant
            j <= needle.len(),
            i + needle.len() <= s.len(),
            forall|k: int| 0 <= k < j ==> s@[i + k] == needle@[k],
        decreases needle@.len() - j,
    {
        if s[i + j] != needle[j] {
            assert(s@.subrange(i as int, i + needle@.len())[j as int] != needle@[j as int]);
            return false;
        }
        j = j + 1;
    }
    assert(s@.subrange(i as int, i + needle@.len()) =~= needle@);
    true
}

/// Whether `needle` occurs in `s`.
pub fn contains(s: &Vec<char>, needle: &str) -> (r: bool)
    ensures
        r == occurs(s@, needle@),
{
    let pat = chars_of(needle);
    if pat.len() > s.len() {
        return false;
    }
    let last: usize = s.len() - pat.len();
    let mut i: usize = 0;
    while i <= last
        invariant
            pat@ == needle@,
            last == s@.len() - pat@.len(),
            i <= last + 1,
            last < usize::MAX || i <= last,
            forall|k: int| 0 <= k < i ==> !occurs_at(s@, needle@, k),
        decreases last + 1 - i,
    {
        if stands_at(s, &pat, i) {
            return true;
        }
        if i == last {
            return false;
        }
        i = i + 1;
    }
    false
}

/// Whether `s` begins with `prefix`.
pub fn begins_with(s: &str, prefix: &str) -> (r: bool)
    ensures
        r == prefix@.is_prefix_of(s@),
{
    let a = chars_of(s);
    let b = chars_of(prefix);
    if b.len() > a.len() {
        return false;
    }
    let r = stands_at(&a, &b, 0);
    assert(a@.subrange(0, b@.len() as int) == b@ <==> prefix@.is_prefix_of(s@));
    r
}

/// The part of `s` before the first `stop`, or all of `s` where there is none.
pub open spec fn before(s: Seq<char>, stop: char) -> Seq<char>
    decreases s.len(),
{
    if s.len() == 0 || s[0] == stop {
        Seq::empty()
    } else {
        seq![s[0]] + before(s.drop_first(), stop)
    }
}

/// `before` is the longest prefix that holds no `stop`.
proof fn lemma_before(s: Seq<char>, stop: char, n: int)
    requires
        0 <= n <= s.len(),
        forall|k: int| 0 <= k < n ==> s[k] != stop,
        n == s.len() || s[n] == stop,
    ensures
        before(s, stop) == s.take(n),
    decreases s.len(),
{
    if s.len() == 0 || s[0] == stop {
        assert(n == 0);
        assert(s.take(n) =~= Seq::<char>::empty());
    } else {
        lemma_before(s.drop_first(), stop, n - 1);
        assert(s.take(n) =~= seq![s[0]] + s.drop_first().take(n - 1));
    }
}

/// The part of `s` before the first `stop`.
pub fn cut_before(s: &str, stop: char) -> (r: String)
    ensures
        r@ == before(s@, stop),
{
    let chars = chars_of(s);
    let mut n: usize = 0;
    while n < chars.len() && chars[n] != stop
        invariant
            n <= chars@.len(),
            forall|k: int| 0 <= k < n ==> chars@[k] != stop,
        decreases chars@.len() - n,
    {
        n = n + 1;
    }
    proof {
        lemma_before(s@, stop, n as int);
        assert(chars@.subrange(0, n as int) =~= s@.take(n as int));
    }
    string_of(&chars, 0, n)
}

// -------------------------------------------------------------- trimming
/// `s` without its leading whitespace.
pub open spec fn trim_start(s: Seq<char>) -> Seq<char>
    decreases s.len(),
{
    if s.len() > 0 && unicode_space(s[0]) {
        trim_start(s.drop_first())
    } else {
        s
    }
}

/// `s` without its trailing whitespace.
pub open spec fn trim_end(s: Seq<char>) -> Seq<char>
    decreases s.len(),
{
    if s.len() > 0 && unicode_space(s.last()) {
        trim_end(s.drop_last())
    } else {
        s
    }
}

/// `s` without leading and trailing whitespace.
pub open spec fn trimmed(s: Seq<char>) -> Seq<char> {
    trim_end(trim_start(s))
}

proof fn lemma_trim_start(s: Seq<char>, n: int)
    requires
        0 <= n <= s.len(),
        forall|k: int| 0 <= k < n ==> unicode_space(s[k]),
        n == s.len() || !unicode_space(s[n]),
    ensures
        trim_start(s) == s.skip(n),
    decreases s.len(),
{
    if s.len() > 0 && unicode_space(s[0]) {
        lemma_trim_start(s.drop_first(), n - 1);
        assert(s.drop_first().skip(n - 1) =~= s.skip(n));
    } else {
        assert(n == 0);
        assert(s.skip(0) =~= s);
    }
}

proof fn lemma_trim_end(s: Seq<char>, n: int)
    requires
        0 <= n <= s.len(),
        forall|k: int| n <= k < s.len() ==> unicode_space(s[k]),
        n == 0 || !unicode_space(s[n - 1]),
    ensures
        trim_end(s) == s.take(n),
    decreases s.len(),
{
    if s.len() > 0 && unicode_space(s.last()) {
        lemma_trim_end(s.drop_last(), n);
        assert(s.drop_last().take(n) =~= s.take(n));
    } else {
        assert(n == s.len());
        assert(s.take(n) =~= s);
    }
}

/// The string without leading and trailing whitespace.
pub fn trim(s: &str) -> (r: String)
    ensures
        r@ == trimmed(s@),
{
    let chars = chars_of(s);
    let mut from: usize = 0;
    while from < chars.len() && chars[from].is_whitespace()
        invariant
            from <= chars@.len(),
            forall|k: int| 0 <= k < from ==> unicode_space(chars@[k]),
        decreases chars@.len() - from,
    {
        from = from + 1;
    }
    let mut to: usize = chars.len();
    while to > from && chars[to - 1].is_whitespace()
        invariant
            from <= to <= chars@.len(),
            forall|k: int| to <= k < chars@.len() ==> unicode_space(chars@[k]),
        decreases to,
    {
        to = to - 1;
    }
    proof {
        lemma_trim_start(s@, from as int);
        let rest = s@.skip(from as int);
        lemma_trim_end(rest, to - from);
        assert(rest.take(to - from) =~= chars@.subrange(from as int, to as int));
    }
    string_of(&chars, from, to)
}

// ------------------------------------------------------------- splitting
/// Texts by their characters.
pub open spec fn texts(v: Seq<String>) -> Seq<Seq<char>> {
    v.map_values(|t: String| t@)
}

/// The pieces of `s` between the `stop`s, one more than there are `stop`s.
pub open spec fn pieces(s: Seq<char>, stop: char) -> Seq<Seq<char>>
    decreases s.len(),
{
    let head = before(s, stop);
    if s.len() <= head.len() {
        seq![s]
    } else {
        seq![head] + pieces(s.skip(head.len() as int + 1), stop)
    }
}

/// The pieces of `s` between the `stop`s.
pub fn split(s: &str, stop: char) -> (r: Vec<String>)
    ensures
        texts(r@) == pieces(s@, stop),
{
    let chars = chars_of(s);
    let mut r: Vec<String> = Vec::new();
    let mut from: usize = 0;
    let mut n: usize = 0;
    let ghost all = pieces(s@, stop);
    assert(s@.skip(0) =~= s@);
    assert(texts(r@) + all =~= all);
    while n < chars.len()
        invariant
            chars@ == s@,
            from <= n <= chars@.len(),
            all == pieces(s@, stop),
            forall|k: int| from <= k < n ==> chars@[k] != stop,
            texts(r@) + pieces(s@.skip(from as int), stop) == all,
        decreases chars@.len() - n,
    {
        if chars[n] == stop {
            let ghost rest = s@.skip(from as int);
            let ghost done = texts(r@);
            proof {
                lemma_before(rest, stop, n - from);
                assert(rest.take(n - from) =~= chars@.subrange(from as int, n as int));
                assert(rest.skip(n - from + 1) =~= s@.skip(n + 1));
            }
            r.push(string_of(&chars, from, n));
            from = n + 1;
            proof {
                let piece = before(rest, stop);
                assert(texts(r@) =~= done.push(piece));
                assert(done.push(piece) + pieces(s@.skip(from as int), stop) =~= done + (seq![piece]
                    + pieces(s@.skip(from as int), stop)));
            }
        }
        n = n + 1;
    }
    let ghost rest = s@.skip(from as int);
    let ghost done = texts(r@);
    proof {
        lemma_before(rest, stop, rest.len() as int);
        assert(rest.take(rest.len() as int) =~= rest);
        assert(rest =~= chars@.subrange(from as int, n as int));
    }
    r.push(string_of(&chars, from, n));
    assert(texts(r@) =~= done + seq![rest]);
    r
}

/// `s` without one carriage return at its end.
pub open spec fn no_return(s: Seq<char>) -> Seq<char> {
    if s.len() > 0 && s.last() == '\r' {
        s.drop_last()
    } else {
        s
    }
}

/// The lines of a text: what stands between the line feeds, each without the
/// carriage return before its line feed. A line feed at the end ends the last
/// line.
pub open spec fn lines_of(s: Seq<char>) -> Seq<Seq<char>> {
    let all = pieces(s, '\n');
    let open = all.drop_last().map_values(|l: Seq<char>| no_return(l));
    if all.last().len() == 0 {
        open
    } else {
        open.push(all.last())
    }
}

proof fn lemma_pieces_exist(s: Seq<char>, stop: char)
    ensures
        pieces(s, stop).len() > 0,
    decreases s.len(),
{
}

/// The lines of a text.
pub fn lines(s: &str) -> (r: Vec<String>)
    ensures
        texts(r@) == lines_of(s@),
{
    let all = split(s, '\n');
    let ghost raw = pieces(s@, '\n');
    proof {
        lemma_pieces_exist(s@, '\n');
    }
    assert(all@.len() == raw.len()) by {
        assert(texts(all@).len() == raw.len());
    }
    let mut r: Vec<String> = Vec::new();
    let mut i: usize = 0;
    while i < all.len() - 1
        invariant
            i < all@.len(),
            all@.len() == raw.len(),
            texts(all@) == raw,
            texts(r@) == raw.take(i as int).map_values(|l: Seq<char>| no_return(l)),
        decreases all@.len() - i,
    {
        let chars = chars_of(all[i].as_str());
        assert(chars@ == raw[i as int]) by {
            assert(texts(all@)[i as int] == raw[i as int]);
        }
        let to: usize = if chars.len() > 0 && chars[chars.len() - 1] == '\r' {
            chars.len() - 1
        } else {
            chars.len()
        };
        let ghost done = texts(r@);
        let line = string_of(&chars, 0, to);
        assert(line@ =~= no_return(raw[i as int]));
        r.push(line);
        proof {
            assert(texts(r@) =~= done.push(no_return(raw[i as int])));
            assert(raw.take(i + 1).map_values(|l: Seq<char>| no_return(l)) =~= raw.take(
                i as int,
            ).map_values(|l: Seq<char>| no_return(l)).push(no_return(raw[i as int])));
        }
        i = i + 1;
    }
    assert(raw.take(i as int) =~= raw.drop_last());
    assert(all@[i as int]@ == raw.last()) by {
        assert(texts(all@)[i as int] == raw[i as int]);
    }
    let chars = chars_of(all[i].as_str());
    if chars.len() > 0 {
        let ghost done = texts(r@);
        r.push(string_of(&chars, 0, chars.len()));
        assert(chars@.subrange(0, chars@.len() as int) =~= chars@);
        assert(texts(r@) =~= done.push(raw.last()));
    }
    r
}

/// What stands behind the last whitespace of a text, if it holds any.
pub open spec fn after_space(s: Seq<char>) -> Option<Seq<char>>
    decreases s.len(),
{
    if s.len() == 0 {
        None
    } else if unicode_space(s.last()) {
        Some(Seq::empty())
    } else {
        match after_space(s.drop_last()) {
            Some(t) => Some(t.push(s.last())),
            None => None,
        }
    }
}

proof fn lemma_after_space(s: Seq<char>, n: int)
    requires
        0 <= n <= s.len(),
        forall|k: int| n <= k < s.len() ==> !unicode_space(s[k]),
        n == 0 || unicode_space(s[n - 1]),
    ensures
        after_space(s) == (if n == 0 {
            None
        } else {
            Some(s.skip(n))
        }),
    decreases s.len(),
{
    if s.len() > 0 {
        if unicode_space(s.last()) {
            assert(n == s.len());
            assert(s.skip(n) =~= Seq::empty());
        } else {
            lemma_after_space(s.drop_last(), n);
            assert(s.drop_last().skip(n).push(s.last()) =~= s.skip(n));
        }
    }
}

/// What stands behind the last whitespace of a text, if it holds any.
pub fn last_word(s: &str) -> (r: Option<String>)
    ensures
        text_opt(r) == after_space(s@),
{
    let chars = chars_of(s);
    let mut n: usize = chars.len();
    while n > 0 && !chars[n - 1].is_whitespace()
        invariant
            n <= chars@.len(),
            forall|k: int| n <= k < chars@.len() ==> !unicode_space(chars@[k]),
        decreases n,
    {
        n = n - 1;
    }
    proof {
        lemma_after_space(s@, n as int);
    }
    if n == 0 {
        return None;
    }
    let r = string_of(&chars, n, chars.len());
    assert(r@ =~= s@.skip(n as int));
    Some(r)
}

// ------------------------------------------------------------ lower case
/// The ASCII lower-case form of one character.
pub open spec fn lower_char(c: char) -> char {
    if 'A' <= c <= 'Z' {
        (c as u8 + 32) as u8 as char
    } else {
        c
    }
}

/// `s` with its ASCII letters in lower case.
pub open spec fn lowered(s: Seq<char>) -> Seq<char> {
    s.map_values(|c: char| lower_char(c))
}

/// The characters of `s` with ASCII letters in lower case.
pub fn lower_chars(s: &str) -> (r: Vec<char>)
    ensures
        r@ == lowered(s@),
{
    let chars = chars_of(s);
    let mut out: Vec<char> = Vec::new();
    let mut i: usize = 0;
    while i < chars.len()
        invariant
            i <= chars@.len(),
            out@.len() == i,
            forall|k: int| 0 <= k < i ==> out@[k] == lower_char(chars@[k]),
        decreases chars@.len() - i,
    {
        let c = chars[i];
        if 'A' <= c && c <= 'Z' {
            out.push((c as u8 + 32u8) as char);
        } else {
            out.push(c);
        }
        i = i + 1;
    }
    assert(out@ =~= lowered(s@));
    out
}

/// `s` with its ASCII letters in lower case.
pub fn lower(s: &str) -> (r: String)
    ensures
        r@ == lowered(s@),
{
    let chars = lower_chars(s);
    let r = string_of(&chars, 0, chars.len());
    assert(r@ =~= chars@);
    r
}

// --------------------------------------------------------------- numbers
/// Whether `c` is an ASCII decimal digit.
pub open spec fn is_digit(c: char) -> bool {
    '0' <= c <= '9'
}

/// The number that a run of decimal digits writes.
pub open spec fn dec_value(s: Seq<char>) -> nat
    decreases s.len(),
{
    if s.len() == 0 {
        0
    } else {
        dec_value(s.drop_last()) * 10 + (s.last() as u32 - '0' as u32) as nat
    }
}

/// The digits of an unsigned numeral: what follows one optional plus sign.
pub open spec fn unsigned_digits(s: Seq<char>) -> Seq<char> {
    if s.len() > 0 && s[0] == '+' {
        s.drop_first()
    } else {
        s
    }
}

/// The unsigned number no greater than `max` that `s` writes in decimal, if it
/// writes one: at least one digit, nothing but digits, an optional plus in
/// front.
pub open spec fn parsed(s: Seq<char>, max: nat) -> Option<nat> {
    let digits = unsigned_digits(s);
    if digits.len() > 0 && (forall|i: int| 0 <= i < digits.len() ==> is_digit(#[trigger] digits[i]))
        && dec_value(digits) <= max {
        Some(dec_value(digits))
    } else {
        None
    }
}

proof fn lemma_dec_value_prefix(s: Seq<char>, n: int)
    requires
        0 <= n <= s.len(),
        forall|i: int| 0 <= i < s.len() ==> is_digit(#[trigger] s[i]),
    ensures
        dec_value(s.take(n)) <= dec_value(s),
    decreases s.len(),
{
    if n < s.len() {
        lemma_dec_value_prefix(s.drop_last(), n);
        assert(s.drop_last().take(n) =~= s.take(n));
    } else {
        assert(s.take(n) =~= s);
    }
}

/// Parses an unsigned decimal number no greater than `max`.
pub fn parse_unsigned(s: &str, max: u64) -> (r: Option<u64>)
    ensures
        match r {
            Some(n) => parsed(s@, max as nat) == Some(n as nat),
            None => parsed(s@, max as nat) is None,
        },
{
    let chars = chars_of(s);
    let start: usize = if chars.len() > 0 && chars[0] == '+' {
        1
    } else {
        0
    };
    let ghost digits = unsigned_digits(s@);
    assert(digits =~= chars@.subrange(start as int, chars@.len() as int));
    if start == chars.len() {
        return None;
    }
    let mut value: u64 = 0;
    let mut i: usize = start;
    while i < chars.len()
        invariant
            start <= i <= chars@.len(),
            chars@ == s@,
            digits == unsigned_digits(s@),
            digits == chars@.subrange(start as int, chars@.len() as int),
            digits.len() > 0,
            value <= max,
            value == dec_value(digits.take(i - start)),
            forall|k: int| 0 <= k < i - start ==> is_digit(#[trigger] digits[k]),
        decreases chars@.len() - i,
    {
        let c = chars[i];
        assert(digits[i - start] == c);
        if !('0' <= c && c <= '9') {
            assert(!is_digit(digits[i - start]));
            return None;
        }
        let d: u64 = (c as u32 - '0' as u32) as u64;
        proof {
            let next = digits.take(i - start + 1);
            assert(next.drop_last() =~= digits.take(i - start));
            assert(next.last() == c);
            assert(dec_value(next) == value * 10 + d);
        }
        if value > (u64::MAX - d) / 10 || value * 10 + d > max {
            proof {
                if forall|k: int| 0 <= k < digits.len() ==> is_digit(#[trigger] digits[k]) {
                    lemma_dec_value_prefix(digits, i - start + 1);
                }
            }
            return None;
        }
        value = value * 10 + d;
        i = i + 1;
    }
    assert(digits.take(digits.len() as int) =~= digits);
    Some(value)
}

/// Whether a numeral is refused for a character that is no digit: it has no
/// digits at all, or such a character comes before the value passes `max`.
pub open spec fn off_digit(digits: Seq<char>, max: nat) -> bool {
    digits.len() == 0 || exists|i: int|
        0 <= i < digits.len() && !is_digit(#[trigger] digits[i]) && (forall|j: int|
            0 <= j < i ==> is_digit(#[trigger] digits[j])) && dec_value(digits.take(i)) <= max
}

/// What is wrong with a text that is no unsigned number up to `max`.
pub open spec fn number_complaint(s: Seq<char>, max: nat) -> Seq<char> {
    if s.len() == 0 {
        "cannot parse integer from empty string"@
    } else if off_digit(unsigned_digits(s), max) {
        "invalid digit found in string"@
    } else {
        "number too large to fit in target type"@
    }
}

/// What is wrong with a text that is no unsigned number up to `max`.
pub fn number_fault(s: &str, max: u64) -> (r: String)
    ensures
        r@ == number_complaint(s@, max as nat),
{
    let chars = chars_of(s);
    if chars.len() == 0 {
        return "cannot parse integer from empty string".to_string();
    }
    let start: usize = if chars[0] == '+' {
        1
    } else {
        0
    };
    let ghost digits = unsigned_digits(s@);
    assert(digits =~= chars@.subrange(start as int, chars@.len() as int));
    if start == chars.len() {
        return "invalid digit found in string".to_string();
    }
    let mut value: u64 = 0;
    let mut i: usize = start;
    while i < chars.len()
        invariant
            start <= i <= chars@.len(),
            chars@ == s@,
            s@.len() > 0,
            digits == unsigned_digits(s@),
            digits == chars@.subrange(start as int, chars@.len() as int),
            digits.len() > 0,
            value <= max,
            value == dec_value(digits.take(i - start)),
            forall|k: int| 0 <= k < i - start ==> is_digit(#[trigger] digits[k]),
        decreases chars@.len() - i,
    {
        let c = chars[i];
        assert(digits[i - start] == c);
        if !('0' <= c && c <= '9') {
            assert(!is_digit(digits[i - start]));
            return "invalid digit found in string".to_string();
        }
        let d: u64 = (c as u32 - '0' as u32) as u64;
        proof {
            let next = digits.take(i - start + 1);
            assert(next.drop_last() =~= digits.take(i - start));
            assert(next.last() == c);
            assert(dec_value(next) == value * 10 + d);
        }
        if value > (u64::MAX - d) / 10 || value * 10 + d > max {
            proof {
                if off_digit(digits, max as nat) {
                    let n = choose|n: int|
                        0 <= n < digits.len() && !is_digit(#[trigger] digits[n]) && (forall|j: int|
                            0 <= j < n ==> is_digit(#[trigger] digits[j])) && dec_value(
                            digits.take(n),
                        ) <= max;
                    assert(n > i - start);
                    let front = digits.take(n);
                    assert forall|k: int| 0 <= k < front.len() implies is_digit(
                        #[trigger] front[k],
                    ) by {
                        assert(front[k] == digits[k]);
                    }
                    lemma_dec_value_prefix(front, i - start + 1);
                    assert(front.take(i - start + 1) =~= digits.take(i - start + 1));
                }
            }
            return "number too large to fit in target type".to_string();
        }
        value = value * 10 + d;
        i = i + 1;
    }
    proof {
        if off_digit(digits, max as nat) {
            let n = choose|n: int| 0 <= n < digits.len() && !is_digit(#[trigger] digits[n]);
            assert(is_digit(digits[n]));
        }
    }
    "number too large to fit in target type".to_string()
}

// ----------------------------------------------------------- hexadecimal
/// The number that `chars[from..to]` writes in hexadecimal.
pub fn parse_hex(chars: &Vec<char>, from: usize, to: usize) -> (r: u64)
    requires
        from <= to <= chars@.len(),
        to - from <= 16,
        forall|k: int| from <= k < to ==> is_hex(#[trigger] chars@[k]),
    ensures
        r == hex_value(chars@.subrange(from as int, to as int)),
{
    let mut value: u64 = 0;
    let mut i: usize = from;
    proof {
        lemma_hex_bound(chars@.subrange(from as int, from as int));
    }
    while i < to
        invariant
            from <= i <= to <= chars@.len(),
            to - from <= 16,
            forall|k: int| from <= k < to ==> is_hex(#[trigger] chars@[k]),
            value == hex_value(chars@.subrange(from as int, i as int)),
        decreases to - i,
    {
        let c = chars[i];
        let d: u64 = if '0' <= c && c <= '9' {
            (c as u32 - '0' as u32) as u64
        } else if 'a' <= c && c <= 'f' {
            (c as u32 - 'a' as u32 + 10) as u64
        } else {
            (c as u32 - 'A' as u32 + 10) as u64
        };
        proof {
            let next = chars@.subrange(from as int, i + 1);
            assert(next.drop_last() =~= chars@.subrange(from as int, i as int));
            assert forall|k: int| 0 <= k < next.len() implies is_hex(#[trigger] next[k]) by {
                assert(is_hex(chars@[from + k]));
            }
            lemma_hex_bound(next);
            lemma_pow16_bound(next.len());
        }
        value = value * 16 + d;
        i = i + 1;
    }
    value
}

/// `16` to the power of `n`.
pub open spec fn pow16(n: nat) -> nat
    decreases n,
{
    if n == 0 {
        1
    } else {
        16 * pow16((n - 1) as nat)
    }
}

proof fn lemma_pow16_bound(n: nat)
    requires
        n <= 16,
    ensures
        pow16(n) <= 0x1_0000_0000_0000_0000,
    decreases n,
{
    reveal_with_fuel(pow16, 18);
}

proof fn lemma_hex_bound(s: Seq<char>)
    requires
        forall|k: int| 0 <= k < s.len() ==> is_hex(#[trigger] s[k]),
    ensures
        hex_value(s) < pow16(s.len()),
    decreases s.len(),
{
    if s.len() > 0 {
        assert forall|k: int| 0 <= k < s.drop_last().len() implies is_hex(
            #[trigger] s.drop_last()[k],
        ) by {
            assert(is_hex(s[k]));
        }
        lemma_hex_bound(s.drop_last());
        assert(is_hex(s[s.len() - 1]));
    }
}

/// Writing the low `width` hexadecimal digits of `n` and reading them back
/// gives `n` again, as far as they hold it; they are `width` digits.
pub proof fn lemma_hex_round_trip(n: nat, width: nat)
    requires
        n < pow16(width),
    ensures
        hex_digits(n, width).len() == width,
        forall|k: int| 0 <= k < width ==> is_hex(#[trigger] hex_digits(n, width)[k]),
        hex_value(hex_digits(n, width)) == n,
    decreases width,
{
    if width > 0 {
        let front = hex_digits(n / 16, (width - 1) as nat);
        lemma_hex_round_trip(n / 16, (width - 1) as nat);
        let all = hex_digits(n, width);
        assert(all.drop_last() =~= front);
        assert(hex_digit_value(hex_char(n % 16)) == n % 16);
        assert(is_hex(hex_char(n % 16)));
        assert forall|k: int| 0 <= k < width implies is_hex(#[trigger] all[k]) by {
            if k < width - 1 {
                assert(all[k] == front[k]);
            }
        }
    }
}

// ------------------------------------------------------------------ laws
/// A numeral is made of digits, without zeros in front, and reads back as the
/// number that was written.
pub proof fn law_numerals_read_back(n: nat, max: nat)
    ensures
        dec(n).len() > 0,
        forall|i: int| 0 <= i < dec(n).len() ==> is_digit(#[trigger] dec(n)[i]),
        n > 0 ==> dec(n)[0] != '0',
        n == 0 ==> dec(n) == seq!['0'],
        dec_value(dec(n)) == n,
        n <= max ==> parsed(dec(n), max) == Some(n),
        n > max ==> parsed(dec(n), max) is None,
    decreases n,
{
    let d = digit_char(n % 10);
    assert(is_digit(d) && d as u32 - '0' as u32 == n % 10);
    if n < 10 {
        assert(dec(n).drop_last() =~= Seq::<char>::empty());
        assert(dec_value(Seq::<char>::empty()) == 0);
        assert(dec(n).last() == d);
    } else {
        let front = dec(n / 10);
        law_numerals_read_back(n / 10, max);
        assert(dec(n).drop_last() =~= front);
        assert(dec(n).last() == d);
        assert forall|i: int| 0 <= i < dec(n).len() implies is_digit(#[trigger] dec(n)[i]) by {
            if i < front.len() {
                assert(dec(n)[i] == front[i]);
            }
        }
        assert(dec(n)[0] == front[0]);
    }
    assert(is_digit(dec(n)[0]));
    assert(unsigned_digits(dec(n)) == dec(n));
}

/// Different numbers have different numerals, signed or not; a minus stands in
/// front of exactly the negative ones.
pub proof fn law_numerals_are_distinct(a: int, b: int)
    ensures
        dec_int(a) == dec_int(b) ==> a == b,
        a >= 0 && b >= 0 && dec(a as nat) == dec(b as nat) ==> a == b,
        dec_int(a).len() > 0 && (dec_int(a)[0] == '-' <==> a < 0),
        a >= 0 ==> dec_int(a) == dec(a as nat),
        forall|i: int| 0 <= i < dec_int(a).len() ==> is_digit(#[trigger] dec_int(a)[i]) || (i == 0
            && dec_int(a)[i] == '-'),
{
    let x = if a < 0 {
        -a
    } else {
        a
    };
    let y = if b < 0 {
        -b
    } else {
        b
    };
    law_numerals_read_back(x as nat, 0);
    law_numerals_read_back(y as nat, 0);
    assert(is_digit(dec(x as nat)[0]));
    assert(is_digit(dec(y as nat)[0]));
    if a < 0 {
        assert(dec_int(a).drop_first() =~= dec(x as nat));
        assert forall|i: int| 0 <= i < dec_int(a).len() implies is_digit(#[trigger] dec_int(a)[i])
            || (i == 0 && dec_int(a)[i] == '-') by {
            if i > 0 {
                assert(dec_int(a)[i] == dec(x as nat)[i - 1]);
            }
        }
    }
    if b < 0 {
        assert(dec_int(b).drop_first() =~= dec(y as nat));
    }
}

/// What an unsigned number is read from is digits alone, behind one plus sign at
/// most, and what is read is their value.
pub proof fn law_only_digits_are_numbers(s: Seq<char>, max: nat, i: int)
    ensures
        parsed(s, max) matches Some(n) ==> n <= max && s.len() > 0 && (0 <= i < s.len() ==> (
        '0' <= s[i] && s[i] <= '9') || (i == 0 && s[i] == '+' && s.len() > 1)),
        parsed(s, max) matches Some(n) ==> (s[0] != '+' ==> dec_value(s) == n) && (s[0] == '+'
            ==> dec_value(s.drop_first()) == n),
        s.len() == 0 ==> parsed(s, max) is None,
{
    if parsed(s, max) is Some {
        let digits = unsigned_digits(s);
        assert(is_digit(digits[0]));
        if s[0] == '+' {
            if 0 < i < s.len() {
                assert(digits[i - 1] == s[i]);
                assert(is_digit(digits[i - 1]));
            }
        } else if 0 <= i < s.len() {
            assert(is_digit(digits[i]));
        }
    }
}

/// What stands before a stop is what comes first, up to the first stop or to the
/// end, and holds none itself.
pub proof fn law_before_ends_at_the_first_stop(s: Seq<char>, stop: char)
    ensures
        before(s, stop).len() <= s.len(),
        before(s, stop) == s.take(before(s, stop).len() as int),
        forall|i: int| 0 <= i < before(s, stop).len() ==> #[trigger] before(s, stop)[i] != stop,
        before(s, stop).len() < s.len() ==> s[before(s, stop).len() as int] == stop,
    decreases s.len(),
{
    if s.len() > 0 && s[0] != stop {
        let rest = s.drop_first();
        law_before_ends_at_the_first_stop(rest, stop);
        let b = before(s, stop);
        assert(b.len() == before(rest, stop).len() + 1);
        assert(b =~= s.take(b.len() as int)) by {
            assert forall|i: int| 0 <= i < b.len() implies b[i] == s[i] by {
                if i > 0 {
                    assert(b[i] == before(rest, stop)[i - 1]);
                    assert(rest.take(before(rest, stop).len() as int)[i - 1] == rest[i - 1]);
                }
            }
        }
        assert forall|i: int| 0 <= i < b.len() implies #[trigger] b[i] != stop by {
            if i > 0 {
                assert(b[i] == before(rest, stop)[i - 1]);
            }
        }
    } else {
        assert(s.take(0) =~= Seq::<char>::empty());
    }
}

/// Pieces put together again, with a stop between each and the next.
pub open spec fn joined(parts: Seq<Seq<char>>, stop: char) -> Seq<char>
    decreases parts.len(),
{
    if parts.len() == 0 {
        Seq::empty()
    } else if parts.len() == 1 {
        parts[0]
    } else {
        parts[0] + seq![stop] + joined(parts.drop_first(), stop)
    }
}

/// The pieces of a text hold no stop, and put together they are the text.
pub proof fn law_pieces_make_up_the_text(s: Seq<char>, stop: char)
    ensures
        pieces(s, stop).len() > 0,
        joined(pieces(s, stop), stop) == s,
        forall|k: int, i: int|
            0 <= k < pieces(s, stop).len() && 0 <= i < pieces(s, stop)[k].len()
                ==> #[trigger] pieces(s, stop)[k][i] != stop,
    decreases s.len(),
{
    let head = before(s, stop);
    law_before_ends_at_the_first_stop(s, stop);
    if s.len() > head.len() {
        let rest = s.skip(head.len() as int + 1);
        law_pieces_make_up_the_text(rest, stop);
        let all = pieces(s, stop);
        assert(all.drop_first() =~= pieces(rest, stop));
        assert(head + seq![stop] + rest =~= s);
        assert forall|k: int, i: int|
            0 <= k < all.len() && 0 <= i < all[k].len() implies #[trigger] all[k][i] != stop by {
            if k > 0 {
                assert(all[k] == pieces(rest, stop)[k - 1]);
            } else {
                assert(all[0] == head);
            }
        }
    } else {
        assert(head =~= s);
        assert forall|k: int, i: int|
            0 <= k < pieces(s, stop).len() && 0 <= i < pieces(s, stop)[k].len()
                implies #[trigger] pieces(s, stop)[k][i] != stop by {
            assert(pieces(s, stop)[k] == head);
        }
    }
}

/// A trimmed text is the text without whitespace at either end: what was cut away
/// is whitespace alone, and what is left neither begins nor ends with any.
pub proof fn law_trimming_cuts_whitespace_alone(s: Seq<char>)
    ensures
        trimmed(s).len() > 0 ==> !unicode_space(trimmed(s)[0]) && !unicode_space(trimmed(s).last()),
        exists|from: int, to: int|
            #![trigger s.subrange(from, to)]
            0 <= from <= to <= s.len() && trimmed(s) == s.subrange(from, to) && (forall|i: int|
                0 <= i < from ==> unicode_space(#[trigger] s[i])) && (forall|i: int|
                to <= i < s.len() ==> unicode_space(#[trigger] s[i])),
{
    let from = lemma_leading(s);
    lemma_trim_start(s, from);
    let rest = s.skip(from);
    let n = lemma_trailing(rest);
    lemma_trim_end(rest, n);
    assert(rest.take(n) =~= s.subrange(from, from + n));
    assert forall|i: int| from + n <= i < s.len() implies unicode_space(#[trigger] s[i]) by {
        assert(rest[i - from] == s[i]);
    }
    if n > 0 {
        assert(rest.take(n)[0] == rest[0] && rest[0] == s[from]);
        assert(rest.take(n).last() == rest[n - 1]);
    }
}

proof fn lemma_leading(s: Seq<char>) -> (n: int)
    ensures
        0 <= n <= s.len(),
        forall|k: int| 0 <= k < n ==> unicode_space(s[k]),
        n == s.len() || !unicode_space(s[n]),
    decreases s.len(),
{
    if s.len() > 0 && unicode_space(s[0]) {
        let n = lemma_leading(s.drop_first());
        assert forall|k: int| 0 <= k < n + 1 implies unicode_space(s[k]) by {
            if k > 0 {
                assert(s.drop_first()[k - 1] == s[k]);
            }
        }
        n + 1
    } else {
        0
    }
}

proof fn lemma_trailing(s: Seq<char>) -> (n: int)
    ensures
        0 <= n <= s.len(),
        forall|k: int| n <= k < s.len() ==> unicode_space(s[k]),
        n == 0 || !unicode_space(s[n - 1]),
    decreases s.len(),
{
    if s.len() > 0 && unicode_space(s.last()) {
        let n = lemma_trailing(s.drop_last());
        assert forall|k: int| n <= k < s.len() implies unicode_space(s[k]) by {
            if k < s.len() - 1 {
                assert(s.drop_last()[k] == s[k]);
            }
        }
        n
    } else {
        s.len() as int
    }
}

/// Lower case moves the letters `A` to `Z` by thirty-two and leaves every other
/// character alone, so that lowering again changes nothing.
pub proof fn law_lower_case_moves_capitals_alone(s: Seq<char>, i: int)
    requires
        0 <= i < s.len(),
    ensures
        lowered(s).len() == s.len(),
        65 <= s[i] as u32 <= 90 ==> lowered(s)[i] as u32 == s[i] as u32 + 32,
        !(65 <= s[i] as u32 <= 90) ==> lowered(s)[i] == s[i],
        lowered(lowered(s)) == lowered(s),
{
    assert(lowered(lowered(s)) =~= lowered(s));
}

/// What stands behind the last whitespace of a text ends the text, follows
/// whitespace, and holds none; there is none exactly where the text has no
/// whitespace.
pub proof fn law_last_words_follow_whitespace(s: Seq<char>)
    ensures
        match after_space(s) {
            Some(word) => word.len() < s.len() && word == s.skip(s.len() - word.len())
                && unicode_space(s[s.len() - word.len() - 1]) && forall|i: int|
                0 <= i < word.len() ==> !unicode_space(#[trigger] word[i]),
            None => forall|i: int| 0 <= i < s.len() ==> !unicode_space(#[trigger] s[i]),
        },
    decreases s.len(),
{
    if s.len() > 0 && !unicode_space(s.last()) {
        let front = s.drop_last();
        law_last_words_follow_whitespace(front);
        match after_space(front) {
            Some(w) => {
                let word = w.push(s.last());
                assert(s.skip(s.len() - word.len()) =~= front.skip(front.len() - w.len()).push(
                    s.last(),
                ));
                assert(front[front.len() - w.len() - 1] == s[s.len() - word.len() - 1]);
                assert forall|i: int| 0 <= i < word.len() implies !unicode_space(
                    #[trigger] word[i],
                ) by {
                    if i < w.len() {
                        assert(word[i] == w[i]);
                    }
                }
            },
            None => {
                assert forall|i: int| 0 <= i < s.len() implies !unicode_space(
                    #[trigger] s[i],
                ) by {
                    if i < front.len() {
                        assert(front[i] == s[i]);
                    }
                }
            },
        }
    } else if s.len() > 0 {
        assert(s.skip(s.len() as int) =~= Seq::<char>::empty());
    }
}
/// What is put into a text is found in it.
pub proof fn lemma_occurs_inside(front: Seq<char>, word: Seq<char>, back: Seq<char>)
    ensures
        occurs(front + word + back, word),
        occurs(front + word, word),
{
    let s = front + word + back;
    assert(s.subrange(front.len() as int, (front.len() + word.len()) as int) =~= word);
    assert(occurs_at(s, word, front.len() as int));
    let t = front + word;
    assert(t.subrange(front.len() as int, (front.len() + word.len()) as int) =~= word);
    assert(occurs_at(t, word, front.len() as int));
}

/// What is found in a text is found in a longer one.
pub proof fn lemma_occurs_further(s: Seq<char>, back: Seq<char>, word: Seq<char>)
    requires
        occurs(s, word),
    ensures
        occurs(s + back, word),
        occurs(back + s, word),
{
    let i = choose|i: int| occurs_at(s, word, i);
    assert((s + back).subrange(i, i + word.len()) =~= word);
    assert(occurs_at(s + back, word, i));
    assert((back + s).subrange(back.len() + i, back.len() + i + word.len()) =~= word);
    assert(occurs_at(back + s, word, back.len() + i));
}
/// Pieces that hold no stop are read back from the text that they make up.
pub proof fn law_pieces_read_back(parts: Seq<Seq<char>>, stop: char)
    requires
        parts.len() > 0,
        forall|k: int, i: int|
            0 <= k < parts.len() && 0 <= i < parts[k].len() ==> #[trigger] parts[k][i] != stop,
    ensures
        pieces(joined(parts, stop), stop) == parts,
    decreases parts.len(),
{
    let s = joined(parts, stop);
    let head = parts[0];
    if parts.len() == 1 {
        lemma_before(s, stop, head.len() as int);
        assert(before(s, stop) =~= head);
        assert(pieces(s, stop) =~= parts);
    } else {
        let rest = parts.drop_first();
        assert forall|k: int, i: int|
            0 <= k < rest.len() && 0 <= i < rest[k].len() implies #[trigger] rest[k][i] != stop by {
            assert(rest[k] == parts[k + 1]);
            assert(parts[k + 1][i] != stop);
        }
        law_pieces_read_back(rest, stop);
        assert(s[head.len() as int] == stop);
        assert forall|i: int| 0 <= i < head.len() implies s[i] != stop by {
            assert(parts[0][i] != stop);
        }
        lemma_before(s, stop, head.len() as int);
        assert(before(s, stop) =~= head);
        assert(s.skip(head.len() as int + 1) =~= joined(rest, stop));
        assert(pieces(s, stop) =~= seq![head] + rest);
        assert(seq![head] + rest =~= parts);
    }
}

/// A text with no whitespace at its ends is not cut by trimming.
pub proof fn law_trimming_spares_the_rest(s: Seq<char>)
    ensures
        s.len() == 0 || (!unicode_space(s[0]) && !unicode_space(s.last())) <==> trimmed(s) == s,
        trimmed(trimmed(s)) == trimmed(s),
{
    law_trimming_cuts_whitespace_alone(s);
    law_trimming_cuts_whitespace_alone(trimmed(s));
    reveal_with_fuel(trim_start, 2);
    reveal_with_fuel(trim_end, 2);
}
/// Lines that each end in a line feed are read back, each without a carriage
/// return at its end; the last line needs no line feed.
pub proof fn law_lines_read_back(lines: Seq<Seq<char>>, last: Seq<char>)
    requires
        forall|k: int, i: int|
            0 <= k < lines.len() && 0 <= i < lines[k].len() ==> #[trigger] lines[k][i] != '\n',
        forall|i: int| 0 <= i < last.len() ==> #[trigger] last[i] != '\n',
    ensures
        ({
            let read = lines_of(joined(lines.push(last), '\n'));
            &&& read.len() == lines.len() + if last.len() == 0 {
                0nat
            } else {
                1nat
            }
            &&& last.len() > 0 ==> read.last() == last
            &&& forall|k: int|
                0 <= k < lines.len() ==> (#[trigger] read[k]) == (if lines[k].len() > 0
                    && lines[k].last() == '\r' {
                    lines[k].drop_last()
                } else {
                    lines[k]
                })
        }),
{
    let all = lines.push(last);
    assert forall|k: int, i: int|
        0 <= k < all.len() && 0 <= i < all[k].len() implies #[trigger] all[k][i] != '\n' by {
        if k < lines.len() {
            assert(lines[k][i] != '\n');
        } else {
            assert(last[i] != '\n');
        }
    }
    law_pieces_read_back(all, '\n');
    assert(all.drop_last() =~= lines);
}

/// A text of fixed words with figures between them: one figure behind each word,
/// and at the end a word more, if there is one.
pub open spec fn woven(words: Seq<Seq<char>>, figures: Seq<Seq<char>>) -> Seq<char>
    decreases words.len(),
{
    if words.len() == 0 {
        Seq::empty()
    } else if words.len() > figures.len() {
        woven(words.drop_last(), figures) + words.last()
    } else {
        woven(words.drop_last(), figures.drop_last()) + words.last() + figures.last()
    }
}

/// One more word, and the figure behind it.
pub proof fn lemma_woven(
    words: Seq<Seq<char>>,
    figures: Seq<Seq<char>>,
    word: Seq<char>,
    figure: Seq<char>,
)
    requires
        words.len() == figures.len(),
    ensures
        woven(words.push(word), figures.push(figure)) == woven(words, figures) + word + figure,
{
    assert(words.push(word).drop_last() =~= words);
    assert(figures.push(figure).drop_last() =~= figures);
}

/// One more word at the end.
pub proof fn lemma_woven_end(
    words: Seq<Seq<char>>,
    figures: Seq<Seq<char>>,
    word: Seq<char>,
)
    requires
        words.len() == figures.len(),
    ensures
        woven(words.push(word), figures) == woven(words, figures) + word,
{
    assert(words.push(word).drop_last() =~= words);
}
/// What is wrong with a numeral is told for what it is: nothing there, something that
/// is no digit, or a number beyond the largest.
pub proof fn law_complaints_say_what_is_wrong(s: Seq<char>, max: nat)
    ensures
        s.len() == 0 ==> number_complaint(s, max) == "cannot parse integer from empty string"@,
        s.len() > 0 && s[0] != '+' && !('0' <= s[0] <= '9') ==> number_complaint(s, max)
            == "invalid digit found in string"@,
        s.len() == 1 && s[0] == '+' ==> number_complaint(s, max)
            == "invalid digit found in string"@,
        s.len() > 0 && (forall|i: int| 0 <= i < s.len() ==> is_digit(#[trigger] s[i]))
            ==> number_complaint(s, max) == "number too large to fit in target type"@,
{
    let digits = unsigned_digits(s);
    if s.len() > 0 && s[0] != '+' && !('0' <= s[0] <= '9') {
        assert(digits == s);
        assert(!is_digit(digits[0]));
        assert(digits.take(0) =~= Seq::<char>::empty());
        assert(dec_value(digits.take(0)) == 0);
        assert(off_digit(digits, max));
    }
    if s.len() == 1 && s[0] == '+' {
        assert(digits.len() == 0);
    }
    if s.len() > 0 && (forall|i: int| 0 <= i < s.len() ==> is_digit(#[trigger] s[i])) {
        assert(is_digit(s[0]));
        assert(digits == s);
        assert(!off_digit(digits, max));
    }
}

} // verus!
