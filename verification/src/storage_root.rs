//! The place in object storage under which every namespace lives.
use vstd::prelude::*;
use crate::error::{ErrorView, FirnflowError};
use crate::namespace::NamespaceId;
use crate::text;

verus! {

/// Storage family of a root.
#[derive(Debug, Clone, Copy, PartialEq, Eq, Structural)]
pub enum Scheme {
    /// S3 and compatible stores.
    S3,
    /// Google Cloud Storage.
    Gcs,
    /// The local filesystem.
    Local,
}

/// A parsed storage root: scheme, bucket (a directory for local roots), and
/// an optional fixed prefix inside the bucket.
#[derive(Debug, PartialEq, Eq)]
pub struct StorageRoot {
    scheme: Scheme,
    bucket: String,
    prefix: Option<String>,
}

/// A storage root by its parts.
pub type RootView = (Scheme, Seq<char>, Option<Seq<char>>);

impl View for StorageRoot {
    type V = RootView;

    closed spec fn view(&self) -> RootView {
        (self.scheme, self.bucket@, text::text_opt(self.prefix))
    }
}

impl Clone for StorageRoot {
    fn clone(&self) -> (r: StorageRoot)
        ensures
            r@ == self@,
    {
        StorageRoot {
            scheme: self.scheme,
            bucket: self.bucket.clone(),
            prefix: text::copy_opt(&self.prefix),
        }
    }
}

/// What each scheme is written with.
pub open spec fn scheme_text(scheme: Scheme) -> Seq<char> {
    match scheme {
        Scheme::S3 => "s3://"@,
        Scheme::Gcs => "gs://"@,
        Scheme::Local => "file://"@,
    }
}

/// `s` without the slashes at its end.
pub open spec fn no_slash_end(s: Seq<char>) -> Seq<char>
    decreases s.len(),
{
    if s.len() > 0 && s.last() == '/' {
        no_slash_end(s.drop_last())
    } else {
        s
    }
}

/// `s` without the slashes at its start.
pub open spec fn no_slash_start(s: Seq<char>) -> Seq<char>
    decreases s.len(),
{
    if s.len() > 0 && s[0] == '/' {
        no_slash_start(s.drop_first())
    } else {
        s
    }
}

/// Bucket and prefix in what follows the scheme: the bucket ends at the first
/// slash, and slashes around the prefix do not count.
pub open spec fn split_bucket(rest: Seq<char>) -> (Seq<char>, Option<Seq<char>>) {
    let bucket = text::before(rest, '/');
    let prefix = no_slash_end(no_slash_start(rest.skip(bucket.len() as int)));
    (
        bucket,
        if prefix.len() == 0 {
            None
        } else {
            Some(prefix)
        },
    )
}

/// The root that a text names, if it names one.
pub open spec fn parse_root(uri: Seq<char>) -> Option<RootView> {
    if "s3://"@.is_prefix_of(uri) {
        let (bucket, prefix) = split_bucket(uri.skip("s3://"@.len() as int));
        if bucket.len() == 0 {
            None
        } else {
            Some((Scheme::S3, bucket, prefix))
        }
    } else if "gs://"@.is_prefix_of(uri) {
        let (bucket, prefix) = split_bucket(uri.skip("gs://"@.len() as int));
        if bucket.len() == 0 {
            None
        } else {
            Some((Scheme::Gcs, bucket, prefix))
        }
    } else if "file://"@.is_prefix_of(uri) {
        let dir = no_slash_end(uri.skip("file://"@.len() as int));
        if dir.len() == 0 {
            None
        } else {
            Some((Scheme::Local, dir, None))
        }
    } else {
        None
    }
}

proof fn lemma_no_slash_end(s: Seq<char>, n: int)
    requires
        0 <= n <= s.len(),
        forall|k: int| n <= k < s.len() ==> s[k] == '/',
        n == 0 || s[n - 1] != '/',
    ensures
        no_slash_end(s) == s.take(n),
    decreases s.len(),
{
    if s.len() > 0 && s.last() == '/' {
        lemma_no_slash_end(s.drop_last(), n);
        assert(s.drop_last().take(n) =~= s.take(n));
    } else {
        assert(n == s.len());
        assert(s.take(n) =~= s);
    }
}

proof fn lemma_no_slash_start(s: Seq<char>, n: int)
    requires
        0 <= n <= s.len(),
        forall|k: int| 0 <= k < n ==> s[k] == '/',
        n == s.len() || s[n] != '/',
    ensures
        no_slash_start(s) == s.skip(n),
    decreases s.len(),
{
    if s.len() > 0 && s[0] == '/' {
        lemma_no_slash_start(s.drop_first(), n - 1);
        assert(s.drop_first().skip(n - 1) =~= s.skip(n));
    } else {
        assert(n == 0);
        assert(s.skip(0) =~= s);
    }
}

/// The characters `chars[from..]` without slashes at the end, as a string.
fn cut_slash_end(chars: &Vec<char>, from: usize) -> (r: String)
    requires
        from <= chars@.len(),
    ensures
        r@ == no_slash_end(chars@.skip(from as int)),
{
    let mut to: usize = chars.len();
    while to > from && chars[to - 1] == '/'
        invariant
            from <= to <= chars@.len(),
            forall|k: int| to <= k < chars@.len() ==> chars@[k] == '/',
        decreases to,
    {
        to = to - 1;
    }
    proof {
        let rest = chars@.skip(from as int);
        lemma_no_slash_end(rest, to - from);
        assert(rest.take(to - from) =~= chars@.subrange(from as int, to as int));
    }
    text::string_of(chars, from, to)
}

/// The first position at or after `from` that holds no slash.
fn skip_slashes(chars: &Vec<char>, from: usize) -> (r: usize)
    requires
        from <= chars@.len(),
    ensures
        from <= r <= chars@.len(),
        no_slash_start(chars@.skip(from as int)) == chars@.skip(r as int),
{
    let mut i: usize = from;
    while i < chars.len() && chars[i] == '/'
        invariant
            from <= i <= chars@.len(),
            forall|k: int| from <= k < i ==> chars@[k] == '/',
        decreases chars@.len() - i,
    {
        i = i + 1;
    }
    proof {
        let rest = chars@.skip(from as int);
        lemma_no_slash_start(rest, i - from);
        assert(rest.skip(i - from) =~= chars@.skip(i as int));
    }
    i
}

/// Bucket and prefix of what follows a scheme.
fn bucket_and_prefix(chars: &Vec<char>, from: usize) -> (r: (String, Option<String>))
    requires
        from <= chars@.len(),
    ensures
        (r.0@, text::text_opt(r.1)) == split_bucket(chars@.skip(from as int)),
{
    let rest = text::string_of(chars, from, chars.len());
    assert(rest@ =~= chars@.skip(from as int));
    let bucket = text::cut_before(rest.as_str(), '/');
    let bucket_chars = text::chars_of(bucket.as_str());
    proof {
        lemma_before_len(rest@, '/');
    }
    let after: usize = from + bucket_chars.len();
    let start = skip_slashes(chars, after);
    let prefix = cut_slash_end(chars, start);
    proof {
        assert(chars@.skip(from as int).skip(bucket@.len() as int) =~= chars@.skip(after as int));
    }
    let prefix_chars = text::chars_of(prefix.as_str());
    if prefix_chars.len() == 0 {
        (bucket, None)
    } else {
        (bucket, Some(prefix))
    }
}

proof fn lemma_before_len(s: Seq<char>, stop: char)
    ensures
        text::before(s, stop).len() <= s.len(),
    decreases s.len(),
{
    if s.len() > 0 && s[0] != stop {
        lemma_before_len(s.drop_first(), stop);
    }
}

/// Whether a text is a bucket name: not empty, and without a slash.
pub open spec fn is_bucket(s: Seq<char>) -> bool {
    s.len() > 0 && forall|i: int| 0 <= i < s.len() ==> #[trigger] s[i] != '/'
}

/// A root as a URI, without a slash at the end.
pub open spec fn root_text(root: RootView) -> Seq<char> {
    let base = scheme_text(root.0) + root.1;
    match root.2 {
        Some(prefix) => base + "/"@ + prefix,
        None => base,
    }
}

/// The path of a namespace inside its bucket.
pub open spec fn object_path(root: RootView, ns: Seq<char>) -> Seq<char> {
    match root.2 {
        Some(prefix) => prefix + "/"@ + ns,
        None => ns,
    }
}

impl StorageRoot {
    /// Parses `s3://bucket`, `gs://bucket` (each with an optional prefix) or
    /// `file://directory`.
    pub fn parse(uri: &str) -> (r: Result<StorageRoot, FirnflowError>)
        ensures
            match r {
                Ok(root) => parse_root(uri@) == Some(root@),
                Err(e) => parse_root(uri@) is None && e@ == ErrorView::InvalidRequest(
                    "invalid storage URI "@ + text::debug_text(uri@),
                ),
            },
    {
        let chars = text::chars_of(uri);
        proof {
            reveal_strlit("s3://");
            reveal_strlit("gs://");
            reveal_strlit("file://");
            assert("s3://"@.len() == 5 && "gs://"@.len() == 5 && "file://"@.len() == 7);
        }
        if text::begins_with(uri, "s3://") {
            let (bucket, prefix) = bucket_and_prefix(&chars, 5);
            if text::chars_of(bucket.as_str()).len() > 0 {
                return Ok(StorageRoot { scheme: Scheme::S3, bucket, prefix });
            }
        } else if text::begins_with(uri, "gs://") {
            let (bucket, prefix) = bucket_and_prefix(&chars, 5);
            if text::chars_of(bucket.as_str()).len() > 0 {
                return Ok(StorageRoot { scheme: Scheme::Gcs, bucket, prefix });
            }
        } else if text::begins_with(uri, "file://") {
            let dir = cut_slash_end(&chars, 7);
            if text::chars_of(dir.as_str()).len() > 0 {
                return Ok(StorageRoot { scheme: Scheme::Local, bucket: dir, prefix: None });
            }
        }
        Err(
            FirnflowError::InvalidRequest(
                text::cat2("invalid storage URI ", text::quoted(uri).as_str()),
            ),
        )
    }

    /// The root of a bare S3 bucket.
    pub fn s3_bucket(bucket: &str) -> (r: Result<StorageRoot, FirnflowError>)
        ensures
            match r {
                Ok(root) => is_bucket(bucket@) && root@ == (
                    Scheme::S3,
                    bucket@,
                    None::<Seq<char>>,
                ),
                Err(e) => !is_bucket(bucket@) && e@ == ErrorView::InvalidRequest(
                    "invalid bucket name "@ + text::debug_text(bucket@),
                ),
            },
    {
        let chars = text::chars_of(bucket);
        let mut i: usize = 0;
        while i < chars.len() && chars[i] != '/'
            invariant
                i <= chars@.len(),
                forall|k: int| 0 <= k < i ==> #[trigger] chars@[k] != '/',
            decreases chars@.len() - i,
        {
            i = i + 1;
        }
        if chars.len() > 0 && i == chars.len() {
            Ok(StorageRoot { scheme: Scheme::S3, bucket: bucket.to_string(), prefix: None })
        } else {
            Err(
                FirnflowError::InvalidRequest(
                    text::cat2("invalid bucket name ", text::quoted(bucket).as_str()),
                ),
            )
        }
    }

    /// The scheme.
    pub fn scheme(&self) -> (r: Scheme)
        ensures
            r == self@.0,
    {
        self.scheme
    }

    /// The bucket, or the directory of a local root.
    pub fn bucket(&self) -> (r: &str)
        ensures
            r@ == self@.1,
    {
        self.bucket.as_str()
    }

    /// Whether two roots name the same place.
    pub fn same_place(&self, other: &StorageRoot) -> (r: bool)
        ensures
            r == (self@ == other@),
    {
        let same_prefix = match (&self.prefix, &other.prefix) {
            (Some(a), Some(b)) => text::same(a.as_str(), b.as_str()),
            (None, None) => true,
            _ => false,
        };
        self.scheme == other.scheme && same_prefix && text::same(
            self.bucket.as_str(),
            other.bucket.as_str(),
        )
    }

    /// The root as a URI.
    pub fn to_uri(&self) -> (r: String)
        ensures
            r@ == root_text(self@),
    {
        let scheme: &'static str = match self.scheme {
            Scheme::S3 => "s3://",
            Scheme::Gcs => "gs://",
            Scheme::Local => "file://",
        };
        match &self.prefix {
            Some(p) => text::cat4(scheme, self.bucket.as_str(), "/", p.as_str()),
            None => text::cat2(scheme, self.bucket.as_str()),
        }
    }

    /// The URI of a namespace's table directory.
    pub fn namespace_uri(&self, ns: &NamespaceId) -> (r: String)
        ensures
            r@ == root_text(self@) + "/"@ + ns@ + "/"@,
    {
        let root = self.to_uri();
        text::cat4(root.as_str(), "/", ns.as_str(), "/")
    }

    /// The path of a namespace inside the bucket.
    pub fn namespace_object_path(&self, ns: &NamespaceId) -> (r: String)
        ensures
            r@ == object_path(self@, ns@),
    {
        match &self.prefix {
            Some(p) => text::cat3(p.as_str(), "/", ns.as_str()),
            None => ns.as_str().to_string(),
        }
    }
}

// ------------------------------------------------------------------ laws
proof fn lemma_before_all(s: Seq<char>, stop: char)
    requires
        forall|i: int| 0 <= i < s.len() ==> #[trigger] s[i] != stop,
    ensures
        text::before(s, stop) == s,
    decreases s.len(),
{
    if s.len() > 0 {
        assert forall|i: int| 0 <= i < s.drop_first().len() implies #[trigger] s.drop_first()[i]
            != stop by {
            assert(s[i + 1] != stop);
        }
        lemma_before_all(s.drop_first(), stop);
        assert(s =~= seq![s[0]] + s.drop_first());
        assert(s[0] != stop);
    }
}

/// A bare bucket name and the S3 URI of that bucket name the same root.
pub proof fn law_bucket_and_uri_agree(bucket: Seq<char>)
    requires
        is_bucket(bucket),
    ensures
        parse_root("s3://"@ + bucket) == Some((Scheme::S3, bucket, None::<Seq<char>>)),
{
    let uri = "s3://"@ + bucket;
    assert("s3://"@.is_prefix_of(uri)) by {
        assert(uri.subrange(0, "s3://"@.len() as int) =~= "s3://"@);
    }
    let rest = uri.skip("s3://"@.len() as int);
    assert(rest =~= bucket);
    lemma_before_all(rest, '/');
    assert(rest.skip(bucket.len() as int) =~= Seq::<char>::empty());
}

/// Namespaces of one root never share a place: different names have different
/// paths, and none lies inside another.
pub proof fn law_namespaces_are_disjoint(root: RootView, a: Seq<char>, b: Seq<char>)
    requires
        crate::namespace::is_name(a),
        crate::namespace::is_name(b),
        a != b,
    ensures
        !(object_path(root, a) + "/"@).is_prefix_of(object_path(root, b) + "/"@),
{
    reveal_strlit("/");
    let base = match root.2 {
        Some(prefix) => prefix + "/"@,
        None => Seq::<char>::empty(),
    };
    let pa = object_path(root, a) + "/"@;
    let pb = object_path(root, b) + "/"@;
    assert(pa =~= base + a + "/"@);
    assert(pb =~= base + b + "/"@);
    if pa.is_prefix_of(pb) {
        assert forall|i: int| 0 <= i < pa.len() implies pa[i] == pb[i] by {
            assert(pb.subrange(0, pa.len() as int)[i] == pa[i]);
        }
        let slash = base.len() + a.len();
        assert(pa[slash as int] == '/');
        assert(pb[slash as int] == '/');
        if a.len() < b.len() {
            assert(pb[slash as int] == b[a.len() as int]);
            assert(crate::namespace::name_char(b[a.len() as int]));
        } else {
            assert(a.len() == b.len());
            assert forall|i: int| 0 <= i < a.len() implies a[i] == b[i] by {
                assert(pa[base.len() + i] == a[i]);
                assert(pb[base.len() + i] == b[i]);
            }
            assert(a =~= b);
        }
    }
}

/// Whether a root can be written down as a URI and found again: a bucket without
/// slashes and a prefix without slashes around it, or a directory without a slash at
/// its end.
pub open spec fn is_root(root: RootView) -> bool {
    match root.0 {
        Scheme::Local => root.1.len() > 0 && root.1.last() != '/' && root.2 is None,
        _ => is_bucket(root.1) && (root.2 matches Some(p) ==> p.len() > 0 && p[0] != '/' && p.last()
            != '/'),
    }
}

proof fn lemma_before_slash(bucket: Seq<char>, rest: Seq<char>)
    requires
        is_bucket(bucket),
        rest.len() == 0 || rest[0] == '/',
    ensures
        text::before(bucket + rest, '/') == bucket,
{
    text::law_before_ends_at_the_first_stop(bucket + rest, '/');
    let s = bucket + rest;
    let b = text::before(s, '/');
    if b.len() < bucket.len() {
        assert(s[b.len() as int] == bucket[b.len() as int]);
    }
    if b.len() > bucket.len() {
        assert(b[bucket.len() as int] == s.take(b.len() as int)[bucket.len() as int]);
        assert(s[bucket.len() as int] == rest[0]);
    }
    assert(s.take(b.len() as int) =~= bucket);
}

proof fn lemma_split_root(bucket: Seq<char>, prefix: Option<Seq<char>>)
    requires
        is_bucket(bucket),
        prefix matches Some(p) ==> p.len() > 0 && p[0] != '/' && p.last() != '/',
    ensures
        prefix is None ==> split_bucket(bucket) == (bucket, None::<Seq<char>>),
        prefix matches Some(p) ==> split_bucket(bucket + "/"@ + p) == (bucket, Some(p)),
{
    reveal_strlit("/");
    match prefix {
        None => {
            lemma_before_slash(bucket, Seq::empty());
            assert(bucket + Seq::empty() =~= bucket);
            assert(bucket.skip(bucket.len() as int) =~= Seq::<char>::empty());
        },
        Some(p) => {
            let rest = "/"@ + p;
            assert(bucket + "/"@ + p =~= bucket + rest);
            lemma_before_slash(bucket, rest);
            assert((bucket + rest).skip(bucket.len() as int) =~= rest);
            lemma_no_slash_start(rest, 1);
            assert(rest.skip(1) =~= p);
            lemma_no_slash_end(p, p.len() as int);
            assert(p.take(p.len() as int) =~= p);
        },
    }
}

/// A root reads back from its URI: scheme, bucket and prefix are what they were.
pub proof fn law_roots_read_back(root: RootView)
    requires
        is_root(root),
    ensures
        parse_root(root_text(root)) == Some(root),
{
    reveal_strlit("s3://");
    reveal_strlit("gs://");
    reveal_strlit("file://");
    reveal_strlit("/");
    let head = scheme_text(root.0);
    assert("s3://"@.len() == 5 && "gs://"@.len() == 5 && "file://"@.len() == 7);
    assert("s3://"@[0] == 's' && "gs://"@[0] == 'g' && "file://"@[0] == 'f');
    let rest = match root.2 {
        Some(p) => root.1 + "/"@ + p,
        None => root.1,
    };
    let uri = root_text(root);
    assert(uri =~= head + rest);
    assert(uri.skip(head.len() as int) =~= rest);
    assert(uri.subrange(0, head.len() as int) =~= head);
    assert(head.is_prefix_of(uri));
    assert(uri[0] == head[0]);
    if root.0 is Local {
        lemma_no_slash_end(rest, rest.len() as int);
        assert(rest.take(rest.len() as int) =~= rest);
        if "s3://"@.is_prefix_of(uri) {
            assert(uri.subrange(0, 5)[0] == 's');
        }
        if "gs://"@.is_prefix_of(uri) {
            assert(uri.subrange(0, 5)[0] == 'g');
        }
    } else {
        lemma_split_root(root.1, root.2);
        if root.0 is Gcs && "s3://"@.is_prefix_of(uri) {
            assert(uri.subrange(0, 5)[0] == 's');
        }
    }
}

/// The scheme of a root is what its URI begins with, and a URI that begins with none
/// of the three names no root.
pub proof fn law_schemes_are_what_uris_begin_with(uri: Seq<char>)
    ensures
        parse_root(uri) matches Some(root) ==> (root.0 is S3 ==> "s3://"@.is_prefix_of(uri)) && (
        root.0 is Gcs ==> "gs://"@.is_prefix_of(uri)) && (root.0 is Local
            ==> "file://"@.is_prefix_of(uri) && root.2 is None) && root.1.len() > 0,
        !"s3://"@.is_prefix_of(uri) && !"gs://"@.is_prefix_of(uri) && !"file://"@.is_prefix_of(uri)
            ==> parse_root(uri) is None,
        parse_root("s3://"@) is None,
        parse_root("gs://"@) is None,
        parse_root("file://"@) is None,
{
    reveal_strlit("s3://");
    reveal_strlit("gs://");
    reveal_strlit("file://");
    assert("s3://"@.len() == 5 && "gs://"@.len() == 5 && "file://"@.len() == 7);
    assert("s3://"@.skip(5) =~= Seq::<char>::empty());
    assert("gs://"@.skip(5) =~= Seq::<char>::empty());
    assert("file://"@.skip(7) =~= Seq::<char>::empty());
    assert("s3://"@[0] == 's' && "gs://"@[0] == 'g' && "file://"@[0] == 'f');
    if "s3://"@.is_prefix_of("gs://"@) {
        assert("gs://"@.subrange(0, 5)[0] == 's');
    }
    if "s3://"@.is_prefix_of("file://"@) {
        assert("file://"@.subrange(0, 5)[0] == 's');
    }
    if "gs://"@.is_prefix_of("file://"@) {
        assert("file://"@.subrange(0, 5)[0] == 'g');
    }
}

/// The URI of a namespace's table and its path in the bucket are one place: the URI
/// is the bucket's, a slash, the path, and a slash. The path ends with the name.
pub proof fn law_uris_and_paths_are_one_place(root: RootView, ns: Seq<char>)
    ensures
        root_text(root) + "/"@ + ns + "/"@ == scheme_text(root.0) + root.1 + "/"@ + object_path(
            root,
            ns,
        ) + "/"@,
        root.2 matches Some(p) ==> object_path(root, ns) == p + "/"@ + ns,
        root.2 is None ==> object_path(root, ns) == ns,
{
    assert(root_text(root) + "/"@ + ns + "/"@ =~= scheme_text(root.0) + root.1 + "/"@ + object_path(
        root,
        ns,
    ) + "/"@);
}

/// A bucket ends at the first slash, and slashes around the prefix do not count.
pub proof fn law_prefixes_are_trimmed_of_slashes(rest: Seq<char>)
    ensures
        is_bucket(split_bucket(rest).0) || split_bucket(rest).0.len() == 0,
        split_bucket(rest).0 == rest.take(split_bucket(rest).0.len() as int),
        split_bucket(rest).1 matches Some(p) ==> p.len() > 0 && p[0] != '/' && p.last() != '/',
{
    text::law_before_ends_at_the_first_stop(rest, '/');
    let tail = rest.skip(text::before(rest, '/').len() as int);
    let n = lemma_slashes_in_front(tail);
    lemma_no_slash_start(tail, n);
    let inner = tail.skip(n);
    let m = lemma_slashes_behind(inner);
    lemma_no_slash_end(inner, m);
    if m > 0 {
        assert(inner.take(m)[0] == inner[0] && inner[0] == tail[n]);
        assert(inner.take(m).last() == inner[m - 1]);
    }
}

proof fn lemma_slashes_in_front(s: Seq<char>) -> (n: int)
    ensures
        0 <= n <= s.len(),
        forall|k: int| 0 <= k < n ==> s[k] == '/',
        n == s.len() || s[n] != '/',
    decreases s.len(),
{
    if s.len() > 0 && s[0] == '/' {
        let n = lemma_slashes_in_front(s.drop_first());
        assert forall|k: int| 0 <= k < n + 1 implies s[k] == '/' by {
            if k > 0 {
                assert(s.drop_first()[k - 1] == s[k]);
            }
        }
        n + 1
    } else {
        0
    }
}

proof fn lemma_slashes_behind(s: Seq<char>) -> (n: int)
    ensures
        0 <= n <= s.len(),
        forall|k: int| n <= k < s.len() ==> s[k] == '/',
        n == 0 || s[n - 1] != '/',
    decreases s.len(),
{
    if s.len() > 0 && s.last() == '/' {
        let n = lemma_slashes_behind(s.drop_last());
        assert forall|k: int| n <= k < s.len() implies s[k] == '/' by {
            if k < s.len() - 1 {
                assert(s.drop_last()[k] == s[k]);
            }
        }
        n
    } else {
        s.len() as int
    }
}
/// Whatever a URI names is a root: a bucket without slashes, with a prefix that has
/// none at its ends, or a directory without a slash at its end.
pub proof fn law_parsed_roots_are_roots(uri: Seq<char>)
    ensures
        parse_root(uri) matches Some(root) ==> is_root(root),
{
    law_prefixes_are_trimmed_of_slashes(uri.skip("s3://"@.len() as int));
    law_prefixes_are_trimmed_of_slashes(uri.skip("gs://"@.len() as int));
    let dir = uri.skip("file://"@.len() as int);
    let n = lemma_slashes_behind(dir);
    lemma_no_slash_end(dir, n);
    if n > 0 {
        assert(dir.take(n).last() == dir[n - 1]);
    }
}

} // verus!
