//! The locator that names where a sweep looks: `gs://bucket/folder`.

use vstd::prelude::*;
use crate::chars::chars_of;

verus! {

/// A bucket and the folder below it that a sweep is confined to.
#[derive(Debug, PartialEq, Eq)]
pub struct GsPath {
    pub bucket: String,
    pub folder: String,
}

/// The mathematical value of a [`GsPath`].
pub struct GsPathView {
    pub bucket: Seq<char>,
    pub folder: Seq<char>,
}

impl View for GsPath {
    type V = GsPathView;

    open spec fn view(&self) -> GsPathView {
        GsPathView { bucket: self.bucket@, folder: self.folder@ }
    }
}

impl GsPathView {
    /// What holds of every locator that was read from a string: it names a
    /// bucket, the bucket's name holds no `/`, and it names a folder. A
    /// sweep is confined to a folder, never let loose on a whole bucket.
    pub open spec fn is_scoped(self) -> bool {
        &&& self.bucket.len() > 0
        &&& !self.bucket.contains('/')
        &&& self.folder.len() > 0
    }
}

impl Clone for GsPath {
    fn clone(&self) -> (copy: Self)
        ensures
            copy@ == self@,
    {
        GsPath { bucket: self.bucket.clone(), folder: self.folder.clone() }
    }
}

/// Why a string is no locator.
#[derive(Debug, Clone, Copy, PartialEq, Eq, Structural)]
pub enum InvalidLocator {
    /// The string does not begin with `gs://`.
    MissingScheme,
    /// No bucket is named: a `/` follows the scheme at once.
    MissingBucket,
    /// No folder is named: nothing follows the bucket, or only the `/`
    /// that ends it.
    MissingFolder,
}

/// The scheme that every locator begins with.
pub open spec fn scheme() -> Seq<char> {
    seq!['g', 's', ':', '/', '/']
}

/// The text of the locator for `rest` in `bucket`: the scheme, the bucket,
/// a `/`, and the rest as it is.
pub open spec fn locator_text(bucket: Seq<char>, rest: Seq<char>) -> Seq<char> {
    scheme() + bucket + seq!['/'] + rest
}

/// What a string says as a locator. After the scheme, the bucket runs up to
/// the first `/`, and the folder is all that follows that `/`, unchanged.
/// Neither may be empty.
pub open spec fn parse_locator(path: Seq<char>) -> Result<GsPathView, InvalidLocator> {
    if !scheme().is_prefix_of(path) {
        Err(InvalidLocator::MissingScheme)
    } else {
        let rest = path.skip(scheme().len() as int);
        match rest.index_of_first('/') {
            None => Err(InvalidLocator::MissingFolder),
            Some(at) => if at == 0 {
                Err(InvalidLocator::MissingBucket)
            } else if at + 1 == rest.len() {
                Err(InvalidLocator::MissingFolder)
            } else {
                Ok(GsPathView { bucket: rest.take(at), folder: rest.skip(at + 1) })
            },
        }
    }
}

/// The result of parsing, with the locator taken by its view.
pub open spec fn parsed_view(result: Result<GsPath, InvalidLocator>) -> Result<
    GsPathView,
    InvalidLocator,
> {
    match result {
        Ok(path) => Ok(path@),
        Err(e) => Err(e),
    }
}

/// Reads a locator of the form `gs://bucket/folder`.
pub fn parse_gsutil_path(path: &str) -> (result: Result<GsPath, InvalidLocator>)
    ensures
        parsed_view(result) == parse_locator(path@),
        result matches Ok(locator) ==> locator@.is_scoped(),
{
    let chars = chars_of(path);
    let n = chars.len();
    if n < 5 || chars[0] != 'g' || chars[1] != 's' || chars[2] != ':' || chars[3] != '/'
        || chars[4] != '/' {
        return Err(InvalidLocator::MissingScheme);
    }
    assert(scheme().is_prefix_of(path@)) by {
        assert(path@.subrange(0, 5) =~= scheme());
    }
    let ghost rest = path@.skip(5);
    let mut at: usize = 5;
    while at < n && chars[at] != '/'
        invariant
            5 <= at <= n,
            n == chars.len(),
            chars@ == path@,
            rest == path@.skip(5),
            forall|j: int| 0 <= j < at - 5 ==> rest[j] != '/',
        decreases n - at,
    {
        at += 1;
    }
    proof {
        rest.index_of_first_ensures('/');
    }
    if at == n {
        return Err(InvalidLocator::MissingFolder);
    }
    assert(rest[at - 5] == '/');
    if at == 5 {
        return Err(InvalidLocator::MissingBucket);
    }
    if at + 1 == n {
        return Err(InvalidLocator::MissingFolder);
    }
    let bucket = path.substring_char(5, at);
    let folder = path.substring_char(at + 1, n);
    assert(bucket@ =~= rest.take(at - 5));
    assert(folder@ =~= rest.skip(at - 5 + 1));
    proof {
        lemma_parsed_is_scoped(path@);
    }
    Ok(GsPath { bucket: bucket.to_owned(), folder: folder.to_owned() })
}

impl InvalidLocator {
    /// The words that tell a user what is wrong with the locator.
    pub open spec fn spec_message(self) -> Seq<char> {
        match self {
            InvalidLocator::MissingScheme => "Invalid gsutil path format, no gs:// prefix"@,
            InvalidLocator::MissingBucket => "Invalid gsutil path format, no bucket specified"@,
            InvalidLocator::MissingFolder => "Invalid gsutil path format, no folder specified"@,
        }
    }

    /// The words that tell a user what is wrong with the locator.
    pub fn message(&self) -> (text: String)
        ensures
            text@ == self.spec_message(),
    {
        match self {
            InvalidLocator::MissingScheme => "Invalid gsutil path format, no gs:// prefix".to_owned(),
            InvalidLocator::MissingBucket => "Invalid gsutil path format, no bucket specified".to_owned(),
            InvalidLocator::MissingFolder => "Invalid gsutil path format, no folder specified".to_owned(),
        }
    }
}

/// A helper: the place of the first `/` in a bucket, a `/` and what
/// follows is the length of the bucket.
proof fn lemma_first_separator(bucket: Seq<char>, folder: Seq<char>)
    requires
        !bucket.contains('/'),
    ensures
        (bucket + seq!['/'] + folder).index_of_first('/') == Some(bucket.len() as int),
{
    let rest = bucket + seq!['/'] + folder;
    assert(rest[bucket.len() as int] == '/');
    rest.index_of_first_ensures('/');
    let at = rest.index_of_first('/')->0;
    if at < bucket.len() {
        assert(bucket[at] == '/');
    }
}

/// A helper: a string that begins with the scheme goes on with what
/// follows the scheme.
proof fn lemma_after_scheme(rest: Seq<char>)
    ensures
        scheme().is_prefix_of(scheme() + rest),
        (scheme() + rest).skip(5) == rest,
{
    assert((scheme() + rest).subrange(0, 5) =~= scheme());
    assert((scheme() + rest).skip(5) =~= rest);
}

/// A string made of the scheme, a bucket, a `/` and a folder is read as
/// that bucket and that folder, where the bucket holds no `/` and neither
/// is empty. The folder comes back unchanged, whatever it ends with.
pub proof fn lemma_locator_parses(bucket: Seq<char>, folder: Seq<char>)
    requires
        bucket.len() > 0,
        !bucket.contains('/'),
        folder.len() > 0,
    ensures
        parse_locator(locator_text(bucket, folder)) == Ok::<GsPathView, InvalidLocator>(
            GsPathView { bucket, folder },
        ),
{
    let rest = bucket + seq!['/'] + folder;
    assert(locator_text(bucket, folder) =~= scheme() + rest);
    lemma_after_scheme(rest);
    lemma_first_separator(bucket, folder);
    assert(rest.take(bucket.len() as int) =~= bucket);
    assert(rest.skip(bucket.len() as int + 1) =~= folder);
}

/// Whatever is read as a locator names a bucket and a folder, and is the
/// text of the locator for them: nothing else is accepted.
pub proof fn lemma_parsed_is_scoped(path: Seq<char>)
    ensures
        parse_locator(path) matches Ok(locator) ==> locator.is_scoped() && path == locator_text(
            locator.bucket,
            locator.folder,
        ),
{
    if let Ok(locator) = parse_locator(path) {
        let rest = path.skip(5);
        rest.index_of_first_ensures('/');
        let at = rest.index_of_first('/')->0;
        assert(!locator.bucket.contains('/')) by {
            if locator.bucket.contains('/') {
                let j = choose|j: int| 0 <= j < locator.bucket.len() && locator.bucket[j] == '/';
                assert(rest[j] == '/');
            }
        }
        assert(path.subrange(0, 5) == scheme());
        assert(path =~= locator_text(locator.bucket, locator.folder));
    }
}

/// A string that does not begin with the scheme is no locator.
pub proof fn lemma_scheme_is_required(path: Seq<char>)
    requires
        !scheme().is_prefix_of(path),
    ensures
        parse_locator(path) == Err::<GsPathView, InvalidLocator>(InvalidLocator::MissingScheme),
{
}

/// The scheme and a bucket alone, with no `/` after the bucket, are no
/// locator.
pub proof fn lemma_folder_is_required(bucket: Seq<char>)
    requires
        !bucket.contains('/'),
    ensures
        parse_locator(scheme() + bucket) == Err::<GsPathView, InvalidLocator>(
            InvalidLocator::MissingFolder,
        ),
{
    lemma_after_scheme(bucket);
    bucket.index_of_first_ensures('/');
}

/// Nor are the scheme, a bucket and the `/` that ends it, with nothing
/// after the `/`: the whole bucket is no folder.
pub proof fn lemma_empty_folder_is_rejected(bucket: Seq<char>)
    requires
        bucket.len() > 0,
        !bucket.contains('/'),
    ensures
        parse_locator(locator_text(bucket, Seq::empty())) == Err::<GsPathView, InvalidLocator>(
            InvalidLocator::MissingFolder,
        ),
{
    let rest = bucket + seq!['/'] + Seq::<char>::empty();
    assert(locator_text(bucket, Seq::empty()) =~= scheme() + rest);
    lemma_after_scheme(rest);
    lemma_first_separator(bucket, Seq::empty());
}

/// A `/` right after the scheme names no bucket, whatever follows it.
pub proof fn lemma_bucket_is_required(folder: Seq<char>)
    ensures
        parse_locator(locator_text(Seq::empty(), folder)) == Err::<GsPathView, InvalidLocator>(
            InvalidLocator::MissingBucket,
        ),
{
    let rest = Seq::<char>::empty() + seq!['/'] + folder;
    assert(locator_text(Seq::empty(), folder) =~= scheme() + rest);
    lemma_after_scheme(rest);
    lemma_first_separator(Seq::empty(), folder);
}

} // verus!
