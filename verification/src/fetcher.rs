use vstd::prelude::*;

verus! {

/// The three downloadable components of a post.
#[derive(Clone, Copy, PartialEq, Eq, Structural, Debug)]
pub enum AssetKind {
    Video,
    Cover,
    Audio,
}

/// The fixed filename pattern for an asset kind: a prefix before the media
/// identifier and an extension after it.
pub open spec fn kind_prefix(kind: AssetKind) -> Seq<char> {
    match kind {
        AssetKind::Video => "video_"@,
        AssetKind::Cover => "cover_"@,
        AssetKind::Audio => "music_"@,
    }
}

pub open spec fn kind_suffix(kind: AssetKind) -> Seq<char> {
    match kind {
        AssetKind::Video => ".mp4"@,
        AssetKind::Cover => ".jpeg"@,
        AssetKind::Audio => ".m4a"@,
    }
}

/// Destination filename for one asset: `cover_<id>.jpeg`, `music_<id>.m4a`
/// or `video_<id>.mp4`.
pub fn asset_filename(kind: AssetKind, id: &str) -> (r: String)
    ensures
        r@ == kind_prefix(kind) + id@ + kind_suffix(kind),
{
    let prefix = match kind {
        AssetKind::Video => "video_",
        AssetKind::Cover => "cover_",
        AssetKind::Audio => "music_",
    };
    let suffix = match kind {
        AssetKind::Video => ".mp4",
        AssetKind::Cover => ".jpeg",
        AssetKind::Audio => ".m4a",
    };
    let mut out = String::from_str(prefix);
    out.append(id);
    out.append(suffix);
    out
}

/// Destination path for one asset: the filename under the destination
/// directory.
pub fn asset_path(dir: &str, kind: AssetKind, id: &str) -> (r: String)
    ensures
        r@ == dir@ + "/"@ + kind_prefix(kind) + id@ + kind_suffix(kind),
{
    let mut out = String::from_str(dir);
    out.append("/");
    let name = asset_filename(kind, id);
    out.append(name.as_str());
    out
}

/// Why a fetch failed before any byte arrived.
#[derive(Clone, Copy, PartialEq, Eq, Structural, Debug)]
pub enum FetchError {
    /// The server declared no content length.
    MissingContentLength,
}

impl FetchError {
    /// A fixed description of the failure.
    pub fn message(&self) -> (r: String)
        ensures
            r@ == "the server declared no content length"@,
    {
        String::from_str("the server declared no content length")
    }
}

/// The declared content length of a response, or the error when the server
/// omits it.
pub fn require_content_length(header: Option<u64>) -> (r: Result<u64, FetchError>)
    ensures
        match r {
            Ok(n) => header == Some(n),
            Err(e) => header is None && e == FetchError::MissingContentLength,
        },
{
    match header {
        Some(n) => Ok(n),
        None => Err(FetchError::MissingContentLength),
    }
}

/// The bytes of a chunked stream, in arrival order.
pub open spec fn flat(chunks: Seq<Seq<u8>>) -> Seq<u8>
    decreases chunks.len(),
{
    if chunks.len() == 0 {
        Seq::empty()
    } else {
        chunks[0] + flat(chunks.drop_first())
    }
}

/// The byte count of a chunked stream.
pub open spec fn total_len(chunks: Seq<Seq<u8>>) -> nat
    decreases chunks.len(),
{
    if chunks.len() == 0 {
        0
    } else {
        chunks[0].len() + total_len(chunks.drop_first())
    }
}

/// A stream of N bytes holds exactly N bytes once its chunks are laid out in
/// order, however they were cut.
pub proof fn lemma_flat_len(chunks: Seq<Seq<u8>>)
    ensures
        flat(chunks).len() == total_len(chunks),
    decreases chunks.len(),
{
    if chunks.len() > 0 {
        lemma_flat_len(chunks.drop_first());
    }
}

proof fn lemma_flat_snoc(chunks: Seq<Seq<u8>>, last: Seq<u8>)
    ensures
        flat(chunks.push(last)) == flat(chunks) + last,
    decreases chunks.len(),
{
    if chunks.len() == 0 {
        let p = chunks.push(last);
        assert(p.drop_first() =~= Seq::<Seq<u8>>::empty());
        assert(flat(p.drop_first()) =~= Seq::<u8>::empty());
        assert(p[0] == last);
        assert(flat(p) =~= last);
        assert(flat(chunks) + last =~= last);
    } else {
        assert(chunks.push(last).drop_first() =~= chunks.drop_first().push(last));
        lemma_flat_snoc(chunks.drop_first(), last);
        assert(flat(chunks.push(last)) =~= flat(chunks) + last);
    }
}

/// Writes a chunked stream after the given file bytes, chunk by chunk in
/// arrival order: append semantics. A fresh file is the empty vector; the
/// result then holds exactly the stream's bytes.
pub fn assemble_stream(existing: Vec<u8>, chunks: &Vec<Vec<u8>>) -> (r: Vec<u8>)
    ensures
        r@ == existing@ + flat(chunks@.map_values(|c: Vec<u8>| c@)),
{
    let ghost views = chunks@.map_values(|c: Vec<u8>| c@);
    let ghost initial = existing@;
    let mut out = existing;
    let n = chunks.len();
    let mut i: usize = 0;
    proof {
        assert(views.subrange(0, 0) =~= Seq::empty());
        assert(out@ =~= initial + flat(views.subrange(0, 0)));
    }
    while i < n
        invariant
            i <= n,
            n == chunks@.len(),
            views == chunks@.map_values(|c: Vec<u8>| c@),
            out@ == initial + flat(views.subrange(0, i as int)),
        decreases n - i,
    {
        let chunk = &chunks[i];
        out.extend_from_slice(chunk.as_slice());
        proof {
            assert(out@ =~= initial + flat(views.subrange(0, i as int)) + views[i as int]);
            assert(views.subrange(0, i + 1) =~= views.subrange(0, i as int).push(views[i as int]));
            lemma_flat_snoc(views.subrange(0, i as int), views[i as int]);
            assert(out@ =~= initial + flat(views.subrange(0, i + 1)));
        }
        i += 1;
    }
    proof {
        assert(views.subrange(0, n as int) =~= views);
    }
    out
}

/// Progress accounting for one fetch: the declared content length and the
/// bytes received so far, advanced once per chunk as the chunk is written.
pub struct FetchProgress {
    pub expected: u64,
    pub received: u64,
}

impl FetchProgress {
    /// Fresh accounting for a response that declared `expected` bytes.
    pub fn new(expected: u64) -> (r: FetchProgress)
        ensures
            r.expected == expected,
            r.received == 0,
    {
        FetchProgress { expected, received: 0 }
    }

    /// Records one chunk of `n` bytes.
    pub fn advance(&mut self, n: u64)
        requires
            old(self).received + n <= u64::MAX,
        ensures
            final(self).expected == old(self).expected,
            final(self).received == old(self).received + n,
    {
        self.received = self.received + n;
    }

    /// Whether at least the declared number of bytes has arrived.
    pub fn is_complete(&self) -> (r: bool)
        ensures
            r == (self.received >= self.expected),
    {
        self.received >= self.expected
    }
}

} // verus!
