use vstd::prelude::*;

use crate::json_value::{JsonVal, json_of, parse_json, spec_elem, spec_member, spec_str};

verus! {

/// A decimal digit.
pub open spec fn is_ascii_digit(c: char) -> bool {
    48 <= c as u32 && c as u32 <= 57
}

/// One occurrence of the identifier pattern in a canonical URL: a `/` at `i`,
/// a `?` at `j`, and at least one digit — and nothing else — between them.
pub open spec fn id_match(s: Seq<char>, i: int, j: int) -> bool {
    &&& 0 <= i
    &&& i + 1 < j
    &&& j < s.len()
    &&& s[i] == '/'
    &&& s[j] == '?'
    &&& forall|k: int| i < k < j ==> is_ascii_digit(s[k])
}

pub open spec fn match_starts_at(s: Seq<char>, i: int) -> bool {
    exists|j: int| id_match(s, i, j)
}

pub open spec fn has_id_match(s: Seq<char>) -> bool {
    exists|i: int| match_starts_at(s, i)
}

/// The leftmost occurrence of the identifier pattern.
pub open spec fn first_match(s: Seq<char>, i: int, j: int) -> bool {
    &&& id_match(s, i, j)
    &&& forall|i2: int| 0 <= i2 < i ==> !match_starts_at(s, i2)
}

/// The media identifier a canonical URL embeds: the digits of the leftmost
/// identifier pattern, or nothing when the URL holds no such pattern.
pub open spec fn extracted_id(s: Seq<char>) -> Seq<char> {
    if exists|i: int, j: int| first_match(s, i, j) {
        let (i, j) = choose|i: int, j: int| first_match(s, i, j);
        s.subrange(i + 1, j)
    } else {
        Seq::empty()
    }
}

/// The leftmost occurrence is the only leftmost occurrence: its start is the
/// least of all starts, and for one start the closing `?` is determined.
pub proof fn lemma_first_match_unique(s: Seq<char>, i1: int, j1: int, i2: int, j2: int)
    requires
        first_match(s, i1, j1),
        first_match(s, i2, j2),
    ensures
        i1 == i2,
        j1 == j2,
{
    if i1 < i2 {
        assert(id_match(s, i1, j1));
        assert(match_starts_at(s, i1));
        assert(false);
    }
    if i2 < i1 {
        assert(id_match(s, i2, j2));
        assert(match_starts_at(s, i2));
        assert(false);
    }
    if j1 < j2 {
        assert(is_ascii_digit(s[j1]));
        assert(false);
    }
    if j2 < j1 {
        assert(is_ascii_digit(s[j2]));
        assert(false);
    }
}

/// The extraction returns exactly the digits of the leftmost identifier
/// pattern: a non-empty run of digits.
pub proof fn lemma_extracted_id_exact(s: Seq<char>, i: int, j: int)
    requires
        first_match(s, i, j),
    ensures
        extracted_id(s) == s.subrange(i + 1, j),
        extracted_id(s).len() > 0,
        forall|k: int| 0 <= k < extracted_id(s).len() ==> is_ascii_digit(extracted_id(s)[k]),
{
    assert(exists|i2: int, j2: int| first_match(s, i2, j2));
    let (ci, cj) = choose|ci: int, cj: int| first_match(s, ci, cj);
    assert(first_match(s, ci, cj));
    lemma_first_match_unique(s, i, j, ci, cj);
    assert(extracted_id(s) == s.subrange(i + 1, j));
    assert forall|k: int| 0 <= k < extracted_id(s).len() implies is_ascii_digit(
        extracted_id(s)[k],
    ) by {
        assert(extracted_id(s)[k] == s[i + 1 + k]);
    }
}

proof fn lemma_first_match_exists_from(s: Seq<char>, i: int)
    requires
        0 <= i,
        match_starts_at(s, i),
    ensures
        exists|i2: int, j2: int| first_match(s, i2, j2),
    decreases i,
{
    if exists|i3: int| 0 <= i3 < i && match_starts_at(s, i3) {
        let i3 = choose|i3: int| 0 <= i3 < i && match_starts_at(s, i3);
        lemma_first_match_exists_from(s, i3);
    } else {
        let j = choose|j: int| id_match(s, i, j);
        assert(first_match(s, i, j));
    }
}

/// A URL without the pattern yields the empty identifier.
pub proof fn lemma_no_match_empty(s: Seq<char>)
    requires
        !has_id_match(s),
    ensures
        extracted_id(s) == Seq::<char>::empty(),
{
    if exists|i: int, j: int| first_match(s, i, j) {
        let (i, j) = choose|i: int, j: int| first_match(s, i, j);
        assert(id_match(s, i, j));
        assert(match_starts_at(s, i));
        assert(false);
    }
}

/// The extraction yields an empty identifier exactly when the URL holds no
/// identifier pattern at all.
pub proof fn lemma_extracted_id_empty_iff(s: Seq<char>)
    ensures
        (extracted_id(s).len() == 0) <==> !has_id_match(s),
{
    if !has_id_match(s) {
        lemma_no_match_empty(s);
    }
    if has_id_match(s) {
        let i = choose|i: int| match_starts_at(s, i);
        let j = choose|j: int| id_match(s, i, j);
        assert(id_match(s, i, j));
        lemma_first_match_exists_from(s, i);
        let (ci, cj) = choose|ci: int, cj: int| first_match(s, ci, cj);
        assert(first_match(s, ci, cj));
        lemma_extracted_id_exact(s, ci, cj);
    }
}

/// Scans the digit run that starts at `start`: returns the first position at
/// or after `start` that holds no digit.
fn scan_digits(s: &str, start: usize) -> (j: usize)
    requires
        start <= s@.len(),
    ensures
        start <= j <= s@.len(),
        forall|k: int| start <= k < j ==> is_ascii_digit(s@[k]),
        j < s@.len() ==> !is_ascii_digit(s@[j as int]),
{
    let n = s.unicode_len();
    let mut j: usize = start;
    while j < n
        invariant
            start <= j <= n,
            n == s@.len(),
            forall|k: int| start <= k < j ==> is_ascii_digit(s@[k]),
        decreases n - j,
    {
        let c = s.get_char(j);
        let u = c as u32;
        if u < 48 || u > 57 {
            return j;
        }
        j += 1;
    }
    j
}

proof fn lemma_no_match_at(s: Seq<char>, i: int, j: int)
    requires
        0 <= i < s.len(),
        i + 1 <= j <= s.len(),
        forall|k: int| i + 1 <= k < j ==> is_ascii_digit(s[k]),
        j < s.len() ==> !is_ascii_digit(s[j]),
        !(i + 1 < j && j < s.len() && s[j] == '?'),
    ensures
        !match_starts_at(s, i),
{
    assert forall|j2: int| !id_match(s, i, j2) by {
        if id_match(s, i, j2) {
            if j2 < j {
                assert(is_ascii_digit(s[j2]));
                assert(s[j2] == '?');
                assert(false);
            } else if j2 > j {
                assert(is_ascii_digit(s[j]));
                assert(false);
            } else {
                assert(false);
            }
        }
    }
}

/// Extracts the media identifier from a canonical URL: the digits of the
/// leftmost path segment of digits that a `?` follows, or the empty string
/// when the URL holds no such segment.
pub fn extract_id(url: &str) -> (r: String)
    ensures
        r@ == extracted_id(url@),
        !has_id_match(url@) ==> r@ == Seq::<char>::empty(),
{
    let n = url.unicode_len();
    let mut i: usize = 0;
    while i < n
        invariant
            i <= n,
            n == url@.len(),
            forall|i2: int| 0 <= i2 < i ==> !match_starts_at(url@, i2),
        decreases n - i,
    {
        if url.get_char(i) == '/' {
            let j = scan_digits(url, i + 1);
            if i + 1 < j && j < n && url.get_char(j) == '?' {
                proof {
                    assert(id_match(url@, i as int, j as int));
                    assert(match_starts_at(url@, i as int));
                    assert(has_id_match(url@));
                    assert(first_match(url@, i as int, j as int));
                    lemma_extracted_id_exact(url@, i as int, j as int);
                }
                let digits = url.substring_char(i + 1, j);
                return String::from_str(digits);
            }
            proof {
                lemma_no_match_at(url@, i as int, j as int);
            }
        }
        i += 1;
    }
    proof {
        assert(!has_id_match(url@)) by {
            if has_id_match(url@) {
                let wi = choose|wi: int| match_starts_at(url@, wi);
                let wj = choose|wj: int| id_match(url@, wi, wj);
                assert(id_match(url@, wi, wj));
                assert(0 <= wi < n);
                assert(false);
            }
        }
        lemma_no_match_empty(url@);
    }
    String::new()
}

/// The fixed metadata-API endpoint, up to the identifier.
pub open spec fn api_url_prefix() -> Seq<char> {
    "https://www.iesdouyin.com/web/api/v2/aweme/iteminfo/?item_ids="@
}

/// The metadata-API query URL for one media identifier.
pub fn api_url_for(id: &str) -> (r: String)
    ensures
        r@ == api_url_prefix() + id@,
{
    let mut url = String::from_str("https://www.iesdouyin.com/web/api/v2/aweme/iteminfo/?item_ids=");
    url.append(id);
    url
}

/// Steps of the fixed navigation path through the metadata response.
pub open spec fn step_member(o: Option<JsonVal>, key: Seq<char>) -> Option<JsonVal> {
    match o {
        Some(v) => spec_member(v, key),
        None => None,
    }
}

pub open spec fn step_elem(o: Option<JsonVal>, i: int) -> Option<JsonVal> {
    match o {
        Some(v) => spec_elem(v, i),
        None => None,
    }
}

pub open spec fn opt_str(o: Option<JsonVal>) -> Option<Seq<char>> {
    match o {
        Some(v) => spec_str(v),
        None => None,
    }
}

/// The first record of the response's item list.
pub open spec fn first_item(root: JsonVal) -> Option<JsonVal> {
    step_elem(step_member(Some(root), "item_list"@), 0)
}

/// The first URL of the `url_list` under `section`/`holder` in one item.
pub open spec fn url_at(item: JsonVal, section: Seq<char>, holder: Seq<char>) -> Option<
    Seq<char>,
> {
    opt_str(
        step_elem(step_member(step_member(step_member(Some(item), section), holder), "url_list"@), 0),
    )
}

pub open spec fn cover_url_of(root: JsonVal) -> Option<Seq<char>> {
    match first_item(root) {
        Some(item) => url_at(item, "video"@, "origin_cover"@),
        None => None,
    }
}

pub open spec fn music_url_of(root: JsonVal) -> Option<Seq<char>> {
    match first_item(root) {
        Some(item) => url_at(item, "music"@, "play_url"@),
        None => None,
    }
}

pub open spec fn video_url_of(root: JsonVal) -> Option<Seq<char>> {
    match first_item(root) {
        Some(item) => url_at(item, "video"@, "play_addr"@),
        None => None,
    }
}

/// Why a resolution failed.
#[derive(Clone, Copy, PartialEq, Eq, Structural, Debug)]
pub enum ResolveError {
    /// The canonical URL holds no identifier pattern.
    IdNotFound,
    /// The metadata body is not well-formed JSON.
    InvalidJson,
    /// The fixed path to one of the three URLs is absent or not a string.
    MissingField,
    /// One of the three URLs is present but empty.
    EmptyUrl,
}

impl ResolveError {
    /// A fixed description of the failure.
    pub fn message(&self) -> (r: String)
        ensures
            r@ == match *self {
                ResolveError::IdNotFound => "no media identifier in the canonical URL"@,
                ResolveError::InvalidJson => "metadata body is not well-formed JSON"@,
                ResolveError::MissingField => "metadata body misses an expected field"@,
                ResolveError::EmptyUrl => "metadata body holds an empty asset URL"@,
            },
    {
        match self {
            ResolveError::IdNotFound => String::from_str("no media identifier in the canonical URL"),
            ResolveError::InvalidJson => String::from_str("metadata body is not well-formed JSON"),
            ResolveError::MissingField => String::from_str("metadata body misses an expected field"),
            ResolveError::EmptyUrl => String::from_str("metadata body holds an empty asset URL"),
        }
    }
}

/// The three direct asset URLs of one item.
#[derive(Debug)]
pub struct AssetUrls {
    pub video_url: String,
    pub cover_url: String,
    pub music_url: String,
}

fn url_from_item(item: &JsonVal, section: &str, holder: &str) -> (r: Option<String>)
    ensures
        match r {
            Some(s) => url_at(*item, section@, holder@) == Some(s@),
            None => url_at(*item, section@, holder@) is None,
        },
{
    let sec = match item.member(section) {
        Some(v) => v,
        None => {
            return None;
        },
    };
    let hold = match sec.member(holder) {
        Some(v) => v,
        None => {
            return None;
        },
    };
    let list = match hold.member("url_list") {
        Some(v) => v,
        None => {
            return None;
        },
    };
    let first = match list.elem(0) {
        Some(v) => v,
        None => {
            return None;
        },
    };
    match first.str_value() {
        Some(s) => Some(String::from_str(s)),
        None => None,
    }
}

/// Pulls the three asset URLs out of a parsed metadata response, each taken
/// verbatim from the first element of its `url_list`.
pub fn extract_asset_urls(root: &JsonVal) -> (r: Result<AssetUrls, ResolveError>)
    ensures
        match r {
            Ok(urls) => {
                &&& cover_url_of(*root) == Some(urls.cover_url@)
                &&& music_url_of(*root) == Some(urls.music_url@)
                &&& video_url_of(*root) == Some(urls.video_url@)
            },
            Err(e) => {
                &&& e == ResolveError::MissingField
                &&& (cover_url_of(*root) is None || music_url_of(*root) is None || video_url_of(
                    *root,
                ) is None)
            },
        },
{
    let list = match root.member("item_list") {
        Some(v) => v,
        None => {
            return Err(ResolveError::MissingField);
        },
    };
    let item = match list.elem(0) {
        Some(v) => v,
        None => {
            return Err(ResolveError::MissingField);
        },
    };
    let cover_url = match url_from_item(item, "video", "origin_cover") {
        Some(s) => s,
        None => {
            return Err(ResolveError::MissingField);
        },
    };
    let music_url = match url_from_item(item, "music", "play_url") {
        Some(s) => s,
        None => {
            return Err(ResolveError::MissingField);
        },
    };
    let video_url = match url_from_item(item, "video", "play_addr") {
        Some(s) => s,
        None => {
            return Err(ResolveError::MissingField);
        },
    };
    Ok(AssetUrls { video_url, cover_url, music_url })
}

/// The result of a successful resolution: the media identifier and the three
/// direct asset URLs, all non-empty.
#[derive(Debug)]
pub struct ResolvedLink {
    pub aweme_id: String,
    pub video_url: String,
    pub cover_url: String,
    pub music_url: String,
}

impl ResolvedLink {
    /// Resolution is all-or-nothing: every field of an exposed link is
    /// non-empty.
    pub open spec fn wf(self) -> bool {
        &&& self.aweme_id@.len() > 0
        &&& self.video_url@.len() > 0
        &&& self.cover_url@.len() > 0
        &&& self.music_url@.len() > 0
    }
}

/// Completes a resolution from the extracted identifier and the metadata
/// body: parses the body as JSON, navigates the fixed path to the three
/// asset URLs, and refuses an empty identifier or an empty URL.
pub fn finish_resolution(id: &str, body: &str) -> (r: Result<ResolvedLink, ResolveError>)
    ensures
        match r {
            Ok(link) => {
                &&& id@.len() > 0
                &&& link.aweme_id@ == id@
                &&& link.wf()
                &&& (json_of(body@) matches Some(root) && cover_url_of(root) == Some(
                    link.cover_url@,
                ) && music_url_of(root) == Some(link.music_url@) && video_url_of(root) == Some(
                    link.video_url@,
                ))
            },
            Err(ResolveError::IdNotFound) => id@.len() == 0,
            Err(ResolveError::InvalidJson) => id@.len() > 0 && json_of(body@) is None,
            Err(ResolveError::MissingField) => id@.len() > 0 && (json_of(body@) matches Some(root)
                && (cover_url_of(root) is None || music_url_of(root) is None || video_url_of(root) is None)),
            Err(ResolveError::EmptyUrl) => id@.len() > 0 && (json_of(body@) matches Some(root)
                && cover_url_of(root) matches Some(c) && music_url_of(root) matches Some(m)
                && video_url_of(root) matches Some(v) && (c.len() == 0 || m.len() == 0 || v.len()
                == 0)),
        },
{
    if id.unicode_len() == 0 {
        return Err(ResolveError::IdNotFound);
    }
    let root = match parse_json(body) {
        Some(v) => v,
        None => {
            return Err(ResolveError::InvalidJson);
        },
    };
    let urls = match extract_asset_urls(&root) {
        Ok(u) => u,
        Err(e) => {
            return Err(e);
        },
    };
    if urls.cover_url.unicode_len() == 0 || urls.music_url.unicode_len() == 0
        || urls.video_url.unicode_len() == 0 {
        return Err(ResolveError::EmptyUrl);
    }
    Ok(
        ResolvedLink {
            aweme_id: String::from_str(id),
            video_url: urls.video_url,
            cover_url: urls.cover_url,
            music_url: urls.music_url,
        },
    )
}

} // verus!
