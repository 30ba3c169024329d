use vstd::prelude::*;

use crate::fetcher::AssetKind;
use crate::resolver::{ResolveError, ResolvedLink};

verus! {

/// Which asset kinds one invocation asked for.
#[derive(Clone, Copy, PartialEq, Eq, Structural, Debug)]
pub struct Selection {
    pub cover: bool,
    pub music: bool,
    pub video: bool,
}

/// Applies the flags of an invocation: `all` turns every kind on, otherwise
/// each flag stands for itself.
pub fn effective_selection(all: bool, video: bool, cover: bool, music: bool) -> (r: Selection)
    ensures
        r.cover == (all || cover),
        r.music == (all || music),
        r.video == (all || video),
{
    Selection { cover: all || cover, music: all || music, video: all || video }
}

/// One fetch to perform: the identifier, the asset URL and the asset kind.
pub struct DownloadTask {
    pub aweme_id: String,
    pub url: String,
    pub kind: AssetKind,
}

/// What one task fetches, as plain values.
pub open spec fn task_view(t: DownloadTask) -> (Seq<char>, Seq<char>, AssetKind) {
    (t.aweme_id@, t.url@, t.kind)
}

/// The downloads a resolved link and a selection call for, in the fixed
/// order cover, audio, video.
pub open spec fn spec_plan(link: ResolvedLink, sel: Selection) -> Seq<
    (Seq<char>, Seq<char>, AssetKind),
> {
    let after_cover = if sel.cover {
        Seq::empty().push((link.aweme_id@, link.cover_url@, AssetKind::Cover))
    } else {
        Seq::empty()
    };
    let after_music = if sel.music {
        after_cover.push((link.aweme_id@, link.music_url@, AssetKind::Audio))
    } else {
        after_cover
    };
    if sel.video {
        after_music.push((link.aweme_id@, link.video_url@, AssetKind::Video))
    } else {
        after_music
    }
}

/// Turns the outcome of a resolution into the fetches to perform: none at
/// all when resolution failed, else one per selected kind, in the fixed
/// order cover, audio, video.
pub fn plan_downloads(res: &Result<ResolvedLink, ResolveError>, sel: Selection) -> (r: Vec<
    DownloadTask,
>)
    ensures
        r@.map_values(|t: DownloadTask| task_view(t)) == match res {
            Ok(link) => spec_plan(*link, sel),
            Err(_) => Seq::<(Seq<char>, Seq<char>, AssetKind)>::empty(),
        },
{
    let mut tasks: Vec<DownloadTask> = Vec::new();
    match res {
        Ok(link) => {
            if sel.cover {
                tasks.push(
                    DownloadTask {
                        aweme_id: clone_string(&link.aweme_id),
                        url: clone_string(&link.cover_url),
                        kind: AssetKind::Cover,
                    },
                );
            }
            if sel.music {
                tasks.push(
                    DownloadTask {
                        aweme_id: clone_string(&link.aweme_id),
                        url: clone_string(&link.music_url),
                        kind: AssetKind::Audio,
                    },
                );
            }
            if sel.video {
                tasks.push(
                    DownloadTask {
                        aweme_id: clone_string(&link.aweme_id),
                        url: clone_string(&link.video_url),
                        kind: AssetKind::Video,
                    },
                );
            }
            proof {
                assert(tasks@.map_values(|t: DownloadTask| task_view(t)) =~= spec_plan(
                    *link,
                    sel,
                ));
            }
        },
        Err(_) => {
            proof {
                assert(tasks@.map_values(|t: DownloadTask| task_view(t)) =~= Seq::<
                    (Seq<char>, Seq<char>, AssetKind),
                >::empty());
            }
        },
    }
    tasks
}

fn clone_string(s: &String) -> (r: String)
    ensures
        r@ == s@,
{
    String::from_str(s.as_str())
}

/// Selecting everything plans exactly three fetches, one per asset kind, in
/// the fixed order cover, audio, video.
pub proof fn lemma_select_all_plans_three(link: ResolvedLink, sel: Selection)
    requires
        sel.cover,
        sel.music,
        sel.video,
    ensures
        spec_plan(link, sel).len() == 3,
        spec_plan(link, sel)[0] == (link.aweme_id@, link.cover_url@, AssetKind::Cover),
        spec_plan(link, sel)[1] == (link.aweme_id@, link.music_url@, AssetKind::Audio),
        spec_plan(link, sel)[2] == (link.aweme_id@, link.video_url@, AssetKind::Video),
{
}

/// Selecting nothing plans no fetch at all, however resolution went.
pub proof fn lemma_select_none_plans_nothing(link: ResolvedLink, sel: Selection)
    requires
        !sel.cover,
        !sel.music,
        !sel.video,
    ensures
        spec_plan(link, sel).len() == 0,
{
}

} // verus!
