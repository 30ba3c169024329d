use douyin_dl::fetcher::AssetKind;
use douyin_dl::plan::{effective_selection, plan_downloads, Selection};
use douyin_dl::resolver::{ResolveError, ResolvedLink};

fn link() -> ResolvedLink {
    ResolvedLink {
        aweme_id: String::from("77"),
        video_url: String::from("http://v"),
        cover_url: String::from("http://c"),
        music_url: String::from("http://m"),
    }
}

#[test]
fn the_all_flag_selects_every_kind() {
    let sel = effective_selection(true, false, false, false);
    assert_eq!(sel, Selection { cover: true, music: true, video: true });
}

#[test]
fn single_flags_select_their_own_kind() {
    let sel = effective_selection(false, true, false, false);
    assert_eq!(sel, Selection { cover: false, music: false, video: true });
}

#[test]
fn selecting_all_plans_exactly_three_fetches() {
    let sel = effective_selection(true, false, false, false);
    let tasks = plan_downloads(&Ok(link()), sel);
    assert_eq!(tasks.len(), 3);
    assert_eq!(tasks[0].kind, AssetKind::Cover);
    assert_eq!(tasks[0].url, "http://c");
    assert_eq!(tasks[1].kind, AssetKind::Audio);
    assert_eq!(tasks[1].url, "http://m");
    assert_eq!(tasks[2].kind, AssetKind::Video);
    assert_eq!(tasks[2].url, "http://v");
    assert!(tasks.iter().all(|t| t.aweme_id == "77"));
}

#[test]
fn selecting_nothing_plans_no_fetch() {
    let sel = effective_selection(false, false, false, false);
    let tasks = plan_downloads(&Ok(link()), sel);
    assert_eq!(tasks.len(), 0);
}

#[test]
fn a_failed_resolution_plans_no_fetch() {
    // A network or parse failure during resolution must prevent every fetch
    // attempt, whatever was selected.
    let sel = effective_selection(true, false, false, false);
    let tasks = plan_downloads(&Err(ResolveError::InvalidJson), sel);
    assert_eq!(tasks.len(), 0);
}
