use douyin_dl::fetcher::{asset_filename, assemble_stream, AssetKind};
use douyin_dl::plan::{effective_selection, plan_downloads};
use douyin_dl::resolver::{extract_id, finish_resolution};

// The whole pipeline on fixed stand-ins for the network: a canonical URL,
// a metadata body, and three byte streams of 100, 200 and 300 bytes.
#[test]
fn share_link_to_three_files() {
    let canonical = "https://www.iesdouyin.com/share/video/1234567890123456789?foo=bar";
    let id = extract_id(canonical);
    assert_eq!(id, "1234567890123456789");

    let body = "{\"item_list\":[{\"video\":{\"origin_cover\":{\"url_list\":[\"http://c\"]},\
                \"play_addr\":{\"url_list\":[\"http://v\"]}},\
                \"music\":{\"play_url\":{\"url_list\":[\"http://m\"]}}}]}";
    let link = finish_resolution(&id, body).unwrap();

    let sel = effective_selection(true, false, false, false);
    let tasks = plan_downloads(&Ok(link), sel);
    assert_eq!(tasks.len(), 3);

    let sizes = [100usize, 200, 300];
    let expected_names = [
        "cover_1234567890123456789.jpeg",
        "music_1234567890123456789.m4a",
        "video_1234567890123456789.mp4",
    ];
    for (i, task) in tasks.iter().enumerate() {
        let chunks = vec![vec![0u8; sizes[i] / 2], vec![0u8; sizes[i] - sizes[i] / 2]];
        let file = assemble_stream(Vec::new(), &chunks);
        assert_eq!(file.len(), sizes[i]);
        assert_eq!(asset_filename(task.kind, &task.aweme_id), expected_names[i]);
    }
    assert_eq!(tasks[0].kind, AssetKind::Cover);
    assert_eq!(tasks[1].kind, AssetKind::Audio);
    assert_eq!(tasks[2].kind, AssetKind::Video);
}
