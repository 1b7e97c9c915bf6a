use channel_surfer::guide::{
    artifact_filename, clean_title, download_url, extract_tags, file_extension, is_featured,
    metadata_url, plan_download, sidecar_filename, synthesize, thumbnail_url, DownloadError,
};
use channel_surfer::item::{decode_item, find_video_duration, select_video_file, FileEntry, ItemMetadata};
use channel_surfer::decode::DecodeError;
use channel_surfer::json::Json;

fn s(x: &str) -> Json {
    Json::Str(x.to_string())
}

fn obj(fields: Vec<(&str, Json)>) -> Json {
    Json::Object(fields.into_iter().map(|(k, v)| (k.to_string(), v)).collect())
}

fn file(name: &str, format: Option<&str>, size: Option<u64>) -> FileEntry {
    FileEntry {
        name: name.to_string(),
        format: format.map(|f| f.to_string()),
        size_bytes: size,
        runtime: None,
        length: None,
    }
}

fn metadata(identifier: &str) -> ItemMetadata {
    ItemMetadata {
        identifier: identifier.to_string(),
        title: None,
        year: None,
        description: None,
        creator: None,
        subject: None,
        collection: None,
        date: None,
    }
}

#[test]
fn illegal_characters_become_underscores() {
    let title = "a/b:c?d*e\"f<g>h|i\\j";
    let cleaned = clean_title(title);
    assert_eq!(cleaned, "a_b_c_d_e_f_g_h_i_j");
    let name = artifact_filename(Some(title), "item1", "dir/video.mp4");
    assert_eq!(name, "a_b_c_d_e_f_g_h_i_j, item1.ia.mp4");
    for c in ['/', ':', '?', '*', '"', '<', '>', '|', '\\'] {
        assert!(!name.contains(c));
    }
    assert_eq!(clean_title("plain title"), "plain title");
    // the identifier and the extension are cleaned too
    assert_eq!(artifact_filename(None, "a/b", "clip.m:v"), "a_b, a_b.ia.m_v");
    assert_eq!(sidecar_filename(Some("t"), "x|y"), "t, x_y.ia.json");
}

#[test]
fn stored_names() {
    assert_eq!(artifact_filename(None, "item1", "a.webm"), "item1, item1.ia.webm");
    assert_eq!(sidecar_filename(Some("T: x"), "item1"), "T_ x, item1.ia.json");
    assert_eq!(file_extension("dir/movie.final.MP4"), "MP4");
    assert_eq!(file_extension("noext"), "mp4");
    assert_eq!(file_extension(".hidden"), "mp4");
    assert_eq!(file_extension("a.b/c"), "mp4");
    assert_eq!(file_extension("clip."), "");
}

#[test]
fn addresses() {
    assert_eq!(metadata_url("abc"), "https://archive.org/metadata/abc");
    assert_eq!(download_url("abc", "x y.mp4"), "https://archive.org/download/abc/x y.mp4");
    assert_eq!(thumbnail_url("abc"), "https://archive.org/services/img/abc");
}

#[test]
fn tags_are_split_trimmed_and_nonempty() {
    assert_eq!(
        extract_tags(" a, b,,  c ,\t"),
        vec!["a".to_string(), "b".to_string(), "c".to_string()]
    );
    assert!(extract_tags("").is_empty());
    assert_eq!(extract_tags("one"), vec!["one".to_string()]);
}

#[test]
fn featured_programs() {
    assert!(is_featured(61, &vec![]));
    assert!(!is_featured(60, &vec![]));
    assert!(is_featured(10, &vec!["Holiday SPECIAL".to_string()]));
    assert!(!is_featured(10, &vec!["regular".to_string()]));
}

#[test]
fn video_file_choice() {
    let files = vec![
        file("notes.txt", None, Some(900)),
        file("a.mp4", None, Some(100)),
        file("b.bin", Some("Matroska"), Some(300)),
        file("c.avi", Some("Text"), Some(5000)),
        file("d.mov", None, Some(300)),
    ];
    assert_eq!(select_video_file(&files), Some(2));
    let no_sizes = vec![file("x.txt", None, None), file("a.flv", None, None), file("b.mkv", None, None)];
    assert_eq!(select_video_file(&no_sizes), Some(1));
    assert_eq!(select_video_file(&vec![file("x.txt", None, None)]), None);
    assert_eq!(select_video_file(&vec![]), None);
}

#[test]
fn duration_from_first_mp4() {
    let mut a = file("a.ogv", None, None);
    a.runtime = Some("10 min".to_string());
    let mut b = file("b.mp4", None, None);
    b.length = Some("42 min".to_string());
    let mut c = file("c.mp4", None, None);
    c.runtime = Some("50 min".to_string());
    assert_eq!(find_video_duration(&vec![a, b, c]), "42 min");
    assert_eq!(find_video_duration(&vec![file("x.mp4", None, None)]), "00:30:00");
}

#[test]
fn item_response_decoding() {
    let root = obj(vec![
        (
            "files",
            Json::Array(vec![
                obj(vec![("name", s("clip.mp4")), ("size", s("104857600")), ("length", s("95 min"))]),
                obj(vec![("format", s("Thumbnail"))]),
                obj(vec![("name", s("meta.xml")), ("size", s("n/a"))]),
            ]),
        ),
        (
            "metadata",
            obj(vec![
                ("identifier", s("clip1")),
                ("title", s("The News Hour")),
                ("year", Json::UInt(1961)),
                ("creator", s("CBS")),
                ("subject", s("news, Special Report")),
            ]),
        ),
    ]);
    let item = decode_item(&root).unwrap();
    assert_eq!(item.files.len(), 2);
    assert_eq!(item.files[0].size_bytes, Some(104857600));
    assert_eq!(item.files[1].size_bytes, None);
    assert_eq!(item.metadata.year.as_deref(), Some("1961"));
    assert!(matches!(decode_item(&obj(vec![("files", Json::Array(vec![]))])), Err(DecodeError::Schema(_))));

    let plan = plan_download("clip1", &item, 1700000000).unwrap();
    assert_eq!(plan.file_index, 0);
    assert_eq!(plan.url, "https://archive.org/download/clip1/clip.mp4");
    assert_eq!(plan.artifact_name, "The News Hour, clip1.ia.mp4");
    assert_eq!(plan.sidecar_name, "The News Hour, clip1.ia.json");
    let r = &plan.record;
    assert_eq!(r.title, "The News Hour");
    assert_eq!(r.station, "CBS");
    assert_eq!(r.description, "");
    assert_eq!(r.year, "1961");
    assert_eq!(r.duration, "95 min");
    assert_eq!(r.category, "News");
    assert_eq!((r.channel_number, r.station_callsign.as_str()), (19, "WCIO"));
    assert_eq!(r.tags, vec!["news".to_string(), "Special Report".to_string()]);
    assert!(r.is_featured);
    assert_eq!(r.original_id, "clip1");
    assert_eq!(r.download_date, 1700000000);
    assert_eq!(r.thumbnail_url, "https://archive.org/services/img/clip1");
    assert_eq!(r.timeslot, format!("{} - {}", r.start_time, r.end_time));
    // byte sum of "clip1" is 473; a two-hour block leaves 6 starts: 473 % 6 = 5
    assert_eq!(r.start_time, "8:30 PM");
    assert_eq!(r.end_time, "10:30 PM");
    // 473 % 7 = 4
    assert_eq!(r.day_of_week, "Friday");
}

#[test]
fn record_defaults() {
    let r = synthesize(&metadata("x"), &vec![], 5);
    assert_eq!(r.title, "x");
    assert_eq!(r.station, "Unknown");
    assert_eq!(r.duration, "00:30:00");
    assert_eq!(r.category, "Entertainment");
    assert!(!r.is_featured);
    assert!(r.tags.is_empty());
    assert_eq!(r.day_of_week, "Tuesday");
}

#[test]
fn no_video_no_plan() {
    let root = obj(vec![
        ("files", Json::Array(vec![obj(vec![("name", s("readme.txt"))])])),
        ("metadata", obj(vec![("identifier", s("empty"))])),
    ]);
    let item = decode_item(&root).unwrap();
    match plan_download("empty", &item, 0) {
        Err(DownloadError::NoArtifactFound(id)) => assert_eq!(id, "empty"),
        Ok(_) => panic!("planned a download without a video"),
    }
}
