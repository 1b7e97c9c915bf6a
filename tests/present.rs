use channel_surfer::present::{
    creator_summary, format_size, is_listed_extension, is_playable_extension,
    is_video_extension, is_yes, outcome_message, parse_count,
    parse_menu_choice, parse_selection, search_url, size_summary, DownloadOutcome, MenuChoice,
};

#[test]
fn sizes_for_people() {
    assert_eq!(format_size(0), "0 B");
    assert_eq!(format_size(1023), "1023 B");
    assert_eq!(format_size(1024), "1.0 KB");
    assert_eq!(format_size(1536), "1.5 KB");
    // 1.25 KB is a tie and goes to the even digit, as `{:.1}` does
    assert_eq!(format_size(1280), "1.2 KB");
    assert_eq!(format_size(1331), format!("{:.1} KB", 1331.0f64 / 1024.0));
    assert_eq!(format_size(104857600), "100.0 MB");
    assert_eq!(format_size(1073741824), "1.00 GB");
    assert_eq!(format_size(5 * 1073741824 + 123456789), format!("{:.2} GB", (5.0f64 * 1073741824.0 + 123456789.0) / 1073741824.0));
    assert_eq!(size_summary(None), "~15MB (est.)");
    assert_eq!(size_summary(Some(2048)), "2.0 KB");
}

#[test]
fn creator_lines() {
    assert_eq!(creator_summary(&vec![]), "Unknown");
    assert_eq!(creator_summary(&vec!["A".to_string()]), "A");
    assert_eq!(creator_summary(&vec!["A".to_string(), "B".to_string()]), "A et al");
}

#[test]
fn menu_choices() {
    assert_eq!(parse_menu_choice(" 1\n", 0), MenuChoice::StartServer);
    assert_eq!(parse_menu_choice("2", 0), MenuChoice::ListVideos);
    assert_eq!(parse_menu_choice("3", 0), MenuChoice::Search);
    assert_eq!(parse_menu_choice("4", 0), MenuChoice::ClearVideos);
    assert_eq!(parse_menu_choice("5", 0), MenuChoice::Exit);
    assert_eq!(parse_menu_choice("6", 0), MenuChoice::Invalid);
    assert_eq!(parse_menu_choice("6", 2), MenuChoice::ShowDownloads);
    assert_eq!(parse_menu_choice("12", 2), MenuChoice::Invalid);
    assert!(is_yes(" Y\n"));
    assert!(is_yes("y"));
    assert!(!is_yes("yes"));
    assert!(!is_yes(""));
}

#[test]
fn numbers_from_answers() {
    assert_eq!(parse_count("25\n", 10), 25);
    assert_eq!(parse_count("", 10), 10);
    assert_eq!(parse_count("many", 10), 10);
    assert_eq!(parse_selection("2\n", 3), Some(1));
    assert_eq!(parse_selection("0", 3), None);
    assert_eq!(parse_selection("4", 3), None);
    assert_eq!(parse_selection("", 3), None);
}

#[test]
fn search_address() {
    assert_eq!(
        search_url("old news reel", 10, "movies"),
        "https://archive.org/advancedsearch.php?q=mediatype%3Amovies+AND+old+news+reel&fl[]=identifier,title,description,mediatype,year,creator,subject,item_size,downloads&sort[]=downloads+desc&rows=10&page=1&output=json"
    );
}

#[test]
fn outcome_lines() {
    assert_eq!(outcome_message("a", &DownloadOutcome::Success), "\u{2713} Download completed: a");
    assert_eq!(
        outcome_message("a", &DownloadOutcome::Failure("no video".to_string())),
        "\u{2717} Download failed for a: no video"
    );
    assert_eq!(
        outcome_message("a", &DownloadOutcome::TaskAborted("panicked".to_string())),
        "\u{2717} Download task failed for a: panicked"
    );
}

#[test]
fn video_extensions() {
    assert!(is_video_extension("MP4"));
    assert!(is_video_extension("webm"));
    assert!(!is_video_extension("json"));
    assert!(!is_video_extension(""));
}

#[test]
fn listed_and_playable_extensions() {
    assert!(is_listed_extension("Mp4"));
    assert!(!is_listed_extension("mkv"));
    assert!(is_playable_extension("mkv"));
    assert!(!is_playable_extension("MKV"));
    assert!(!is_playable_extension("webm"));
}
