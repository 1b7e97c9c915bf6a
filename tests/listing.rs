use channel_surfer::guide::TvGuideRecord;
use channel_surfer::listing::{guide_listing, text_le};

fn rec(channel: u8, callsign: &str, start: &str, title: &str, duration: &str) -> TvGuideRecord {
    TvGuideRecord {
        title: title.to_string(),
        station: String::new(),
        description: String::new(),
        year: String::new(),
        duration: duration.to_string(),
        category: "Entertainment".to_string(),
        channel_number: channel,
        timeslot: String::new(),
        day_of_week: "Monday".to_string(),
        start_time: start.to_string(),
        end_time: String::new(),
        thumbnail_url: String::new(),
        tags: vec![],
        original_id: String::new(),
        download_date: 0,
        station_callsign: callsign.to_string(),
        is_featured: false,
    }
}

#[test]
fn grid_groups_by_channel_and_sorts_by_start() {
    let recs = vec![
        rec(8, "WJKW", "9:00 PM", "Late", "60 min"),
        rec(3, "WKYC", "7:00 PM", "Only", ""),
        rec(8, "WXXX", "10:00 PM", "A title that is far longer than twenty-eight characters", "120 min"),
        rec(8, "WJKW", "6:30 PM", "Early", "30"),
        rec(8, "WJKW", "9:00 PM", "Late too", "45"),
    ];
    let rows = guide_listing(&recs);
    assert_eq!(rows.len(), 2);
    assert_eq!(rows[0].channel, 3);
    assert_eq!(rows[0].callsign, "WKYC");
    assert_eq!(rows[0].programs.len(), 1);
    assert_eq!(rows[0].programs[0].duration.as_deref(), Some("30m"));

    let ch8 = &rows[1];
    assert_eq!(ch8.channel, 8);
    // the callsign of the channel's first entry
    assert_eq!(ch8.callsign, "WJKW");
    // start times compare as text: "10:00 PM" < "6:30 PM" < "9:00 PM"
    assert_eq!(ch8.programs.len(), 3);
    assert_eq!(ch8.programs[0].start_time, "10:00 PM");
    assert_eq!(ch8.programs[0].title, "A title that is far longer t");
    assert_eq!(ch8.programs[0].duration.as_deref(), Some("120m"));
    assert_eq!(ch8.programs[1].title, "Early");
    assert_eq!(ch8.programs[1].duration.as_deref(), Some("30m"));
    // equal start times keep their order; only two programs show a duration
    assert_eq!(ch8.programs[2].title, "Late");
    assert_eq!(ch8.programs[2].duration, None);
}

#[test]
fn empty_grid() {
    assert!(guide_listing(&vec![]).is_empty());
}

#[test]
fn text_order() {
    assert!(text_le("", ""));
    assert!(text_le("10:00 PM", "6:00 PM"));
    assert!(!text_le("6:30 PM", "6:00 PM"));
    assert!(text_le("ab", "abc"));
    assert!(!text_le("abc", "ab"));
}
