use channel_surfer::category::{
    any_contains, assign_channel_and_callsign, assign_channel_lowered, categorize_content,
    category_for_text, Category,
};
use channel_surfer::schedule::{
    byte_hash32, byte_hash8, calculate_program_times, determine_day_of_week,
    parse_duration_minutes,
};

#[test]
fn day_of_week_follows_byte_sum() {
    assert_eq!(byte_hash32("x"), 120);
    assert_eq!(determine_day_of_week("x"), "Tuesday");
    assert_eq!(determine_day_of_week(""), "Monday");
    // 'a' + 'b' = 195, 195 % 7 = 6
    assert_eq!(determine_day_of_week("ab"), "Sunday");
}

#[test]
fn schedule_is_repeatable() {
    for id in ["x", "ab", "some-archive-item_1975", "\u{e9}t\u{e9}"] {
        assert_eq!(determine_day_of_week(id), determine_day_of_week(id));
        assert_eq!(
            calculate_program_times("45 min", id),
            calculate_program_times("45 min", id)
        );
        assert_eq!(
            assign_channel_and_callsign("Entertainment", id, &[]),
            assign_channel_and_callsign("Entertainment", id, &[])
        );
    }
}

#[test]
fn hashes_wrap() {
    let s = "\u{ff}".repeat(300);
    let bytes = s.as_bytes();
    let total: u64 = bytes.iter().map(|b| *b as u64).sum();
    assert_eq!(byte_hash8(&s) as u64, total % 256);
    assert_eq!(byte_hash32(&s) as u64, total % (1u64 << 32));
}

#[test]
fn program_times_by_block() {
    // hash("x") = 120; a one-hour block leaves 8 starts: 120 % 8 = 0
    assert_eq!(
        calculate_program_times("45 min", "x"),
        ("6:00 PM".to_string(), "7:00 PM".to_string())
    );
    // hash("ab") = 195; half-hour block leaves 9 starts: 195 % 9 = 6
    assert_eq!(
        calculate_program_times("20 min", "ab"),
        ("9:00 PM".to_string(), "9:30 PM".to_string())
    );
    // unparseable duration counts as thirty minutes
    assert_eq!(
        calculate_program_times("00:30:00", "ab"),
        ("9:00 PM".to_string(), "9:30 PM".to_string())
    );
    // two-hour block: 6 starts, 195 % 6 = 3
    assert_eq!(
        calculate_program_times("  150 minutes", "ab"),
        ("7:30 PM".to_string(), "9:30 PM".to_string())
    );
    // 90 minutes: 7 starts, 195 % 7 = 6, ends three slots later
    assert_eq!(
        calculate_program_times("90", "ab"),
        ("9:00 PM".to_string(), "10:30 PM".to_string())
    );
}

#[test]
fn duration_minutes_parse() {
    assert_eq!(parse_duration_minutes("120 min"), 120);
    assert_eq!(parse_duration_minutes("+61"), 61);
    assert_eq!(parse_duration_minutes("1:30:00"), 30);
    assert_eq!(parse_duration_minutes(""), 30);
    assert_eq!(parse_duration_minutes("\t 7\u{a0}min"), 7);
    assert_eq!(parse_duration_minutes("99999999999999999999999"), 30);
}

#[test]
fn news_wins_over_comedy() {
    assert_eq!(categorize_content("Evening News Comedy Hour", ""), "News");
    assert_eq!(categorize_content("comedy", "the latest news"), "News");
}

#[test]
fn categories_in_order() {
    assert_eq!(categorize_content("The Big Game", "championship"), "Sports");
    assert_eq!(categorize_content("Vintage Commercial", ""), "Commercial");
    assert_eq!(categorize_content("Cartoon Time", ""), "Cartoon");
    assert_eq!(categorize_content("Wildlife", "An educational documentary"), "Documentary");
    assert_eq!(categorize_content("Nosferatu", "silent horror movie"), "Movie");
    assert_eq!(categorize_content("Lucy", "episode 4"), "TVShow");
    assert_eq!(categorize_content("Lucy", "love"), "Entertainment");
    assert_eq!(categorize_content("", ""), "Entertainment");
    assert_eq!(category_for_text("weather update"), Category::News);
    assert_eq!(Category::TvShow.label(), "TVShow");
}

#[test]
fn channel_table() {
    assert_eq!(
        assign_channel_and_callsign("News", "CBS Evening", &[]),
        (19, "WCIO".to_string())
    );
    assert_eq!(assign_channel_and_callsign("News", "ABC", &[]), (5, "WEWS".to_string()));
    assert_eq!(assign_channel_and_callsign("News", "nbc", &[]), (3, "WKYC".to_string()));
    assert_eq!(assign_channel_and_callsign("Sports", "Fox News", &[]), (8, "WJKW".to_string()));
    assert_eq!(assign_channel_and_callsign("News", "Someone", &[]), (5, "WEWS".to_string()));
    assert_eq!(assign_channel_and_callsign("Movie", "x", &[]), (4, "WUAB".to_string()));
    let tags = vec!["Classic MOVIES".to_string()];
    assert_eq!(assign_channel_and_callsign("Cartoon", "x", &tags), (4, "WUAB".to_string()));
    assert_eq!(assign_channel_and_callsign("Cartoon", "PBS", &[]), (25, "WVIZ".to_string()));
    let tags = vec!["Comedy".to_string()];
    assert_eq!(assign_channel_and_callsign("TV Show", "x", &tags), (8, "WJKW".to_string()));
    assert_eq!(assign_channel_and_callsign("TV Show Series", "x", &[]), (3, "WKYC".to_string()));
    assert_eq!(assign_channel_and_callsign("Kids", "x", &[]), (42, "WKID".to_string()));
    assert_eq!(assign_channel_and_callsign("Sports", "x", &[]), (35, "ESPN".to_string()));
}

#[test]
fn fallback_channel_from_creator_bytes() {
    // hash8("x") = 120: channel 120 % 40 + 2, letters 120 % 26, 60 % 26, 40 % 26
    assert_eq!(
        assign_channel_and_callsign("Entertainment", "x", &[]),
        (2, "WQIO".to_string())
    );
    // the fallback reads the raw bytes, not the lower-cased ones
    assert_eq!(
        assign_channel_lowered("entertainment", "x", &vec![], "X"),
        (10, "WKSD".to_string())
    );
}

#[test]
fn fallback_channel_range() {
    for i in 0..1000 {
        let creator = format!("creator-{}", i);
        let (channel, callsign) = assign_channel_and_callsign("Entertainment", &creator, &[]);
        assert!((2..=41).contains(&channel), "{} gave {}", creator, channel);
        assert_eq!(callsign.chars().count(), 4);
        assert!(callsign.starts_with('W'));
        assert!(callsign.chars().skip(1).all(|c| c.is_ascii_uppercase()));
    }
}

#[test]
fn keywords_match_in_any_case() {
    assert_eq!(categorize_content("NEWS AT NINE", ""), "News");
    assert_eq!(categorize_content("", "A DOCUMENTARY"), "Documentary");
    assert_eq!(assign_channel_and_callsign("KIDS", "x", &[]), (42, "WKID".to_string()));
}

#[test]
fn tag_search() {
    let tags = vec!["holiday special".to_string(), "music".to_string()];
    assert!(any_contains(&tags, "special"));
    assert!(!any_contains(&tags, "SPECIAL"));
    assert!(!any_contains(&vec![], "special"));
}

#[test]
fn every_channel_is_in_range() {
    let categories = ["News", "Movie", "Documentary", "Comedy", "Drama", "Kids", "Sports", "Entertainment"];
    let creators = ["CBS", "ABC", "NBC", "Fox", "PBS", "Discovery", "someone", ""];
    for cat in categories {
        for creator in creators {
            let (channel, callsign) = assign_channel_and_callsign(cat, creator, &[]);
            assert!((2..=42).contains(&channel), "{}/{} gave {}", cat, creator, channel);
            assert_eq!(callsign.len(), 4);
            assert!(callsign.chars().all(|c| c.is_ascii_uppercase()));
        }
    }
}
