//! Program categories and the channel table keyed on them.

use vstd::prelude::*;
use vstd::string::StringSliceAdditionalSpecFns;
use crate::schedule::{byte_hash8, hash8};
use crate::text::{chars_of, contains, has_sub, lower_of, lowercase, owned};

verus! {

/// The kind of program that an item is listed as.
#[derive(Clone, Copy, Debug, PartialEq, Eq, Structural)]
pub enum Category {
    News,
    Sports,
    Commercial,
    Cartoon,
    Documentary,
    Movie,
    TvShow,
    Entertainment,
}

/// The label under which a category is shown and stored.
pub open spec fn category_label(c: Category) -> Seq<char> {
    match c {
        Category::News => "News"@,
        Category::Sports => "Sports"@,
        Category::Commercial => "Commercial"@,
        Category::Cartoon => "Cartoon"@,
        Category::Documentary => "Documentary"@,
        Category::Movie => "Movie"@,
        Category::TvShow => "TVShow"@,
        Category::Entertainment => "Entertainment"@,
    }
}

impl Category {
    /// The label of this category.
    pub fn label(&self) -> (r: String)
        ensures
            r@ == category_label(*self),
    {
        match self {
            Category::News => owned("News"),
            Category::Sports => owned("Sports"),
            Category::Commercial => owned("Commercial"),
            Category::Cartoon => owned("Cartoon"),
            Category::Documentary => owned("Documentary"),
            Category::Movie => owned("Movie"),
            Category::TvShow => owned("TVShow"),
            Category::Entertainment => owned("Entertainment"),
        }
    }
}

/// The first keyword group that lower-cased text `t` hits, in the order
/// news, sports, commercial, cartoon, documentary, movie, TV show; the
/// default is entertainment.
pub open spec fn category_of(t: Seq<char>) -> Category {
    if has_sub(t, "news"@) || has_sub(t, "report"@) || has_sub(t, "update"@) {
        Category::News
    } else if has_sub(t, "sport"@) || has_sub(t, "game"@) || has_sub(t, "match"@) || has_sub(
        t,
        "championship"@,
    ) {
        Category::Sports
    } else if has_sub(t, "commercial"@) || has_sub(t, "ad"@) || has_sub(t, "advertisement"@) {
        Category::Commercial
    } else if has_sub(t, "cartoon"@) || has_sub(t, "animation"@) {
        Category::Cartoon
    } else if has_sub(t, "documentary"@) || has_sub(t, "educational"@) {
        Category::Documentary
    } else if has_sub(t, "movie"@) || has_sub(t, "film"@) {
        Category::Movie
    } else if has_sub(t, "show"@) || has_sub(t, "series"@) || has_sub(t, "episode"@) {
        Category::TvShow
    } else {
        Category::Entertainment
    }
}

/// The text that the categorizer reads: title and description joined by one
/// space, then lower-cased.
pub open spec fn category_text(title: Seq<char>, description: Seq<char>) -> Seq<char> {
    lower_of(title + " "@ + description)
}

/// The category of lower-cased text, by the first keyword group it hits.
pub fn category_for_text(text: &str) -> (r: Category)
    ensures
        r == category_of(text@),
{
    let t = chars_of(text);
    if contains(&t, "news") || contains(&t, "report") || contains(&t, "update") {
        Category::News
    } else if contains(&t, "sport") || contains(&t, "game") || contains(&t, "match") || contains(
        &t,
        "championship",
    ) {
        Category::Sports
    } else if contains(&t, "commercial") || contains(&t, "ad") || contains(&t, "advertisement") {
        Category::Commercial
    } else if contains(&t, "cartoon") || contains(&t, "animation") {
        Category::Cartoon
    } else if contains(&t, "documentary") || contains(&t, "educational") {
        Category::Documentary
    } else if contains(&t, "movie") || contains(&t, "film") {
        Category::Movie
    } else if contains(&t, "show") || contains(&t, "series") || contains(&t, "episode") {
        Category::TvShow
    } else {
        Category::Entertainment
    }
}

/// The category label of a program from its title and description.
pub fn categorize_content(title: &str, description: &str) -> (r: String)
    ensures
        r@ == category_label(category_of(category_text(title@, description@))),
{
    let mut combined = owned(title);
    combined.append(" ");
    combined.append(description);
    let lowered = lowercase(combined.as_str());
    category_for_text(lowered.as_str()).label()
}

/// The character views of a sequence of strings.
pub open spec fn views(v: Seq<String>) -> Seq<Seq<char>> {
    v.map_values(|t: String| t@)
}

/// The lower-cased character views of a sequence of strings.
pub open spec fn lowered_views(v: Seq<String>) -> Seq<Seq<char>> {
    v.map_values(|t: String| lower_of(t@))
}

/// Some string of `tags` holds `kw`.
pub open spec fn any_has_sub(tags: Seq<Seq<char>>, kw: Seq<char>) -> bool {
    exists|i: int| 0 <= i < tags.len() && has_sub(#[trigger] tags[i], kw)
}

/// The capital letter `n` places after `A`.
pub open spec fn letter(n: nat) -> char {
    (('A' as nat) + n) as char
}

/// The channel and callsign that an 8-bit byte sum of the creator selects.
pub open spec fn fallback_channel(h: nat) -> (u8, Seq<char>) {
    (
        ((h % 40) + 2) as u8,
        seq!['W', letter(h % 26), letter((h / 2) % 26), letter((h / 3) % 26)],
    )
}

/// The channel table, first match wins: news (split by network), movie,
/// documentary, comedy, drama, kids, sports; otherwise the channel that the
/// byte sum of the raw creator string picks. `cat`, `creator` and `tags` are
/// lower-cased.
pub open spec fn channel_rule(
    cat: Seq<char>,
    creator: Seq<char>,
    tags: Seq<Seq<char>>,
    creator_bytes: Seq<u8>,
) -> (u8, Seq<char>) {
    if has_sub(cat, "news"@) || has_sub(creator, "news"@) {
        if has_sub(creator, "cbs"@) {
            (19, "WCIO"@)
        } else if has_sub(creator, "abc"@) {
            (5, "WEWS"@)
        } else if has_sub(creator, "nbc"@) {
            (3, "WKYC"@)
        } else if has_sub(creator, "fox"@) {
            (8, "WJKW"@)
        } else {
            (5, "WEWS"@)
        }
    } else if has_sub(cat, "movie"@) || has_sub(cat, "film"@) || any_has_sub(tags, "movie"@) {
        (4, "WUAB"@)
    } else if has_sub(cat, "documentary"@) || has_sub(creator, "pbs"@) || has_sub(
        creator,
        "discovery"@,
    ) {
        (25, "WVIZ"@)
    } else if has_sub(cat, "comedy"@) || has_sub(cat, "sitcom"@) || any_has_sub(tags, "comedy"@) {
        (8, "WJKW"@)
    } else if has_sub(cat, "drama"@) || has_sub(cat, "series"@) {
        (3, "WKYC"@)
    } else if has_sub(cat, "kids"@) || has_sub(cat, "animation"@) || has_sub(cat, "children"@) {
        (42, "WKID"@)
    } else if has_sub(cat, "sport"@) {
        (35, "ESPN"@)
    } else {
        fallback_channel(hash8(creator_bytes))
    }
}

/// Whether some string of `tags` holds `kw`.
pub fn any_contains(tags: &Vec<String>, kw: &str) -> (r: bool)
    ensures
        r == any_has_sub(views(tags@), kw@),
{
    let mut i: usize = 0;
    while i < tags.len()
        invariant
            i <= tags.len(),
            forall|k: int| 0 <= k < i ==> !has_sub(#[trigger] views(tags@)[k], kw@),
        decreases tags.len() - i,
    {
        let t = chars_of(tags[i].as_str());
        if contains(&t, kw) {
            assert(has_sub(views(tags@)[i as int], kw@));
            return true;
        }
        i = i + 1;
    }
    false
}

fn letter_at(n: u8) -> (c: char)
    requires
        n < 26,
    ensures
        c == letter(n as nat),
{
    (n + 65u8) as char
}

/// The channel and callsign from already lower-cased category, creator and
/// tags, with the raw creator string for the fallback byte sum.
pub fn assign_channel_lowered(
    category: &str,
    creator: &str,
    tags: &Vec<String>,
    raw_creator: &str,
) -> (r: (u8, String))
    ensures
        (r.0, r.1@) == channel_rule(category@, creator@, views(tags@), raw_creator.spec_bytes()),
        valid_channel((r.0, r.1@)),
{
    proof {
        lemma_channel_rule_valid(category@, creator@, views(tags@), raw_creator.spec_bytes());
    }
    let cat = chars_of(category);
    let cre = chars_of(creator);
    if contains(&cat, "news") || contains(&cre, "news") {
        if contains(&cre, "cbs") {
            return (19, owned("WCIO"));
        }
        if contains(&cre, "abc") {
            return (5, owned("WEWS"));
        }
        if contains(&cre, "nbc") {
            return (3, owned("WKYC"));
        }
        if contains(&cre, "fox") {
            return (8, owned("WJKW"));
        }
        return (5, owned("WEWS"));
    } else if contains(&cat, "movie") || contains(&cat, "film") || any_contains(tags, "movie") {
        return (4, owned("WUAB"));
    } else if contains(&cat, "documentary") || contains(&cre, "pbs") || contains(
        &cre,
        "discovery",
    ) {
        return (25, owned("WVIZ"));
    } else if contains(&cat, "comedy") || contains(&cat, "sitcom") || any_contains(tags, "comedy") {
        return (8, owned("WJKW"));
    } else if contains(&cat, "drama") || contains(&cat, "series") {
        return (3, owned("WKYC"));
    } else if contains(&cat, "kids") || contains(&cat, "animation") || contains(&cat, "children") {
        return (42, owned("WKID"));
    } else if contains(&cat, "sport") {
        return (35, owned("ESPN"));
    }
    let h = byte_hash8(raw_creator);
    let channel = (h % 40) + 2;
    let mut callsign = owned("W");
    callsign.push(letter_at(h % 26));
    callsign.push(letter_at((h / 2) % 26));
    callsign.push(letter_at((h / 3) % 26));
    proof {
        reveal_strlit("W");
        assert(callsign@ =~= fallback_channel(h as nat).1);
    }
    (channel, callsign)
}

/// The channel number and station callsign of a program, from its category,
/// its creator and its tags, each compared without regard to case.
pub fn assign_channel_and_callsign(category: &str, creator: &str, tags: &[String]) -> (r: (
    u8,
    String,
))
    ensures
        (r.0, r.1@) == channel_rule(
            lower_of(category@),
            lower_of(creator@),
            lowered_views(tags@),
            creator.spec_bytes(),
        ),
        valid_channel((r.0, r.1@)),
{
    let cat = lowercase(category);
    let cre = lowercase(creator);
    let mut lowered: Vec<String> = Vec::new();
    let mut i: usize = 0;
    while i < tags.len()
        invariant
            i <= tags.len(),
            lowered@.len() == i,
            forall|k: int| 0 <= k < i ==> (#[trigger] lowered@[k])@ == lower_of(tags@[k]@),
        decreases tags.len() - i,
    {
        lowered.push(lowercase(tags[i].as_str()));
        i = i + 1;
    }
    assert(views(lowered@) =~= lowered_views(tags@));
    assign_channel_lowered(cat.as_str(), cre.as_str(), &lowered, creator)
}

/// A channel number between 2 and 42 with a callsign of four capital letters.
pub open spec fn valid_channel(c: (u8, Seq<char>)) -> bool {
    &&& 2 <= c.0 <= 42
    &&& c.1.len() == 4
    &&& forall|i: int| 0 <= i < 4 ==> 'A' <= #[trigger] c.1[i] <= 'Z'
}

/// Every channel that the table or its fallback gives is between 2 and 42
/// and has a callsign of four capital letters.
pub proof fn lemma_channel_rule_valid(
    cat: Seq<char>,
    creator: Seq<char>,
    tags: Seq<Seq<char>>,
    creator_bytes: Seq<u8>,
)
    ensures
        valid_channel(channel_rule(cat, creator, tags, creator_bytes)),
{
    reveal_strlit("WCIO");
    reveal_strlit("WEWS");
    reveal_strlit("WKYC");
    reveal_strlit("WJKW");
    reveal_strlit("WUAB");
    reveal_strlit("WVIZ");
    reveal_strlit("WKID");
    reveal_strlit("ESPN");
}

/// Some row of the channel table applies to the lower-cased category,
/// creator and tags.
pub open spec fn table_hit(cat: Seq<char>, creator: Seq<char>, tags: Seq<Seq<char>>) -> bool {
    ||| has_sub(cat, "news"@) || has_sub(creator, "news"@)
    ||| has_sub(cat, "movie"@) || has_sub(cat, "film"@) || any_has_sub(tags, "movie"@)
    ||| has_sub(cat, "documentary"@) || has_sub(creator, "pbs"@) || has_sub(creator, "discovery"@)
    ||| has_sub(cat, "comedy"@) || has_sub(cat, "sitcom"@) || any_has_sub(tags, "comedy"@)
    ||| has_sub(cat, "drama"@) || has_sub(cat, "series"@)
    ||| has_sub(cat, "kids"@) || has_sub(cat, "animation"@) || has_sub(cat, "children"@)
    ||| has_sub(cat, "sport"@)
}

/// When no row of the channel table applies, the channel lies between 2
/// and 41 and the callsign is four letters led by `W`, whatever the bytes of
/// the creator.
pub proof fn lemma_fallback_channel_range(
    cat: Seq<char>,
    creator: Seq<char>,
    tags: Seq<Seq<char>>,
    creator_bytes: Seq<u8>,
)
    requires
        !table_hit(cat, creator, tags),
    ensures
        channel_rule(cat, creator, tags, creator_bytes) == fallback_channel(hash8(creator_bytes)),
        2 <= channel_rule(cat, creator, tags, creator_bytes).0 <= 41,
        channel_rule(cat, creator, tags, creator_bytes).1.len() == 4,
        channel_rule(cat, creator, tags, creator_bytes).1[0] == 'W',
        forall|i: int|
            1 <= i < 4 ==> 'A' <= #[trigger] channel_rule(cat, creator, tags, creator_bytes).1[i]
                <= 'Z',
{
}

/// News is tested first: any text that mentions "news" is news, whatever
/// else it mentions (comedy, sports, film, ...).
pub proof fn lemma_news_takes_priority(title: Seq<char>, description: Seq<char>)
    requires
        has_sub(category_text(title, description), "news"@),
    ensures
        category_of(category_text(title, description)) == Category::News,
        category_label(category_of(category_text(title, description))) == "News"@,
{
}

} // verus!
