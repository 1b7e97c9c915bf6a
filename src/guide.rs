//! The synthesized schedule entry of a downloaded item, and the names under
//! which the item and its entry are stored.

use vstd::prelude::*;
use vstd::utf8::encode_utf8;
use crate::category::{
    any_contains, any_has_sub, assign_channel_and_callsign, categorize_content, category_label,
    category_of, category_text, channel_rule, lowered_views, views,
};
use crate::decode::opt_view;
use crate::item::{
    duration_from, find_video_duration, is_best_video, is_video_file, select_video_file, FileEntry,
    ItemMetadata, ItemRecord,
};
use crate::schedule::{
    calculate_program_times, day_of_week_spec, determine_day_of_week, duration_minutes,
    end_slot, parse_duration_minutes, slot_label, start_slot,
};
use crate::text::{
    char_views, chars_of, lower_of, lowercase, owned, split_commas, split_on_commas,
    string_of, trim_chars, trim_spec,
};

verus! {

/// A schedule entry, stored beside the downloaded file it describes.
#[derive(Clone, Debug)]
pub struct TvGuideRecord {
    pub title: String,
    pub station: String,
    pub description: String,
    pub year: String,
    pub duration: String,
    pub category: String,
    pub channel_number: u8,
    pub timeslot: String,
    pub day_of_week: String,
    pub start_time: String,
    pub end_time: String,
    pub thumbnail_url: String,
    pub tags: Vec<String>,
    pub original_id: String,
    pub download_date: u64,
    pub station_callsign: String,
    pub is_featured: bool,
}

/// The trimmed pieces that are not empty, in order.
pub open spec fn nonempty_trimmed(pieces: Seq<Seq<char>>) -> Seq<Seq<char>>
    decreases pieces.len(),
{
    if pieces.len() == 0 {
        Seq::empty()
    } else if trim_spec(pieces.last()).len() > 0 {
        nonempty_trimmed(pieces.drop_last()).push(trim_spec(pieces.last()))
    } else {
        nonempty_trimmed(pieces.drop_last())
    }
}

/// The tags of a subject line: its comma-separated parts, trimmed, without
/// the empty ones.
pub open spec fn tags_spec(subject: Seq<char>) -> Seq<Seq<char>> {
    nonempty_trimmed(split_commas(subject))
}

/// Splits a subject line into tags.
pub fn extract_tags(subject: &str) -> (r: Vec<String>)
    ensures
        views(r@) == tags_spec(subject@),
{
    let chars = chars_of(subject);
    let pieces = split_on_commas(&chars);
    let ghost pv = char_views(pieces@);
    let mut tags: Vec<String> = Vec::new();
    let mut i: usize = 0;
    while i < pieces.len()
        invariant
            i <= pieces.len(),
            pv == char_views(pieces@),
            pv == split_commas(subject@),
            views(tags@) == nonempty_trimmed(pv.take(i as int)),
        decreases pieces.len() - i,
    {
        assert(pv.take(i + 1).drop_last() =~= pv.take(i as int));
        assert(pv.take(i + 1).last() == pieces@[i as int]@);
        let t = trim_chars(&pieces[i]);
        if t.len() > 0 {
            tags.push(string_of(&t));
            assert(views(tags@) =~= nonempty_trimmed(pv.take(i + 1)));
        }
        i = i + 1;
    }
    assert(pv.take(pieces.len() as int) =~= pv);
    tags
}

/// A program is featured when it runs over an hour or a tag, lower-cased,
/// mentions "special".
pub open spec fn featured_spec(minutes: nat, tags: Seq<String>) -> bool {
    minutes > 60 || any_has_sub(lowered_views(tags), "special"@)
}

/// Whether a program is featured.
pub fn is_featured(minutes: u64, tags: &Vec<String>) -> (r: bool)
    ensures
        r == featured_spec(minutes as nat, tags@),
{
    if minutes > 60 {
        return true;
    }
    let mut lowered: Vec<String> = Vec::new();
    let mut i: usize = 0;
    while i < tags.len()
        invariant
            i <= tags.len(),
            lowered@.len() == i,
            forall|k: int| 0 <= k < i ==> (#[trigger] lowered@[k])@ == lower_of(tags@[k]@),
        decreases tags.len() - i,
    {
        lowered.push(lowercase(tags[i].as_str()));
        i = i + 1;
    }
    assert(views(lowered@) =~= lowered_views(tags@));
    any_contains(&lowered, "special")
}

/// A character that a file name may not hold.
pub open spec fn is_illegal(c: char) -> bool {
    c == '/' || c == '\\' || c == ':' || c == '*' || c == '?' || c == '"' || c == '<' || c == '>'
        || c == '|'
}

/// `t` with every character that a file name may not hold made `_`.
pub open spec fn clean_title_spec(t: Seq<char>) -> Seq<char> {
    t.map_values(|c: char| if is_illegal(c) { '_' } else { c })
}

/// Replaces every character that a file name may not hold by `_`.
pub fn clean_title(title: &str) -> (r: String)
    ensures
        r@ == clean_title_spec(title@),
{
    let chars = chars_of(title);
    let mut out = String::new();
    let mut i: usize = 0;
    while i < chars.len()
        invariant
            i <= chars.len(),
            chars@ == title@,
            out@ == clean_title_spec(chars@.take(i as int)),
        decreases chars.len() - i,
    {
        let c = chars[i];
        let illegal = c == '/' || c == '\\' || c == ':' || c == '*' || c == '?' || c == '"' || c
            == '<' || c == '>' || c == '|';
        if illegal {
            out.push('_');
        } else {
            out.push(c);
        }
        i = i + 1;
        assert(out@ =~= clean_title_spec(chars@.take(i as int)));
    }
    assert(chars@.take(chars.len() as int) =~= chars@);
    out
}

/// The last component of a slash-separated path.
pub open spec fn base_name(name: Seq<char>) -> Seq<char>
    decreases name.len(),
{
    if name.len() == 0 {
        Seq::empty()
    } else if name.last() == '/' {
        Seq::empty()
    } else {
        base_name(name.drop_last()).push(name.last())
    }
}

/// What follows the last dot of `b`, when a dot stands after its first character.
pub open spec fn after_last_dot(b: Seq<char>) -> Option<Seq<char>>
    decreases b.len(),
{
    if b.len() <= 1 {
        None
    } else if b.last() == '.' {
        Some(Seq::empty())
    } else {
        match after_last_dot(b.drop_last()) {
            Some(e) => Some(e.push(b.last())),
            None => None,
        }
    }
}

/// The extension of a file name: what follows the last dot of its last
/// component, when that dot is not the component's first character; `mp4`
/// when there is none.
pub open spec fn extension_spec(name: Seq<char>) -> Seq<char> {
    match after_last_dot(base_name(name)) {
        Some(e) => e,
        None => "mp4"@,
    }
}

/// The extension of a file name, `mp4` when it has none.
pub fn file_extension(name: &str) -> (r: String)
    ensures
        r@ == extension_spec(name@),
{
    let chars = chars_of(name);
    let mut base: Vec<char> = Vec::new();
    let mut i: usize = 0;
    while i < chars.len()
        invariant
            i <= chars.len(),
            chars@ == name@,
            base@ == base_name(chars@.take(i as int)),
        decreases chars.len() - i,
    {
        assert(chars@.take(i + 1).drop_last() =~= chars@.take(i as int));
        if chars[i] == '/' {
            base = Vec::new();
        } else {
            base.push(chars[i]);
        }
        i = i + 1;
    }
    assert(chars@.take(chars.len() as int) =~= chars@);
    let mut ext: Vec<char> = Vec::new();
    let mut j: usize = base.len();
    assert(base@.take(j as int) =~= base@);
    proof {
        match after_last_dot(base@) {
            Some(e) => {
                assert(e + ext@ =~= e);
            },
            None => {},
        }
    }
    while j > 1 && base[j - 1] != '.'
        invariant
            j <= base.len(),
            after_last_dot(base@) == match after_last_dot(base@.take(j as int)) {
                Some(e) => Some(e + ext@),
                None => None,
            },
        decreases j,
    {
        assert(base@.take(j as int).drop_last() =~= base@.take(j - 1));
        let ghost old_ext = ext@;
        ext.insert(0, base[j - 1]);
        proof {
            match after_last_dot(base@.take(j - 1)) {
                Some(e) => {
                    assert(e.push(base@[j - 1]) + old_ext =~= e + ext@);
                },
                None => {},
            }
        }
        j = j - 1;
    }
    assert(base@.take(base.len() as int) =~= base@);
    if j > 1 {
        assert(after_last_dot(base@.take(j as int)) == Some(Seq::<char>::empty()));
        assert(Seq::<char>::empty() + ext@ =~= ext@);
        string_of(&ext)
    } else {
        owned("mp4")
    }
}

/// The name under which an item's file is stored, without the extension:
/// the title (the identifier when there is no title), a comma and the
/// identifier, then `.ia`, every part cleaned.
pub open spec fn artifact_stem_spec(title: Option<Seq<char>>, identifier: Seq<char>) -> Seq<char> {
    let t = match title {
        Some(t) => t,
        None => identifier,
    };
    clean_title_spec(t) + ", "@ + clean_title_spec(identifier) + ".ia"@
}

/// The name under which the file `file_name` of an item is stored: the
/// stem, a dot and the file's cleaned extension.
pub open spec fn artifact_name_spec(
    title: Option<Seq<char>>,
    identifier: Seq<char>,
    file_name: Seq<char>,
) -> Seq<char> {
    artifact_stem_spec(title, identifier) + "."@ + clean_title_spec(extension_spec(file_name))
}

/// The stem shared by the stored file and its schedule entry.
pub fn artifact_stem(title: Option<&str>, identifier: &str) -> (r: String)
    ensures
        r@ == artifact_stem_spec(
            match title {
                Some(t) => Some(t@),
                None => None,
            },
            identifier@,
        ),
{
    let mut out = match title {
        Some(t) => clean_title(t),
        None => clean_title(identifier),
    };
    out.append(", ");
    let id = clean_title(identifier);
    out.append(id.as_str());
    out.append(".ia");
    out
}

/// The name under which the file `file_name` of an item is stored.
pub fn artifact_filename(title: Option<&str>, identifier: &str, file_name: &str) -> (r: String)
    ensures
        r@ == artifact_name_spec(
            match title {
                Some(t) => Some(t@),
                None => None,
            },
            identifier@,
            file_name@,
        ),
{
    let mut out = artifact_stem(title, identifier);
    out.append(".");
    let raw = file_extension(file_name);
    let ext = clean_title(raw.as_str());
    out.append(ext.as_str());
    out
}

/// The name under which the schedule entry of the item is stored.
pub fn sidecar_filename(title: Option<&str>, identifier: &str) -> (r: String)
    ensures
        r@ == artifact_stem_spec(
            match title {
                Some(t) => Some(t@),
                None => None,
            },
            identifier@,
        ) + ".json"@,
{
    let mut out = artifact_stem(title, identifier);
    out.append(".json");
    out
}

/// Cleaning leaves no character that a file name may not hold, changes
/// only those characters, each into `_`, and keeps the length.
pub proof fn lemma_clean_title_is_safe(title: Seq<char>)
    ensures
        clean_title_spec(title).len() == title.len(),
        forall|i: int| 0 <= i < title.len() ==> !is_illegal(#[trigger] clean_title_spec(title)[i]),
        forall|i: int|
            0 <= i < title.len() ==> (#[trigger] clean_title_spec(title)[i] == if is_illegal(
                title[i],
            ) {
                '_'
            } else {
                title[i]
            }),
{
}

/// The name under which a file is stored holds no character that a file
/// name may not hold, whatever the title, identifier and file name.
pub proof fn lemma_artifact_filename_is_safe(
    title: Option<Seq<char>>,
    identifier: Seq<char>,
    file_name: Seq<char>,
)
    ensures
        forall|i: int|
            0 <= i < artifact_name_spec(title, identifier, file_name).len() ==> !is_illegal(
                #[trigger] artifact_name_spec(title, identifier, file_name)[i],
            ),
{
    reveal_strlit(", ");
    reveal_strlit(".ia");
    reveal_strlit(".");
    let t = clean_title_spec(
        match title {
            Some(t) => t,
            None => identifier,
        },
    );
    let id = clean_title_spec(identifier);
    let ext = clean_title_spec(extension_spec(file_name));
    let whole = artifact_name_spec(title, identifier, file_name);
    assert(whole =~= t + ", "@ + id + ".ia"@ + "."@ + ext);
    assert forall|i: int| 0 <= i < whole.len() implies !is_illegal(#[trigger] whole[i]) by {
        let a = t.len();
        let b = a + 2;
        let c = b + id.len();
        let d = c + 3;
        let e = d + 1;
        if i < a {
            assert(whole[i] == t[i]);
        } else if i < b {
            assert(whole[i] == ", "@[i - a]);
        } else if i < c {
            assert(whole[i] == id[i - b]);
        } else if i < d {
            assert(whole[i] == ".ia"@[i - c]);
        } else if i < e {
            assert(whole[i] == '.');
        } else {
            assert(whole[i] == ext[i - e]);
        }
    }
}

/// The text of an optional string, or `d` when there is none.
pub open spec fn opt_or(o: Option<String>, d: Seq<char>) -> Seq<char> {
    match o {
        Some(s) => s@,
        None => d,
    }
}

/// The address of an item's thumbnail image.
pub open spec fn thumbnail_url_spec(identifier: Seq<char>) -> Seq<char> {
    "https://archive.org/services/img/"@ + identifier
}

/// The address of an item's thumbnail image.
pub fn thumbnail_url(identifier: &str) -> (r: String)
    ensures
        r@ == thumbnail_url_spec(identifier@),
{
    let mut out = owned("https://archive.org/services/img/");
    out.append(identifier);
    out
}

/// The tags of an item: those of its subject line, none when it has none.
pub open spec fn item_tags(item: ItemMetadata) -> Seq<Seq<char>> {
    match item.subject {
        Some(s) => tags_spec(s@),
        None => Seq::empty(),
    }
}

/// `r` is the schedule entry synthesized for `item`, whose files are
/// `files`, downloaded at `date` (seconds since the epoch). The title falls
/// back to the identifier, the station to `Unknown`, description and year to
/// the empty string.
pub open spec fn record_spec(
    item: ItemMetadata,
    files: Seq<FileEntry>,
    date: u64,
    r: TvGuideRecord,
) -> bool {
    let id = item.identifier@;
    let id_bytes = encode_utf8(id);
    let title = opt_or(item.title, id);
    let station = opt_or(item.creator, "Unknown"@);
    let description = opt_or(item.description, ""@);
    let duration = duration_from(files);
    let minutes = duration_minutes(duration);
    let tags = item_tags(item);
    let lowered_tags = tags.map_values(|t: Seq<char>| lower_of(t));
    let category = category_label(category_of(category_text(title, description)));
    let start = slot_label(start_slot(minutes, id_bytes));
    let end = slot_label(end_slot(minutes, id_bytes));
    &&& r.title@ == title
    &&& r.station@ == station
    &&& r.description@ == description
    &&& r.year@ == opt_or(item.year, ""@)
    &&& r.duration@ == duration
    &&& r.category@ == category
    &&& (r.channel_number, r.station_callsign@) == channel_rule(
        lower_of(category),
        lower_of(station),
        lowered_tags,
        encode_utf8(station),
    )
    &&& r.start_time@ == start
    &&& r.end_time@ == end
    &&& r.timeslot@ == start + " - "@ + end
    &&& r.day_of_week@ == day_of_week_spec(id_bytes)
    &&& r.thumbnail_url@ == thumbnail_url_spec(id)
    &&& views(r.tags@) == tags
    &&& r.original_id@ == id
    &&& r.download_date == date
    &&& r.is_featured == (minutes > 60 || any_has_sub(lowered_tags, "special"@))
}

/// Synthesizes the schedule entry of an item from its metadata and files;
/// `download_date` is the moment of the download in seconds since the epoch.
pub fn synthesize(item: &ItemMetadata, files: &Vec<FileEntry>, download_date: u64) -> (r:
    TvGuideRecord)
    ensures
        record_spec(*item, files@, download_date, r),
{
    let identifier = item.identifier.as_str();
    let title = match &item.title {
        Some(t) => t.clone(),
        None => owned(identifier),
    };
    let station = match &item.creator {
        Some(c) => c.clone(),
        None => owned("Unknown"),
    };
    let description = match &item.description {
        Some(d) => d.clone(),
        None => owned(""),
    };
    let year = match &item.year {
        Some(y) => y.clone(),
        None => owned(""),
    };
    let duration = find_video_duration(files);
    let category = categorize_content(title.as_str(), description.as_str());
    let tags = match &item.subject {
        Some(s) => extract_tags(s.as_str()),
        None => {
            let none: Vec<String> = Vec::new();
            assert(views(none@) =~= Seq::<Seq<char>>::empty());
            none
        },
    };
    let ghost lowered_tags = item_tags(*item).map_values(|t: Seq<char>| lower_of(t));
    assert(lowered_views(tags@) =~= lowered_tags);
    let (channel_number, station_callsign) = assign_channel_and_callsign(
        category.as_str(),
        station.as_str(),
        tags.as_slice(),
    );
    let (start_time, end_time) = calculate_program_times(duration.as_str(), identifier);
    let day_of_week = determine_day_of_week(identifier);
    let minutes = parse_duration_minutes(duration.as_str());
    let featured = is_featured(minutes, &tags);
    let mut timeslot = start_time.clone();
    timeslot.append(" - ");
    timeslot.append(end_time.as_str());
    TvGuideRecord {
        title,
        station,
        description,
        year,
        duration,
        category,
        channel_number,
        timeslot,
        day_of_week,
        start_time,
        end_time,
        thumbnail_url: thumbnail_url(identifier),
        tags,
        original_id: owned(identifier),
        download_date,
        station_callsign,
        is_featured: featured,
    }
}

/// The address of an item's metadata.
pub fn metadata_url(identifier: &str) -> (r: String)
    ensures
        r@ == "https://archive.org/metadata/"@ + identifier@,
{
    let mut out = owned("https://archive.org/metadata/");
    out.append(identifier);
    out
}

/// The address from which a file of an item is downloaded.
pub fn download_url(identifier: &str, file_name: &str) -> (r: String)
    ensures
        r@ == "https://archive.org/download/"@ + identifier@ + "/"@ + file_name@,
{
    let mut out = owned("https://archive.org/download/");
    out.append(identifier);
    out.append("/");
    out.append(file_name);
    out
}

/// Why a download cannot start.
#[derive(Clone, Debug)]
pub enum DownloadError {
    /// The item has no video file.
    NoArtifactFound(String),
}

/// What a download fetches and where it stores it.
#[derive(Clone, Debug)]
pub struct DownloadPlan {
    /// The position of the chosen file among the item's files.
    pub file_index: usize,
    /// The address of the chosen file.
    pub url: String,
    /// The name under which the file is stored.
    pub artifact_name: String,
    /// The name under which its schedule entry is stored.
    pub sidecar_name: String,
    /// The schedule entry.
    pub record: TvGuideRecord,
}

/// The title as an optional character sequence.
pub open spec fn title_view(item: ItemMetadata) -> Option<Seq<char>> {
    opt_view(item.title)
}

/// Plans the download of the item `identifier`, whose metadata is `item`:
/// the largest video file (the first among equals), its address, the names
/// under which it and its schedule entry are stored, and that entry.
pub fn plan_download(identifier: &str, item: &ItemRecord, download_date: u64) -> (r: Result<
    DownloadPlan,
    DownloadError,
>)
    ensures
        match r {
            Ok(plan) => {
                let f = item.files@[plan.file_index as int];
                &&& is_best_video(item.files@, plan.file_index as int)
                &&& plan.url@ == "https://archive.org/download/"@ + identifier@ + "/"@ + f.name@
                &&& plan.artifact_name@ == artifact_name_spec(
                    title_view(item.metadata),
                    identifier@,
                    f.name@,
                )
                &&& plan.sidecar_name@ == artifact_stem_spec(title_view(item.metadata), identifier@)
                    + ".json"@
                &&& record_spec(item.metadata, item.files@, download_date, plan.record)
            },
            Err(DownloadError::NoArtifactFound(id)) => id@ == identifier@ && forall|j: int|
                0 <= j < item.files@.len() ==> !is_video_file(#[trigger] item.files@[j]),
        },
{
    let index = match select_video_file(&item.files) {
        Some(i) => i,
        None => {
            return Err(DownloadError::NoArtifactFound(owned(identifier)));
        },
    };
    let file_name = item.files[index].name.as_str();
    let title = match &item.metadata.title {
        Some(t) => Some(t.as_str()),
        None => None,
    };
    Ok(
        DownloadPlan {
            file_index: index,
            url: download_url(identifier, file_name),
            artifact_name: artifact_filename(title, identifier, file_name),
            sidecar_name: sidecar_filename(title, identifier),
            record: synthesize(&item.metadata, &item.files, download_date),
        },
    )
}

} // verus!
