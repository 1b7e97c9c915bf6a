//! What the interactive front end shows and decides: sizes, result lines,
//! menu choices and download reports.

use vstd::prelude::*;
use crate::category::views;
use crate::text::{
    chars_of, decimal_of, digit_char, lower_of, lowercase, owned, parse_unsigned,
    parse_unsigned_spec, push_decimal, string_of, trim_chars, trim_spec,
};

verus! {

/// `num / den` rounded to the nearest integer, a tie going to the even one.
pub open spec fn round_half_even(num: nat, den: nat) -> nat {
    let q = num / den;
    let r = num % den;
    if 2 * r > den || (2 * r == den && q % 2 == 1) {
        q + 1
    } else {
        q
    }
}

/// `v` hundredths or tenths (by `digits`, 2 or 1) written with that many
/// decimals.
pub open spec fn fixed_point(v: nat, digits: nat) -> Seq<char> {
    if digits == 1 {
        decimal_of(v / 10) + "."@ + seq![digit_char(v % 10)]
    } else {
        decimal_of(v / 100) + "."@ + seq![digit_char((v % 100) / 10), digit_char(v % 10)]
    }
}

/// A byte count for people: bytes below 1 KiB, then KB and MB with one
/// decimal, GB with two, each rounded half to even.
pub open spec fn format_size_spec(n: nat) -> Seq<char> {
    if n < 1024 {
        decimal_of(n) + " B"@
    } else if n < 1048576 {
        fixed_point(round_half_even(n * 10, 1024), 1) + " KB"@
    } else if n < 1073741824 {
        fixed_point(round_half_even(n * 10, 1048576), 1) + " MB"@
    } else {
        fixed_point(round_half_even(n * 100, 1073741824), 2) + " GB"@
    }
}

fn rounded(num: u128, den: u128) -> (r: u128)
    requires
        den > 0,
        num < 0x1_0000_0000_0000_0000_0000,
    ensures
        r == round_half_even(num as nat, den as nat),
{
    let q = num / den;
    let r = num % den;
    assert(q <= num) by (nonlinear_arith)
        requires
            den > 0,
            q == num / den,
    ;
    assert(r <= num) by (nonlinear_arith)
        requires
            den > 0,
            r == num % den,
    ;
    if 2 * r > den || (2 * r == den && q % 2 == 1) {
        q + 1
    } else {
        q
    }
}

fn push_fixed_point(out: &mut String, v: u128, digits: u8)
    requires
        digits == 1 || digits == 2,
    ensures
        final(out)@ == old(out)@ + fixed_point(v as nat, digits as nat),
{
    let ghost start = out@;
    if digits == 1 {
        push_decimal(out, v / 10);
        out.append(".");
        out.push(((v % 10) as u8 + 48u8) as char);
        proof {
            reveal_strlit(".");
        }
        assert(out@ =~= start + fixed_point(v as nat, digits as nat));
    } else {
        push_decimal(out, v / 100);
        out.append(".");
        out.push((((v % 100) / 10) as u8 + 48u8) as char);
        out.push(((v % 10) as u8 + 48u8) as char);
        proof {
            reveal_strlit(".");
        }
        assert(out@ =~= start + fixed_point(v as nat, digits as nat));
    }
}

/// Writes a byte count for people.
pub fn format_size(size_bytes: u64) -> (r: String)
    ensures
        r@ == format_size_spec(size_bytes as nat),
{
    let n = size_bytes as u128;
    let mut out = String::new();
    if n < 1024 {
        push_decimal(&mut out, n);
        out.append(" B");
    } else if n < 1048576 {
        push_fixed_point(&mut out, rounded(n * 10, 1024), 1);
        out.append(" KB");
    } else if n < 1073741824 {
        push_fixed_point(&mut out, rounded(n * 10, 1048576), 1);
        out.append(" MB");
    } else {
        push_fixed_point(&mut out, rounded(n * 100, 1073741824), 2);
        out.append(" GB");
    }
    assert(out@ =~= format_size_spec(size_bytes as nat));
    out
}

/// How the creators of a result are shown: the first one, with "et al"
/// when there are more, or "Unknown" when there is none.
pub open spec fn creator_summary_spec(creators: Seq<Seq<char>>) -> Seq<char> {
    if creators.len() == 0 {
        "Unknown"@
    } else if creators.len() > 1 {
        creators[0] + " et al"@
    } else {
        creators[0]
    }
}

/// How the creators of a result are shown.
pub fn creator_summary(creators: &Vec<String>) -> (r: String)
    ensures
        r@ == creator_summary_spec(views(creators@)),
{
    if creators.len() == 0 {
        owned("Unknown")
    } else if creators.len() > 1 {
        let mut out = creators[0].clone();
        out.append(" et al");
        out
    } else {
        creators[0].clone()
    }
}

/// How the size of a result is shown: its size for people, or an estimate
/// when it is unknown.
pub fn size_summary(size: Option<u64>) -> (r: String)
    ensures
        r@ == match size {
            Some(n) => format_size_spec(n as nat),
            None => "~15MB (est.)"@,
        },
{
    match size {
        Some(n) => format_size(n),
        None => owned("~15MB (est.)"),
    }
}

/// An entry of the main menu.
#[derive(Clone, Copy, Debug, PartialEq, Eq, Structural)]
pub enum MenuChoice {
    StartServer,
    ListVideos,
    Search,
    ClearVideos,
    Exit,
    ShowDownloads,
    Invalid,
}

/// The entry that a trimmed answer picks; the download status entry exists
/// only while downloads are running.
pub open spec fn menu_choice_spec(answer: Seq<char>, active_downloads: nat) -> MenuChoice {
    if answer == "1"@ {
        MenuChoice::StartServer
    } else if answer == "2"@ {
        MenuChoice::ListVideos
    } else if answer == "3"@ {
        MenuChoice::Search
    } else if answer == "4"@ {
        MenuChoice::ClearVideos
    } else if answer == "5"@ {
        MenuChoice::Exit
    } else if answer == "6"@ && active_downloads > 0 {
        MenuChoice::ShowDownloads
    } else {
        MenuChoice::Invalid
    }
}

fn chars_equal(a: &Vec<char>, b: &str) -> (r: bool)
    ensures
        r == (a@ == b@),
{
    let bc = chars_of(b);
    if a.len() != bc.len() {
        return false;
    }
    let mut i: usize = 0;
    while i < a.len()
        invariant
            a.len() == bc.len(),
            bc@ == b@,
            i <= a.len(),
            forall|k: int| 0 <= k < i ==> a@[k] == bc@[k],
        decreases a.len() - i,
    {
        if a[i] != bc[i] {
            return false;
        }
        i = i + 1;
    }
    assert(a@ =~= bc@);
    true
}

/// The menu entry that an answer picks, white space around it ignored.
pub fn parse_menu_choice(answer: &str, active_downloads: usize) -> (r: MenuChoice)
    ensures
        r == menu_choice_spec(trim_spec(answer@), active_downloads as nat),
{
    let t = trim_chars(&chars_of(answer));
    if chars_equal(&t, "1") {
        MenuChoice::StartServer
    } else if chars_equal(&t, "2") {
        MenuChoice::ListVideos
    } else if chars_equal(&t, "3") {
        MenuChoice::Search
    } else if chars_equal(&t, "4") {
        MenuChoice::ClearVideos
    } else if chars_equal(&t, "5") {
        MenuChoice::Exit
    } else if chars_equal(&t, "6") && active_downloads > 0 {
        MenuChoice::ShowDownloads
    } else {
        MenuChoice::Invalid
    }
}

/// Whether an answer confirms: trimmed and lower-cased, it is `y`.
pub fn is_yes(answer: &str) -> (r: bool)
    ensures
        r == (lower_of(trim_spec(answer@)) == "y"@),
{
    let t = string_of(&trim_chars(&chars_of(answer)));
    let lowered = lowercase(t.as_str());
    chars_equal(&chars_of(lowered.as_str()), "y")
}

/// The number that a trimmed answer gives, or `default` when it gives none
/// that fits in a `usize`.
pub open spec fn count_answer_spec(answer: Seq<char>, default: usize) -> usize {
    match parse_unsigned_spec(trim_spec(answer)) {
        Some(n) => if n <= usize::MAX {
            n as usize
        } else {
            default
        },
        None => default,
    }
}

/// Reads a count from an answer, `default` when it holds none.
pub fn parse_count(answer: &str, default: usize) -> (r: usize)
    ensures
        r == count_answer_spec(answer@, default),
{
    let t = trim_chars(&chars_of(answer));
    match parse_unsigned(&t) {
        Some(n) => if n <= usize::MAX as u64 {
            n as usize
        } else {
            default
        },
        None => default,
    }
}

/// The position, counted from zero, of the result that an answer picks
/// among `count` results numbered from one.
pub open spec fn selection_spec(answer: Seq<char>, count: nat) -> Option<nat> {
    match parse_unsigned_spec(trim_spec(answer)) {
        Some(n) => if 1 <= n <= count {
            Some((n - 1) as nat)
        } else {
            None
        },
        None => None,
    }
}

/// Reads which of `count` results an answer picks.
pub fn parse_selection(answer: &str, count: usize) -> (r: Option<usize>)
    ensures
        match r {
            Some(i) => selection_spec(answer@, count as nat) == Some(i as nat),
            None => selection_spec(answer@, count as nat) is None,
        },
{
    let t = trim_chars(&chars_of(answer));
    match parse_unsigned(&t) {
        Some(n) => if 1 <= n && n <= count as u64 {
            Some((n - 1) as usize)
        } else {
            None
        },
        None => None,
    }
}

/// `s` with every space made `+`.
pub open spec fn plus_for_space(s: Seq<char>) -> Seq<char> {
    s.map_values(|c: char| if c == ' ' { '+' } else { c })
}

/// The fields that a search asks for.
pub open spec fn search_fields() -> Seq<char> {
    "identifier,title,description,mediatype,year,creator,subject,item_size,downloads"@
}

/// The address of a search for `query` among items of `media_type`, most
/// downloaded first, `limit` results per page.
pub open spec fn search_url_spec(query: Seq<char>, limit: nat, media_type: Seq<char>) -> Seq<char> {
    "https://archive.org/advancedsearch.php?q=mediatype%3A"@ + media_type + "+AND+"@
        + plus_for_space(query) + "&fl[]="@ + search_fields() + "&sort[]=downloads+desc&rows="@
        + decimal_of(limit) + "&page=1&output=json"@
}

/// The address of a search.
pub fn search_url(query: &str, limit: usize, media_type: &str) -> (r: String)
    ensures
        r@ == search_url_spec(query@, limit as nat, media_type@),
{
    let q = chars_of(query);
    let mut out = owned("https://archive.org/advancedsearch.php?q=mediatype%3A");
    out.append(media_type);
    out.append("+AND+");
    let ghost prefix = out@;
    let mut i: usize = 0;
    while i < q.len()
        invariant
            i <= q.len(),
            q@ == query@,
            out@ == prefix + plus_for_space(q@.take(i as int)),
        decreases q.len() - i,
    {
        if q[i] == ' ' {
            out.push('+');
        } else {
            out.push(q[i]);
        }
        i = i + 1;
        assert(out@ =~= prefix + plus_for_space(q@.take(i as int)));
    }
    assert(q@.take(q.len() as int) =~= q@);
    out.append("&fl[]=");
    out.append("identifier,title,description,mediatype,year,creator,subject,item_size,downloads");
    out.append("&sort[]=downloads+desc&rows=");
    push_decimal(&mut out, limit as u128);
    out.append("&page=1&output=json");
    out
}

/// How a download ended: its work succeeded, its work failed, or its task
/// did not run to completion.
#[derive(Clone, Debug)]
pub enum DownloadOutcome {
    Success,
    Failure(String),
    TaskAborted(String),
}

/// The line that reports how the download of `identifier` ended.
pub open spec fn outcome_message_spec(identifier: Seq<char>, outcome: DownloadOutcome) -> Seq<char> {
    match outcome {
        DownloadOutcome::Success => "\u{2713} Download completed: "@ + identifier,
        DownloadOutcome::Failure(e) => "\u{2717} Download failed for "@ + identifier + ": "@ + e@,
        DownloadOutcome::TaskAborted(e) => "\u{2717} Download task failed for "@ + identifier
            + ": "@ + e@,
    }
}

/// Reports how a download ended.
pub fn outcome_message(identifier: &str, outcome: &DownloadOutcome) -> (r: String)
    ensures
        r@ == outcome_message_spec(identifier@, *outcome),
{
    match outcome {
        DownloadOutcome::Success => {
            let mut out = owned("\u{2713} Download completed: ");
            out.append(identifier);
            out
        },
        DownloadOutcome::Failure(e) => {
            let mut out = owned("\u{2717} Download failed for ");
            out.append(identifier);
            out.append(": ");
            out.append(e.as_str());
            out
        },
        DownloadOutcome::TaskAborted(e) => {
            let mut out = owned("\u{2717} Download task failed for ");
            out.append(identifier);
            out.append(": ");
            out.append(e.as_str());
            out
        },
    }
}

/// An extension, lower-cased, that marks a video file.
pub open spec fn is_video_extension_spec(ext: Seq<char>) -> bool {
    let e = lower_of(ext);
    e == "mp4"@ || e == "avi"@ || e == "mkv"@ || e == "mov"@ || e == "webm"@ || e == "flv"@
}

/// Whether an extension marks a video file, without regard to case.
pub fn is_video_extension(ext: &str) -> (r: bool)
    ensures
        r == is_video_extension_spec(ext@),
{
    let lowered = lowercase(ext);
    let e = chars_of(lowered.as_str());
    chars_equal(&e, "mp4") || chars_equal(&e, "avi") || chars_equal(&e, "mkv") || chars_equal(
        &e,
        "mov",
    ) || chars_equal(&e, "webm") || chars_equal(&e, "flv")
}

/// Whether the guide lists a stored file with this extension: `mp4`, without
/// regard to case.
pub fn is_listed_extension(ext: &str) -> (r: bool)
    ensures
        r == (lower_of(ext@) == "mp4"@),
{
    let lowered = lowercase(ext);
    chars_equal(&chars_of(lowered.as_str()), "mp4")
}

/// Whether the playback server offers a file with this extension: exactly
/// `mp4`, `avi` or `mkv`.
pub fn is_playable_extension(ext: &str) -> (r: bool)
    ensures
        r == (ext@ == "mp4"@ || ext@ == "avi"@ || ext@ == "mkv"@),
{
    let e = chars_of(ext);
    chars_equal(&e, "mp4") || chars_equal(&e, "avi") || chars_equal(&e, "mkv")
}

} // verus!
