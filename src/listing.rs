//! The guide grid: stored schedule entries grouped by channel, each
//! channel's programs in order of start time.

use vstd::prelude::*;
use crate::guide::TvGuideRecord;
use crate::text::{chars_of, first_word, first_word_of, owned, string_of};

verus! {

/// The most programs that a channel shows.
pub const PROGRAMS_PER_CHANNEL: usize = 3;

/// The programs, counted from the first, whose running time is shown.
pub const PROGRAMS_WITH_DURATION: usize = 2;

/// The most characters of a title that a program line shows.
pub const TITLE_CHARS: usize = 28;

/// `a` comes before `b` or equals it, character by character.
pub open spec fn lex_le(a: Seq<char>, b: Seq<char>) -> bool
    decreases a.len(),
{
    if a.len() == 0 {
        true
    } else if b.len() == 0 {
        false
    } else if a[0] != b[0] {
        a[0] < b[0]
    } else {
        lex_le(a.drop_first(), b.drop_first())
    }
}

/// Whether `a` comes before `b` or equals it, character by character.
pub fn text_le(a: &str, b: &str) -> (r: bool)
    ensures
        r == lex_le(a@, b@),
{
    let x = chars_of(a);
    let y = chars_of(b);
    let mut i: usize = 0;
    assert(x@.subrange(0, x.len() as int) =~= x@);
    assert(y@.subrange(0, y.len() as int) =~= y@);
    while i < x.len() && i < y.len() && x[i] == y[i]
        invariant
            i <= x.len(),
            i <= y.len(),
            x@ == a@,
            y@ == b@,
            lex_le(x@.subrange(i as int, x.len() as int), y@.subrange(i as int, y.len() as int))
                == lex_le(a@, b@),
        decreases x.len() - i,
    {
        assert(x@.subrange(i as int, x.len() as int).drop_first() =~= x@.subrange(
            i + 1,
            x.len() as int,
        ));
        assert(y@.subrange(i as int, y.len() as int).drop_first() =~= y@.subrange(
            i + 1,
            y.len() as int,
        ));
        i = i + 1;
    }
    let ghost xs = x@.subrange(i as int, x.len() as int);
    let ghost ys = y@.subrange(i as int, y.len() as int);
    if i == x.len() {
        true
    } else if i == y.len() {
        false
    } else {
        assert(xs[0] == x@[i as int] && ys[0] == y@[i as int]);
        x[i] < y[i]
    }
}

/// The positions of the entries on channel `c`, in order.
pub open spec fn on_channel(recs: Seq<TvGuideRecord>, c: u8) -> Seq<int>
    decreases recs.len(),
{
    if recs.len() == 0 {
        Seq::empty()
    } else if recs.last().channel_number == c {
        on_channel(recs.drop_last(), c).push(recs.len() - 1)
    } else {
        on_channel(recs.drop_last(), c)
    }
}

/// Inserts position `p` into `sorted` after every position whose entry
/// starts no later than the entry at `p`.
pub open spec fn insert_by_start(recs: Seq<TvGuideRecord>, sorted: Seq<int>, p: int) -> Seq<int>
    decreases sorted.len(),
{
    if sorted.len() == 0 {
        seq![p]
    } else if lex_le(recs[sorted.last()].start_time@, recs[p].start_time@) {
        sorted.push(p)
    } else {
        insert_by_start(recs, sorted.drop_last(), p).push(sorted.last())
    }
}

/// The positions in `ps`, stably sorted by the start time of their entries.
pub open spec fn sort_by_start(recs: Seq<TvGuideRecord>, ps: Seq<int>) -> Seq<int>
    decreases ps.len(),
{
    if ps.len() == 0 {
        Seq::empty()
    } else {
        insert_by_start(recs, sort_by_start(recs, ps.drop_last()), ps.last())
    }
}

/// One program of a channel as the grid shows it.
#[derive(Clone, Debug)]
pub struct ProgramLine {
    pub start_time: String,
    pub title: String,
    /// The running time in minutes, written `<word>m`; shown for the first
    /// programs only.
    pub duration: Option<String>,
}

/// One channel of the grid.
#[derive(Clone, Debug)]
pub struct ChannelListing {
    pub channel: u8,
    pub callsign: String,
    pub programs: Vec<ProgramLine>,
}

/// How a program's running time is shown: the first word of its duration,
/// or `30`, followed by `m`.
pub open spec fn duration_label(duration: Seq<char>) -> Seq<char> {
    if first_word(duration).len() == 0 {
        "30m"@
    } else {
        first_word(duration) + "m"@
    }
}

/// The line of the entry `r` shown at place `k` of its channel.
pub open spec fn program_line_spec(r: TvGuideRecord, k: int, line: ProgramLine) -> bool {
    &&& line.start_time@ == r.start_time@
    &&& line.title@ == if r.title@.len() <= TITLE_CHARS {
        r.title@
    } else {
        r.title@.take(TITLE_CHARS as int)
    }
    &&& line.duration == None::<String> <==> k >= PROGRAMS_WITH_DURATION
    &&& (line.duration matches Some(d) ==> d@ == duration_label(r.duration@))
}

/// `row` is channel `c` of the grid of `recs`: the callsign of its first
/// entry, and its first three entries by start time.
pub open spec fn channel_listing_spec(recs: Seq<TvGuideRecord>, c: u8, row: ChannelListing) -> bool {
    let ps = on_channel(recs, c);
    let sorted = sort_by_start(recs, ps);
    &&& ps.len() > 0
    &&& row.channel == c
    &&& row.callsign@ == recs[ps[0]].station_callsign@
    &&& row.programs@.len() == if sorted.len() <= PROGRAMS_PER_CHANNEL {
        sorted.len()
    } else {
        PROGRAMS_PER_CHANNEL as nat
    }
    &&& forall|k: int|
        0 <= k < row.programs@.len() ==> program_line_spec(
            recs[sorted[k]],
            k,
            #[trigger] row.programs@[k],
        )
}

/// The channels below `c` that carry some entry, in increasing order.
pub open spec fn channels_below(recs: Seq<TvGuideRecord>, c: nat) -> Seq<u8>
    decreases c,
{
    if c == 0 {
        Seq::empty()
    } else if on_channel(recs, (c - 1) as u8).len() > 0 {
        channels_below(recs, (c - 1) as nat).push((c - 1) as u8)
    } else {
        channels_below(recs, (c - 1) as nat)
    }
}

/// The grid of `recs`: one row per channel that carries an entry, by
/// increasing channel number.
pub open spec fn guide_spec(recs: Seq<TvGuideRecord>, rows: Seq<ChannelListing>) -> bool {
    let cs = channels_below(recs, 256);
    &&& rows.len() == cs.len()
    &&& forall|i: int| 0 <= i < rows.len() ==> channel_listing_spec(recs, cs[i], #[trigger] rows[i])
}

/// The positions held in a vector of indices.
pub open spec fn index_views(v: Seq<usize>) -> Seq<int> {
    v.map_values(|x: usize| x as int)
}

fn positions_on_channel(recs: &Vec<TvGuideRecord>, c: u8) -> (r: Vec<usize>)
    ensures
        index_views(r@) == on_channel(recs@, c),
        forall|k: int| 0 <= k < r@.len() ==> #[trigger] r@[k] < recs@.len(),
{
    let mut out: Vec<usize> = Vec::new();
    let mut i: usize = 0;
    while i < recs.len()
        invariant
            i <= recs.len(),
            index_views(out@) == on_channel(recs@.take(i as int), c),
            forall|k: int| 0 <= k < out@.len() ==> #[trigger] out@[k] < i,
        decreases recs.len() - i,
    {
        assert(recs@.take(i + 1).drop_last() =~= recs@.take(i as int));
        assert(recs@.take(i + 1).last() == recs@[i as int]);
        if recs[i].channel_number == c {
            out.push(i);
            assert(index_views(out@) =~= on_channel(recs@.take(i + 1), c));
        } else {
            assert(index_views(out@) =~= on_channel(recs@.take(i + 1), c));
        }
        i = i + 1;
    }
    assert(recs@.take(recs.len() as int) =~= recs@);
    out
}

proof fn lemma_insert_step(recs: Seq<TvGuideRecord>, s: Seq<int>, p: int, j: int)
    requires
        0 < j <= s.len(),
        !lex_le(recs[s[j - 1]].start_time@, recs[p].start_time@),
    ensures
        insert_by_start(recs, s.take(j), p) + s.skip(j) == insert_by_start(recs, s.take(j - 1), p)
            + s.skip(j - 1),
{
    assert(s.take(j).drop_last() =~= s.take(j - 1));
    assert(s.take(j).last() == s[j - 1]);
    let a = insert_by_start(recs, s.take(j - 1), p);
    assert(a.push(s[j - 1]) + s.skip(j) =~= a + s.skip(j - 1));
}

fn insert_sorted(recs: &Vec<TvGuideRecord>, sorted: &mut Vec<usize>, p: usize)
    requires
        p < recs@.len(),
        forall|k: int| 0 <= k < old(sorted)@.len() ==> #[trigger] old(sorted)@[k] < recs@.len(),
    ensures
        index_views(final(sorted)@) == insert_by_start(recs@, index_views(old(sorted)@), p as int),
        forall|k: int| 0 <= k < final(sorted)@.len() ==> #[trigger] final(sorted)@[k] < recs@.len(),
{
    let ghost s = index_views(sorted@);
    let mut j: usize = sorted.len();
    assert(s.take(j as int) =~= s);
    assert(s.skip(j as int) =~= Seq::<int>::empty());
    assert(insert_by_start(recs@, s, p as int) =~= insert_by_start(recs@, s.take(j as int), p as int)
        + s.skip(j as int));
    while j > 0 && !text_le(recs[sorted[j - 1]].start_time.as_str(), recs[p].start_time.as_str())
        invariant
            j <= sorted@.len(),
            s == index_views(sorted@),
            p < recs@.len(),
            forall|k: int| 0 <= k < sorted@.len() ==> #[trigger] sorted@[k] < recs@.len(),
            insert_by_start(recs@, s, p as int) == insert_by_start(recs@, s.take(j as int), p as int)
                + s.skip(j as int),
        decreases j,
    {
        proof {
            lemma_insert_step(recs@, s, p as int, j as int);
        }
        j = j - 1;
    }
    proof {
        if j > 0 {
            assert(s.take(j as int).last() == s[j - 1]);
        }
    }
    assert(insert_by_start(recs@, s.take(j as int), p as int) =~= s.take(j as int).push(p as int));
    sorted.insert(j, p);
    assert(index_views(sorted@) =~= s.take(j as int).push(p as int) + s.skip(j as int));
}

fn sorted_by_start(recs: &Vec<TvGuideRecord>, ps: &Vec<usize>) -> (r: Vec<usize>)
    requires
        forall|k: int| 0 <= k < ps@.len() ==> #[trigger] ps@[k] < recs@.len(),
    ensures
        index_views(r@) == sort_by_start(recs@, index_views(ps@)),
        forall|k: int| 0 <= k < r@.len() ==> #[trigger] r@[k] < recs@.len(),
{
    let ghost pv = index_views(ps@);
    let mut out: Vec<usize> = Vec::new();
    let mut i: usize = 0;
    assert(pv.take(0) =~= Seq::<int>::empty());
    assert(index_views(out@) =~= Seq::<int>::empty());
    while i < ps.len()
        invariant
            i <= ps.len(),
            pv == index_views(ps@),
            forall|k: int| 0 <= k < ps@.len() ==> #[trigger] ps@[k] < recs@.len(),
            forall|k: int| 0 <= k < out@.len() ==> #[trigger] out@[k] < recs@.len(),
            index_views(out@) == sort_by_start(recs@, pv.take(i as int)),
        decreases ps.len() - i,
    {
        assert(pv.take(i + 1).drop_last() =~= pv.take(i as int));
        assert(pv.take(i + 1).last() == ps@[i as int] as int);
        insert_sorted(recs, &mut out, ps[i]);
        i = i + 1;
    }
    assert(pv.take(ps.len() as int) =~= pv);
    out
}

fn program_line(r: &TvGuideRecord, k: usize) -> (line: ProgramLine)
    ensures
        program_line_spec(*r, k as int, line),
{
    let title_chars = chars_of(r.title.as_str());
    let mut kept: Vec<char> = Vec::new();
    let mut i: usize = 0;
    while i < title_chars.len() && i < TITLE_CHARS
        invariant
            i <= title_chars.len(),
            i <= TITLE_CHARS,
            title_chars@ == r.title@,
            kept@ == title_chars@.take(i as int),
        decreases title_chars.len() - i,
    {
        kept.push(title_chars[i]);
        i = i + 1;
        assert(kept@ =~= title_chars@.take(i as int));
    }
    assert(title_chars@.len() <= TITLE_CHARS ==> title_chars@.take(i as int) =~= title_chars@);
    let duration = if k < PROGRAMS_WITH_DURATION {
        let word = first_word_of(&chars_of(r.duration.as_str()));
        if word.len() == 0 {
            Some(owned("30m"))
        } else {
            let mut label = string_of(&word);
            label.append("m");
            Some(label)
        }
    } else {
        None
    };
    ProgramLine { start_time: r.start_time.clone(), title: string_of(&kept), duration }
}

fn channel_listing(recs: &Vec<TvGuideRecord>, c: u8, ps: &Vec<usize>) -> (row: ChannelListing)
    requires
        index_views(ps@) == on_channel(recs@, c),
        ps@.len() > 0,
        forall|k: int| 0 <= k < ps@.len() ==> #[trigger] ps@[k] < recs@.len(),
    ensures
        channel_listing_spec(recs@, c, row),
{
    let sorted = sorted_by_start(recs, ps);
    let ghost sv = index_views(sorted@);
    let n = if sorted.len() <= PROGRAMS_PER_CHANNEL {
        sorted.len()
    } else {
        PROGRAMS_PER_CHANNEL
    };
    let mut programs: Vec<ProgramLine> = Vec::new();
    let mut k: usize = 0;
    while k < n
        invariant
            k <= n,
            n <= sorted@.len(),
            sv == index_views(sorted@),
            sv == sort_by_start(recs@, index_views(ps@)),
            forall|m: int| 0 <= m < sorted@.len() ==> #[trigger] sorted@[m] < recs@.len(),
            programs@.len() == k,
            forall|m: int|
                0 <= m < k ==> program_line_spec(recs@[sv[m]], m, #[trigger] programs@[m]),
        decreases n - k,
    {
        programs.push(program_line(&recs[sorted[k]], k));
        k = k + 1;
    }
    assert(index_views(ps@)[0] == ps@[0] as int);
    ChannelListing { channel: c, callsign: recs[ps[0]].station_callsign.clone(), programs }
}

/// Groups stored schedule entries into the guide grid.
pub fn guide_listing(recs: &Vec<TvGuideRecord>) -> (rows: Vec<ChannelListing>)
    ensures
        guide_spec(recs@, rows@),
{
    let mut rows: Vec<ChannelListing> = Vec::new();
    let mut c: u16 = 0;
    while c < 256
        invariant
            c <= 256,
            rows@.len() == channels_below(recs@, c as nat).len(),
            forall|i: int|
                0 <= i < rows@.len() ==> channel_listing_spec(
                    recs@,
                    channels_below(recs@, c as nat)[i],
                    #[trigger] rows@[i],
                ),
        decreases 256 - c,
    {
        let ch = c as u8;
        let ps = positions_on_channel(recs, ch);
        let ghost before = channels_below(recs@, c as nat);
        if ps.len() > 0 {
            rows.push(channel_listing(recs, ch, &ps));
            assert(channels_below(recs@, (c + 1) as nat) == before.push(ch));
        } else {
            assert(channels_below(recs@, (c + 1) as nat) == before);
        }
        c = c + 1;
    }
    rows
}

} // verus!
