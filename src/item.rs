//! Item metadata, its files, and the choice of the file to download.

use vstd::prelude::*;
use crate::decode::{
    decode_size, decode_string_or_int, opt_string, opt_string_spec, opt_view, size_spec,
    string_or_int_spec, DecodeError,
};
use crate::json::{member, member_spec, Json};
use crate::text::{chars_of, ends_with, contains, has_sub, has_suffix, owned};

verus! {

/// One file of an item.
#[derive(Clone, Debug)]
pub struct FileEntry {
    pub name: String,
    pub format: Option<String>,
    pub size_bytes: Option<u64>,
    pub runtime: Option<String>,
    pub length: Option<String>,
}

/// The descriptive fields of an item.
#[derive(Clone, Debug)]
pub struct ItemMetadata {
    pub identifier: String,
    pub title: Option<String>,
    pub year: Option<String>,
    pub description: Option<String>,
    pub creator: Option<String>,
    pub subject: Option<String>,
    pub collection: Option<String>,
    pub date: Option<String>,
}

/// An item: its files and its metadata.
#[derive(Clone, Debug)]
pub struct ItemRecord {
    pub files: Vec<FileEntry>,
    pub metadata: ItemMetadata,
}

/// A size as a file entry keeps it: refused values give none.
pub open spec fn size_or_none(v: Option<Json>) -> Option<u64> {
    match size_spec(v) {
        Ok(s) => s,
        Err(_) => None,
    }
}

/// The element carries a file name.
pub open spec fn has_name(v: Json) -> bool {
    member_spec(v, "name"@) matches Some(Json::Str(_))
}

/// `f` is what the reading makes of the file element `v`.
pub open spec fn file_entry_spec(v: Json, f: FileEntry) -> bool {
    &&& opt_string_spec(member_spec(v, "name"@)) == Some(f.name@)
    &&& opt_view(f.format) == opt_string_spec(member_spec(v, "format"@))
    &&& f.size_bytes == size_or_none(member_spec(v, "size"@))
    &&& opt_view(f.runtime) == opt_string_spec(member_spec(v, "runtime"@))
    &&& opt_view(f.length) == opt_string_spec(member_spec(v, "length"@))
}

/// The file elements that carry a name, in order.
pub open spec fn named(items: Seq<Json>) -> Seq<Json>
    decreases items.len(),
{
    if items.len() == 0 {
        Seq::empty()
    } else if has_name(items.last()) {
        named(items.drop_last()).push(items.last())
    } else {
        named(items.drop_last())
    }
}

/// `m` is what the reading makes of the metadata object `v`.
pub open spec fn metadata_spec(v: Json, m: ItemMetadata) -> bool {
    &&& opt_string_spec(member_spec(v, "identifier"@)) == Some(m.identifier@)
    &&& opt_view(m.title) == opt_string_spec(member_spec(v, "title"@))
    &&& opt_view(m.year) == match string_or_int_spec(member_spec(v, "year"@)) {
        Ok(y) => y,
        Err(_) => None,
    }
    &&& opt_view(m.description) == opt_string_spec(member_spec(v, "description"@))
    &&& opt_view(m.creator) == opt_string_spec(member_spec(v, "creator"@))
    &&& opt_view(m.subject) == opt_string_spec(member_spec(v, "subject"@))
    &&& opt_view(m.collection) == opt_string_spec(member_spec(v, "collection"@))
    &&& opt_view(m.date) == opt_string_spec(member_spec(v, "date"@))
}

/// What the reading of an item response gives: the record when `files` is
/// an array and `metadata` holds a string `identifier`, else a schema error.
/// File elements without a name are skipped.
pub open spec fn item_spec(root: Json, r: Result<ItemRecord, DecodeError>) -> bool {
    match (member_spec(root, "files"@), member_spec(root, "metadata"@)) {
        (Some(Json::Array(items)), Some(meta)) => if opt_string_spec(
            member_spec(meta, "identifier"@),
        ) is Some {
            r matches Ok(rec) && metadata_spec(meta, rec.metadata) && rec.files@.len() == named(
                items@,
            ).len() && forall|i: int|
                0 <= i < rec.files@.len() ==> file_entry_spec(named(items@)[i], #[trigger] rec.files@[i])
        } else {
            r matches Err(DecodeError::Schema(_))
        },
        _ => r matches Err(DecodeError::Schema(_)),
    }
}

fn file_entry_of(v: &Json) -> (r: Option<FileEntry>)
    ensures
        match r {
            Some(f) => has_name(*v) && file_entry_spec(*v, f),
            None => !has_name(*v),
        },
{
    let name = match member(v, "name") {
        Some(Json::Str(n)) => n.clone(),
        _ => {
            return None;
        },
    };
    let size_bytes = match decode_size(member(v, "size")) {
        Ok(s) => s,
        Err(_) => None,
    };
    Some(
        FileEntry {
            name,
            format: opt_string(member(v, "format")),
            size_bytes,
            runtime: opt_string(member(v, "runtime")),
            length: opt_string(member(v, "length")),
        },
    )
}

fn metadata_of(v: &Json) -> (r: Option<ItemMetadata>)
    ensures
        match r {
            Some(m) => metadata_spec(*v, m),
            None => opt_string_spec(member_spec(*v, "identifier"@)) is None,
        },
{
    let identifier = match member(v, "identifier") {
        Some(Json::Str(s)) => s.clone(),
        _ => {
            return None;
        },
    };
    let year = match decode_string_or_int(member(v, "year")) {
        Ok(y) => y,
        Err(_) => None,
    };
    Some(
        ItemMetadata {
            identifier,
            title: opt_string(member(v, "title")),
            year,
            description: opt_string(member(v, "description")),
            creator: opt_string(member(v, "creator")),
            subject: opt_string(member(v, "subject")),
            collection: opt_string(member(v, "collection")),
            date: opt_string(member(v, "date")),
        },
    )
}

/// Reads an item metadata response.
pub fn decode_item(root: &Json) -> (r: Result<ItemRecord, DecodeError>)
    ensures
        item_spec(*root, r),
{
    let items = match member(root, "files") {
        Some(Json::Array(items)) => items,
        _ => {
            return Err(DecodeError::Schema(owned("files is not an array")));
        },
    };
    let meta = match member(root, "metadata") {
        Some(m) => m,
        None => {
            return Err(DecodeError::Schema(owned("metadata is missing")));
        },
    };
    let metadata = match metadata_of(meta) {
        Some(m) => m,
        None => {
            return Err(DecodeError::Schema(owned("metadata has no identifier")));
        },
    };
    let mut files: Vec<FileEntry> = Vec::new();
    let mut i: usize = 0;
    while i < items.len()
        invariant
            i <= items.len(),
            files@.len() == named(items@.take(i as int)).len(),
            forall|k: int|
                0 <= k < files@.len() ==> file_entry_spec(
                    named(items@.take(i as int))[k],
                    #[trigger] files@[k],
                ),
        decreases items.len() - i,
    {
        assert(items@.take(i + 1).drop_last() =~= items@.take(i as int));
        assert(items@.take(i + 1).last() == items@[i as int]);
        match file_entry_of(&items[i]) {
            Some(f) => {
                files.push(f);
                assert(named(items@.take(i + 1)) == named(items@.take(i as int)).push(items@[i as int]));
            },
            None => {
                assert(named(items@.take(i + 1)) == named(items@.take(i as int)));
            },
        }
        i = i + 1;
    }
    assert(items@.take(items.len() as int) =~= items@);
    Ok(ItemRecord { files, metadata })
}

/// A format name that marks a video container.
pub open spec fn is_video_format(f: Seq<char>) -> bool {
    has_sub(f, "MPEG"@) || has_sub(f, "MP4"@) || has_sub(f, "AVI"@) || has_sub(f, "QuickTime"@)
        || has_sub(f, "Matroska"@) || has_sub(f, "WebM"@)
}

/// A file name with a video extension.
pub open spec fn has_video_extension(n: Seq<char>) -> bool {
    has_suffix(n, ".mp4"@) || has_suffix(n, ".avi"@) || has_suffix(n, ".mkv"@) || has_suffix(
        n,
        ".mov"@,
    ) || has_suffix(n, ".webm"@) || has_suffix(n, ".flv"@)
}

/// A video file: by its declared format, or by its extension when it
/// declares none.
pub open spec fn is_video_file(f: FileEntry) -> bool {
    match f.format {
        Some(fmt) => is_video_format(fmt@),
        None => has_video_extension(f.name@),
    }
}

/// The size by which files are compared; an unknown size counts as zero.
pub open spec fn size_key(f: FileEntry) -> nat {
    match f.size_bytes {
        Some(n) => n as nat,
        None => 0,
    }
}

/// `i` is the video file to download: the largest by size, the first in
/// listing order among equals.
pub open spec fn is_best_video(files: Seq<FileEntry>, i: int) -> bool {
    &&& 0 <= i < files.len()
    &&& is_video_file(files[i])
    &&& forall|j: int|
        0 <= j < files.len() && is_video_file(#[trigger] files[j]) ==> size_key(files[j])
            <= size_key(files[i])
    &&& forall|j: int|
        0 <= j < i && is_video_file(#[trigger] files[j]) ==> size_key(files[j]) < size_key(files[i])
}

/// Whether a file is a video file.
pub fn is_video(f: &FileEntry) -> (r: bool)
    ensures
        r == is_video_file(*f),
{
    match &f.format {
        Some(fmt) => {
            let t = chars_of(fmt.as_str());
            contains(&t, "MPEG") || contains(&t, "MP4") || contains(&t, "AVI") || contains(
                &t,
                "QuickTime",
            ) || contains(&t, "Matroska") || contains(&t, "WebM")
        },
        None => {
            let n = chars_of(f.name.as_str());
            ends_with(&n, ".mp4") || ends_with(&n, ".avi") || ends_with(&n, ".mkv") || ends_with(
                &n,
                ".mov",
            ) || ends_with(&n, ".webm") || ends_with(&n, ".flv")
        },
    }
}

/// The index of the video file to download, or none when the item has no
/// video file.
pub fn select_video_file(files: &Vec<FileEntry>) -> (r: Option<usize>)
    ensures
        match r {
            Some(i) => is_best_video(files@, i as int),
            None => forall|j: int| 0 <= j < files@.len() ==> !is_video_file(#[trigger] files@[j]),
        },
{
    let mut best: Option<usize> = None;
    let mut best_size: u64 = 0;
    let mut i: usize = 0;
    while i < files.len()
        invariant
            i <= files.len(),
            match best {
                Some(b) => {
                    &&& b < i
                    &&& is_video_file(files@[b as int])
                    &&& best_size == size_key(files@[b as int])
                    &&& forall|j: int|
                        0 <= j < i && is_video_file(#[trigger] files@[j]) ==> size_key(files@[j])
                            <= size_key(files@[b as int])
                    &&& forall|j: int|
                        0 <= j < b && is_video_file(#[trigger] files@[j]) ==> size_key(files@[j])
                            < size_key(files@[b as int])
                },
                None => forall|j: int| 0 <= j < i ==> !is_video_file(#[trigger] files@[j]),
            },
        decreases files.len() - i,
    {
        let f = &files[i];
        if is_video(f) {
            let size = match f.size_bytes {
                Some(n) => n,
                None => 0,
            };
            match best {
                None => {
                    best = Some(i);
                    best_size = size;
                },
                Some(_) => {
                    if size > best_size {
                        best = Some(i);
                        best_size = size;
                    }
                },
            }
        }
        i = i + 1;
    }
    best
}

/// The running time that the first `.mp4` file with a `runtime` or `length`
/// gives, `runtime` first; `00:30:00` when none does.
pub open spec fn duration_from(files: Seq<FileEntry>) -> Seq<char>
    decreases files.len(),
{
    if files.len() == 0 {
        "00:30:00"@
    } else if has_suffix(files[0].name@, ".mp4"@) && files[0].runtime is Some {
        files[0].runtime->0@
    } else if has_suffix(files[0].name@, ".mp4"@) && files[0].length is Some {
        files[0].length->0@
    } else {
        duration_from(files.drop_first())
    }
}

/// The running time of an item, read from the metadata of its files.
pub fn find_video_duration(files: &Vec<FileEntry>) -> (r: String)
    ensures
        r@ == duration_from(files@),
{
    let n = files.len();
    let mut i: usize = 0;
    assert(files@.subrange(0, n as int) =~= files@);
    while i < n
        invariant
            n == files@.len(),
            i <= n,
            duration_from(files@.subrange(i as int, n as int)) == duration_from(files@),
        decreases n - i,
    {
        let f = &files[i];
        let ghost rest = files@.subrange(i as int, n as int);
        assert(rest[0] == files@[i as int]);
        assert(rest.drop_first() =~= files@.subrange(i + 1, n as int));
        let name = chars_of(f.name.as_str());
        if ends_with(&name, ".mp4") {
            match &f.runtime {
                Some(rt) => {
                    return rt.clone();
                },
                None => {},
            }
            match &f.length {
                Some(len) => {
                    return len.clone();
                },
                None => {},
            }
        }
        i = i + 1;
    }
    owned("00:30:00")
}

} // verus!
