//! The tolerant decoder: from parsed search and item metadata to the
//! library's document model, absorbing the type variance of the source.

use vstd::prelude::*;
use crate::category::views;
use crate::json::{member, member_spec, opt_ref, Json};
use crate::text::{chars_of, decimal_of, owned, parse_decimal, parse_decimal_spec, push_decimal};

verus! {

/// A field held a JSON type that it does not accept.
#[derive(Clone, Copy, Debug, PartialEq, Eq, Structural)]
pub enum FieldError {
    UnexpectedType,
}

/// The character view of an optional string.
pub open spec fn opt_view(o: Option<String>) -> Option<Seq<char>> {
    match o {
        Some(s) => Some(s@),
        None => None,
    }
}

/// The string that a JSON value holds, if it is a string.
pub open spec fn str_of(v: Json) -> Seq<char> {
    match v {
        Json::Str(s) => s@,
        _ => Seq::empty(),
    }
}

/// Every element is a JSON string.
pub open spec fn all_strings(items: Seq<Json>) -> bool {
    forall|i: int| 0 <= i < items.len() ==> #[trigger] items[i] is Str
}

/// A field of strings: absent gives none, one string gives one, an array of
/// strings gives them in order; any other value is refused.
pub open spec fn string_list_spec(v: Option<Json>) -> Result<Seq<Seq<char>>, FieldError> {
    match v {
        None => Ok(Seq::empty()),
        Some(Json::Str(s)) => Ok(seq![s@]),
        Some(Json::Array(items)) => if all_strings(items@) {
            Ok(items@.map_values(|j: Json| str_of(j)))
        } else {
            Err(FieldError::UnexpectedType)
        },
        Some(_) => Err(FieldError::UnexpectedType),
    }
}

/// Decodes a field that holds one string or a list of strings.
pub fn decode_string_list(v: Option<&Json>) -> (r: Result<Vec<String>, FieldError>)
    ensures
        match r {
            Ok(list) => string_list_spec(opt_ref(v)) == Ok::<Seq<Seq<char>>, FieldError>(
                views(list@),
            ),
            Err(e) => string_list_spec(opt_ref(v)) == Err::<Seq<Seq<char>>, FieldError>(e),
        },
{
    match v {
        None => {
            let list: Vec<String> = Vec::new();
            assert(views(list@) =~= Seq::<Seq<char>>::empty());
            Ok(list)
        },
        Some(Json::Str(s)) => {
            let mut list: Vec<String> = Vec::new();
            list.push(s.clone());
            assert(views(list@) =~= seq![s@]);
            Ok(list)
        },
        Some(Json::Array(items)) => {
            let mut list: Vec<String> = Vec::new();
            let mut i: usize = 0;
            while i < items.len()
                invariant
                    i <= items.len(),
                    opt_ref(v) == Some(Json::Array(*items)),
                    list@.len() == i,
                    forall|k: int| 0 <= k < i ==> #[trigger] items@[k] is Str,
                    forall|k: int| 0 <= k < i ==> (#[trigger] list@[k])@ == str_of(items@[k]),
                decreases items.len() - i,
            {
                match &items[i] {
                    Json::Str(s) => {
                        list.push(s.clone());
                    },
                    _ => {
                        assert(!(items@[i as int] is Str));
                        return Err(FieldError::UnexpectedType);
                    },
                }
                i = i + 1;
            }
            assert(views(list@) =~= items@.map_values(|j: Json| str_of(j)));
            Ok(list)
        },
        Some(_) => Err(FieldError::UnexpectedType),
    }
}

/// The decimal form of a signed integer.
pub open spec fn signed_decimal(n: int) -> Seq<char> {
    if n < 0 {
        seq!['-'] + decimal_of((-n) as nat)
    } else {
        decimal_of(n as nat)
    }
}

/// The decimal form of `n`.
pub fn u64_to_decimal(n: u64) -> (r: String)
    ensures
        r@ == decimal_of(n as nat),
{
    let mut out = String::new();
    push_decimal(&mut out, n as u128);
    assert(out@ =~= decimal_of(n as nat));
    out
}

/// The decimal form of `n`, with a minus sign when it is negative.
pub fn i64_to_decimal(n: i64) -> (r: String)
    ensures
        r@ == signed_decimal(n as int),
{
    if n < 0 {
        let magnitude: u64 = ((-(n + 1)) as u64) + 1;
        let mut out = owned("-");
        push_decimal(&mut out, magnitude as u128);
        proof {
            reveal_strlit("-");
        }
        assert(out@ =~= signed_decimal(n as int));
        out
    } else {
        u64_to_decimal(n as u64)
    }
}

/// A field that holds text or a number written as text: a string is kept,
/// an integer becomes its decimal form, absent or null gives none; any other
/// value is refused.
pub open spec fn string_or_int_spec(v: Option<Json>) -> Result<Option<Seq<char>>, FieldError> {
    match v {
        None => Ok(None),
        Some(Json::Null) => Ok(None),
        Some(Json::Str(s)) => Ok(Some(s@)),
        Some(Json::UInt(n)) => Ok(Some(decimal_of(n as nat))),
        Some(Json::NegInt(n)) => Ok(Some(signed_decimal(n as int))),
        Some(_) => Err(FieldError::UnexpectedType),
    }
}

/// Decodes a field that holds a string or an integer into text.
pub fn decode_string_or_int(v: Option<&Json>) -> (r: Result<Option<String>, FieldError>)
    ensures
        match r {
            Ok(o) => string_or_int_spec(opt_ref(v)) == Ok::<Option<Seq<char>>, FieldError>(
                opt_view(o),
            ),
            Err(e) => string_or_int_spec(opt_ref(v)) == Err::<Option<Seq<char>>, FieldError>(e),
        },
{
    match v {
        None => Ok(None),
        Some(Json::Null) => Ok(None),
        Some(Json::Str(s)) => Ok(Some(s.clone())),
        Some(Json::UInt(n)) => Ok(Some(u64_to_decimal(*n))),
        Some(Json::NegInt(n)) => Ok(Some(i64_to_decimal(*n))),
        Some(_) => Err(FieldError::UnexpectedType),
    }
}

/// A size field: an unsigned integer is kept, a string of decimal digits is
/// read, and a string that is no such number, any other number, absent or
/// null all give none; a boolean, an array or an object is refused.
pub open spec fn size_spec(v: Option<Json>) -> Result<Option<u64>, FieldError> {
    match v {
        None => Ok(None),
        Some(Json::Null) => Ok(None),
        Some(Json::UInt(n)) => Ok(Some(n)),
        Some(Json::NegInt(_)) => Ok(None),
        Some(Json::Fractional) => Ok(None),
        Some(Json::Str(s)) => Ok(parse_decimal_spec(s@)),
        Some(_) => Err(FieldError::UnexpectedType),
    }
}

/// Decodes a size given as a number or as a numeric string.
pub fn decode_size(v: Option<&Json>) -> (r: Result<Option<u64>, FieldError>)
    ensures
        r == size_spec(opt_ref(v)),
{
    match v {
        None => Ok(None),
        Some(Json::Null) => Ok(None),
        Some(Json::UInt(n)) => Ok(Some(*n)),
        Some(Json::NegInt(_)) => Ok(None),
        Some(Json::Fractional) => Ok(None),
        Some(Json::Str(s)) => {
            let digits = chars_of(s.as_str());
            Ok(parse_decimal(&digits))
        },
        Some(_) => Err(FieldError::UnexpectedType),
    }
}

/// One candidate item of a search.
#[derive(Clone, Debug)]
pub struct SearchDocument {
    pub identifier: String,
    pub title: Option<String>,
    pub description: Option<String>,
    pub media_type: Option<String>,
    pub year: Option<String>,
    pub creators: Vec<String>,
    pub subjects: Vec<String>,
    pub estimated_size_bytes: Option<u64>,
    pub download_count: Option<u64>,
}

/// The text of a string value; any other value gives none.
pub open spec fn opt_string_spec(v: Option<Json>) -> Option<Seq<char>> {
    match v {
        Some(Json::Str(s)) => Some(s@),
        _ => None,
    }
}

/// The value is absent, null or a string.
pub open spec fn opt_string_typed(v: Option<Json>) -> bool {
    match v {
        None => true,
        Some(Json::Null) => true,
        Some(Json::Str(_)) => true,
        _ => false,
    }
}

/// The value of an unsigned integer; any other value gives none.
pub open spec fn count_spec(v: Option<Json>) -> Option<u64> {
    match v {
        Some(Json::UInt(n)) => Some(n),
        _ => None,
    }
}

/// The value is absent, null or an unsigned integer.
pub open spec fn count_typed(v: Option<Json>) -> bool {
    match v {
        None => true,
        Some(Json::Null) => true,
        Some(Json::UInt(_)) => true,
        _ => false,
    }
}

/// The identifier of a document: its `identifier` member, when that is a
/// non-empty string.
pub open spec fn identifier_of(v: Json) -> Option<Seq<char>> {
    match member_spec(v, "identifier"@) {
        Some(Json::Str(s)) => if s@.len() > 0 {
            Some(s@)
        } else {
            None
        },
        _ => None,
    }
}

/// A list field as a document keeps it: refused values give the empty list.
pub open spec fn list_or_empty(v: Option<Json>) -> Seq<Seq<char>> {
    match string_list_spec(v) {
        Ok(l) => l,
        Err(_) => Seq::empty(),
    }
}

/// A year field as a document keeps it: refused values give none.
pub open spec fn year_or_none(v: Option<Json>) -> Option<Seq<char>> {
    match string_or_int_spec(v) {
        Ok(y) => y,
        Err(_) => None,
    }
}

/// An element of a result list that the strict reading accepts: an object
/// whose identifier is a string and whose other scalar fields have their
/// declared types.
pub open spec fn strict_shape(v: Json) -> bool {
    &&& v is Object
    &&& member_spec(v, "identifier"@) matches Some(Json::Str(_))
    &&& opt_string_typed(member_spec(v, "title"@))
    &&& opt_string_typed(member_spec(v, "description"@))
    &&& opt_string_typed(member_spec(v, "mediatype"@))
    &&& string_or_int_spec(member_spec(v, "year"@)) is Ok
    &&& count_typed(member_spec(v, "item_size"@))
    &&& count_typed(member_spec(v, "downloads"@))
}

/// `d` is what the strict reading makes of the element `v`.
pub open spec fn strict_document(v: Json, d: SearchDocument) -> bool {
    &&& identifier_of(v) == Some(d.identifier@)
    &&& opt_view(d.title) == opt_string_spec(member_spec(v, "title"@))
    &&& opt_view(d.description) == opt_string_spec(member_spec(v, "description"@))
    &&& opt_view(d.media_type) == opt_string_spec(member_spec(v, "mediatype"@))
    &&& opt_view(d.year) == year_or_none(member_spec(v, "year"@))
    &&& views(d.creators@) == list_or_empty(member_spec(v, "creator"@))
    &&& views(d.subjects@) == list_or_empty(member_spec(v, "subject"@))
    &&& d.estimated_size_bytes == count_spec(member_spec(v, "item_size"@))
    &&& d.download_count == count_spec(member_spec(v, "downloads"@))
}

/// The elements that carry an identifier, in order.
pub open spec fn kept(items: Seq<Json>) -> Seq<Json>
    decreases items.len(),
{
    if items.len() == 0 {
        Seq::empty()
    } else if identifier_of(items.last()) is Some {
        kept(items.drop_last()).push(items.last())
    } else {
        kept(items.drop_last())
    }
}

/// Reads the text of a value that should be a string.
pub fn opt_string(v: Option<&Json>) -> (r: Option<String>)
    ensures
        opt_view(r) == opt_string_spec(opt_ref(v)),
{
    match v {
        Some(Json::Str(s)) => Some(s.clone()),
        _ => None,
    }
}

/// Reads the value of a value that should be an unsigned integer.
pub fn count_of(v: Option<&Json>) -> (r: Option<u64>)
    ensures
        r == count_spec(opt_ref(v)),
{
    match v {
        Some(Json::UInt(n)) => Some(*n),
        _ => None,
    }
}

fn is_opt_string_typed(v: Option<&Json>) -> (r: bool)
    ensures
        r == opt_string_typed(opt_ref(v)),
{
    match v {
        None => true,
        Some(Json::Null) => true,
        Some(Json::Str(_)) => true,
        _ => false,
    }
}

fn is_count_typed(v: Option<&Json>) -> (r: bool)
    ensures
        r == count_typed(opt_ref(v)),
{
    match v {
        None => true,
        Some(Json::Null) => true,
        Some(Json::UInt(_)) => true,
        _ => false,
    }
}

/// The identifier of a document element, when it has a non-empty one.
pub fn identifier_in(v: &Json) -> (r: Option<String>)
    ensures
        opt_view(r) == identifier_of(*v),
{
    match member(v, "identifier") {
        Some(Json::Str(s)) => {
            if s.as_str().is_empty() {
                None
            } else {
                Some(s.clone())
            }
        },
        _ => None,
    }
}

/// Whether the strict reading accepts a result element.
pub fn has_strict_shape(v: &Json) -> (r: bool)
    ensures
        r == strict_shape(*v),
{
    match v {
        Json::Object(_) => {},
        _ => {
            return false;
        },
    }
    let id_ok = match member(v, "identifier") {
        Some(Json::Str(_)) => true,
        _ => false,
    };
    id_ok && is_opt_string_typed(member(v, "title")) && is_opt_string_typed(
        member(v, "description"),
    ) && is_opt_string_typed(member(v, "mediatype")) && decode_string_or_int(
        member(v, "year"),
    ).is_ok() && is_count_typed(member(v, "item_size")) && is_count_typed(member(v, "downloads"))
}

fn list_field(v: Option<&Json>) -> (r: Vec<String>)
    ensures
        views(r@) == list_or_empty(opt_ref(v)),
{
    match decode_string_list(v) {
        Ok(l) => l,
        Err(_) => {
            let l: Vec<String> = Vec::new();
            assert(views(l@) =~= Seq::<Seq<char>>::empty());
            l
        },
    }
}

/// The strict reading of one result element; none when it has no identifier.
pub fn strict_document_of(v: &Json) -> (r: Option<SearchDocument>)
    ensures
        match r {
            Some(d) => strict_document(*v, d),
            None => identifier_of(*v) is None,
        },
{
    let identifier = match identifier_in(v) {
        Some(id) => id,
        None => {
            return None;
        },
    };
    let year = match decode_string_or_int(member(v, "year")) {
        Ok(y) => y,
        Err(_) => None,
    };
    Some(
        SearchDocument {
            identifier,
            title: opt_string(member(v, "title")),
            description: opt_string(member(v, "description")),
            media_type: opt_string(member(v, "mediatype")),
            year,
            creators: list_field(member(v, "creator")),
            subjects: list_field(member(v, "subject")),
            estimated_size_bytes: count_of(member(v, "item_size")),
            download_count: count_of(member(v, "downloads")),
        },
    )
}

/// Why a response could not be read.
#[derive(Clone, Debug)]
pub enum DecodeError {
    /// The text is not JSON; the excerpt is its beginning, for diagnosis.
    Syntax { message: String, excerpt: String },
    /// The service answered with an error message instead of results.
    ApiError(String),
    /// The JSON does not have the expected structure.
    Schema(String),
}

/// The number of characters of the input that a syntax error keeps.
pub const EXCERPT_CHARS: usize = 200;

/// The beginning of `text` that a syntax error keeps.
pub open spec fn excerpt_spec(text: Seq<char>) -> Seq<char> {
    if text.len() <= EXCERPT_CHARS {
        text
    } else {
        text.take(EXCERPT_CHARS as int)
    }
}

impl DecodeError {
    /// A syntax error with the parser's message and the beginning of the text.
    pub fn syntax(message: String, text: &str) -> (r: DecodeError)
        ensures
            r matches DecodeError::Syntax { message: m, excerpt: e } && m@ == message@ && e@
                == excerpt_spec(text@),
    {
        let chars = chars_of(text);
        let mut kept: Vec<char> = Vec::new();
        let mut i: usize = 0;
        while i < chars.len() && i < EXCERPT_CHARS
            invariant
                i <= chars.len(),
                i <= EXCERPT_CHARS,
                chars@ == text@,
                kept@ == chars@.take(i as int),
            decreases chars.len() - i,
        {
            kept.push(chars[i]);
            i = i + 1;
            assert(kept@ =~= chars@.take(i as int));
        }
        assert(kept@ =~= excerpt_spec(text@));
        DecodeError::Syntax { message, excerpt: crate::text::string_of(&kept) }
    }
}

/// One page of search results.
#[derive(Clone, Debug)]
pub struct SearchPage {
    pub num_found: Option<u64>,
    pub documents: Vec<SearchDocument>,
}

/// The elements of `response.docs`, when that is an array.
pub open spec fn docs_array(root: Json) -> Option<Seq<Json>> {
    match member_spec(root, "response"@) {
        Some(resp) => match member_spec(resp, "docs"@) {
            Some(Json::Array(items)) => Some(items@),
            _ => None,
        },
        None => None,
    }
}

/// The `response.numFound` count, when it is an unsigned integer.
pub open spec fn num_found_of(root: Json) -> Option<u64> {
    match member_spec(root, "response"@) {
        Some(resp) => count_spec(member_spec(resp, "numFound"@)),
        None => None,
    }
}

/// `docs` is the strict reading of the elements that carry an identifier.
pub open spec fn strict_documents(items: Seq<Json>, docs: Seq<SearchDocument>) -> bool {
    &&& docs.len() == kept(items).len()
    &&& forall|i: int| 0 <= i < docs.len() ==> strict_document(kept(items)[i], #[trigger] docs[i])
}

/// Every element has the strict shape.
pub open spec fn all_strict(items: Seq<Json>) -> bool {
    forall|i: int| 0 <= i < items.len() ==> strict_shape(#[trigger] items[i])
}

/// What the strict reading of a search response gives: the page when
/// `response.docs` is an array of well-typed elements; the service's message
/// when there is no such array but a string `error`; else a schema error.
pub open spec fn search_response_spec(root: Json, r: Result<SearchPage, DecodeError>) -> bool {
    match docs_array(root) {
        Some(items) => if all_strict(items) {
            r matches Ok(page) && page.num_found == num_found_of(root) && strict_documents(
                items,
                page.documents@,
            )
        } else {
            r matches Err(DecodeError::Schema(_))
        },
        None => match member_spec(root, "error"@) {
            Some(Json::Str(m)) => r matches Err(DecodeError::ApiError(e)) && e@ == m@,
            _ => r matches Err(DecodeError::Schema(_)),
        },
    }
}

fn docs_of<'a>(root: &'a Json) -> (r: Option<&'a Vec<Json>>)
    ensures
        match r {
            Some(items) => docs_array(*root) == Some(items@),
            None => docs_array(*root) is None,
        },
{
    match member(root, "response") {
        Some(resp) => match member(resp, "docs") {
            Some(Json::Array(items)) => Some(items),
            _ => None,
        },
        None => None,
    }
}

/// Reads a search response strictly.
pub fn decode_search_response(root: &Json) -> (r: Result<SearchPage, DecodeError>)
    ensures
        search_response_spec(*root, r),
{
    let items = match docs_of(root) {
        Some(items) => items,
        None => {
            return match member(root, "error") {
                Some(Json::Str(m)) => Err(DecodeError::ApiError(m.clone())),
                _ => Err(DecodeError::Schema(owned("response.docs is not an array"))),
            };
        },
    };
    let mut documents: Vec<SearchDocument> = Vec::new();
    let mut i: usize = 0;
    while i < items.len()
        invariant
            i <= items.len(),
            docs_array(*root) == Some(items@),
            all_strict(items@.take(i as int)),
            strict_documents(items@.take(i as int), documents@),
        decreases items.len() - i,
    {
        let item = &items[i];
        if !has_strict_shape(item) {
            assert(!all_strict(items@));
            return Err(DecodeError::Schema(owned("a result has an unexpected shape")));
        }
        let ghost before = documents@;
        assert(items@.take(i + 1).drop_last() =~= items@.take(i as int));
        assert(items@.take(i + 1).last() == items@[i as int]);
        match strict_document_of(item) {
            Some(d) => {
                documents.push(d);
                assert(kept(items@.take(i + 1)) == kept(items@.take(i as int)).push(items@[i as int]));
            },
            None => {
                assert(kept(items@.take(i + 1)) == kept(items@.take(i as int)));
            },
        }
        i = i + 1;
        assert(forall|k: int| 0 <= k < i ==> items@.take(i as int)[k] == items@[k]);
    }
    assert(items@.take(items.len() as int) =~= items@);
    let num_found = match member(root, "response") {
        Some(resp) => count_of(member(resp, "numFound")),
        None => None,
    };
    Ok(SearchPage { num_found, documents })
}

/// The most result elements that the best-effort reading looks at.
pub const EXTRACT_LIMIT: usize = 20;

/// The size assumed for a result whose size is not given: 15 MiB.
pub const ESTIMATED_SIZE: u64 = 15728640;

/// The texts of the string elements, in order; other elements are skipped.
pub open spec fn strings_in(items: Seq<Json>) -> Seq<Seq<char>>
    decreases items.len(),
{
    if items.len() == 0 {
        Seq::empty()
    } else if items.last() is Str {
        strings_in(items.drop_last()).push(str_of(items.last()))
    } else {
        strings_in(items.drop_last())
    }
}

/// A list field as the best-effort reading takes it: the strings of an
/// array, a single string, or nothing.
pub open spec fn loose_strings(v: Option<Json>) -> Seq<Seq<char>> {
    match v {
        Some(Json::Array(items)) => strings_in(items@),
        Some(Json::Str(s)) => seq![s@],
        _ => Seq::empty(),
    }
}

/// A year as the best-effort reading takes it: a string, or an integer that
/// fits in an `i64`, in decimal.
pub open spec fn loose_year(v: Option<Json>) -> Option<Seq<char>> {
    match v {
        Some(Json::Str(s)) => Some(s@),
        Some(Json::UInt(n)) => if n <= i64::MAX {
            Some(decimal_of(n as nat))
        } else {
            None
        },
        Some(Json::NegInt(n)) => Some(signed_decimal(n as int)),
        _ => None,
    }
}

/// The number that a string value spells in decimal.
pub open spec fn str_number(v: Option<Json>) -> Option<u64> {
    match v {
        Some(Json::Str(s)) => parse_decimal_spec(s@),
        _ => None,
    }
}

/// The size of a result: `size` or `item_size` as a number, else either as
/// a numeric string, else the estimate.
pub open spec fn loose_size(v: Json) -> u64 {
    let size = member_spec(v, "size"@);
    let item_size = member_spec(v, "item_size"@);
    match count_spec(size) {
        Some(n) => n,
        None => match count_spec(item_size) {
            Some(n) => n,
            None => match str_number(size) {
                Some(n) => n,
                None => match str_number(item_size) {
                    Some(n) => n,
                    None => ESTIMATED_SIZE,
                },
            },
        },
    }
}

/// `d` is what the best-effort reading makes of the element `v`.
pub open spec fn extracted_document(v: Json, d: SearchDocument) -> bool {
    &&& identifier_of(v) == Some(d.identifier@)
    &&& opt_view(d.title) == Some(
        match opt_string_spec(member_spec(v, "title"@)) {
            Some(t) => t,
            None => "(No Title)"@,
        },
    )
    &&& d.description is None
    &&& opt_view(d.media_type) == Some("movies"@)
    &&& opt_view(d.year) == loose_year(member_spec(v, "year"@))
    &&& views(d.creators@) == loose_strings(member_spec(v, "creator"@))
    &&& views(d.subjects@) == loose_strings(member_spec(v, "subject"@))
    &&& d.estimated_size_bytes == Some(loose_size(v))
    &&& d.download_count == count_spec(member_spec(v, "downloads"@))
}

/// The elements that the best-effort reading looks at: the first twenty of
/// `response.docs`, or none when that is no array.
pub open spec fn extract_window(root: Json) -> Seq<Json> {
    match docs_array(root) {
        Some(items) => if items.len() <= EXTRACT_LIMIT {
            items
        } else {
            items.take(EXTRACT_LIMIT as int)
        },
        None => Seq::empty(),
    }
}

/// `docs` is the best-effort reading of the elements that carry an identifier.
pub open spec fn extracted_documents(items: Seq<Json>, docs: Seq<SearchDocument>) -> bool {
    &&& docs.len() == kept(items).len()
    &&& forall|i: int|
        0 <= i < docs.len() ==> extracted_document(kept(items)[i], #[trigger] docs[i])
}

/// The strings of a field that holds a string or an array; other elements
/// and other values are skipped.
pub fn extract_string_array(item: &Json, key: &str) -> (r: Vec<String>)
    ensures
        views(r@) == loose_strings(member_spec(*item, key@)),
{
    match member(item, key) {
        Some(Json::Array(items)) => {
            let mut out: Vec<String> = Vec::new();
            let mut i: usize = 0;
            while i < items.len()
                invariant
                    i <= items.len(),
                    views(out@) == strings_in(items@.take(i as int)),
                decreases items.len() - i,
            {
                assert(items@.take(i + 1).drop_last() =~= items@.take(i as int));
                assert(items@.take(i + 1).last() == items@[i as int]);
                match &items[i] {
                    Json::Str(s) => {
                        out.push(s.clone());
                        assert(views(out@) =~= strings_in(items@.take(i + 1)));
                    },
                    _ => {},
                }
                i = i + 1;
            }
            assert(items@.take(items.len() as int) =~= items@);
            out
        },
        Some(Json::Str(s)) => {
            let mut out: Vec<String> = Vec::new();
            out.push(s.clone());
            assert(views(out@) =~= seq![s@]);
            out
        },
        _ => {
            let out: Vec<String> = Vec::new();
            assert(views(out@) =~= Seq::<Seq<char>>::empty());
            out
        },
    }
}

fn year_loosely(v: Option<&Json>) -> (r: Option<String>)
    ensures
        opt_view(r) == loose_year(opt_ref(v)),
{
    match v {
        Some(Json::Str(s)) => Some(s.clone()),
        Some(Json::UInt(n)) => if *n <= i64::MAX as u64 {
            Some(u64_to_decimal(*n))
        } else {
            None
        },
        Some(Json::NegInt(n)) => Some(i64_to_decimal(*n)),
        _ => None,
    }
}

fn number_in_string(v: Option<&Json>) -> (r: Option<u64>)
    ensures
        r == str_number(opt_ref(v)),
{
    match v {
        Some(Json::Str(s)) => {
            let digits = chars_of(s.as_str());
            parse_decimal(&digits)
        },
        _ => None,
    }
}

fn size_loosely(v: &Json) -> (r: u64)
    ensures
        r == loose_size(*v),
{
    let size = member(v, "size");
    let item_size = member(v, "item_size");
    match count_of(size) {
        Some(n) => n,
        None => match count_of(item_size) {
            Some(n) => n,
            None => match number_in_string(size) {
                Some(n) => n,
                None => match number_in_string(item_size) {
                    Some(n) => n,
                    None => ESTIMATED_SIZE,
                },
            },
        },
    }
}

/// The best-effort reading of one result element; none when it has no
/// identifier.
pub fn extracted_document_of(v: &Json) -> (r: Option<SearchDocument>)
    ensures
        match r {
            Some(d) => extracted_document(*v, d),
            None => identifier_of(*v) is None,
        },
{
    let identifier = match identifier_in(v) {
        Some(id) => id,
        None => {
            return None;
        },
    };
    let title = match member(v, "title") {
        Some(Json::Str(t)) => t.clone(),
        _ => owned("(No Title)"),
    };
    Some(
        SearchDocument {
            identifier,
            title: Some(title),
            description: None,
            media_type: Some(owned("movies")),
            year: year_loosely(member(v, "year")),
            creators: extract_string_array(v, "creator"),
            subjects: extract_string_array(v, "subject"),
            estimated_size_bytes: Some(size_loosely(v)),
            download_count: count_of(member(v, "downloads")),
        },
    )
}

/// Reads what can be read of a search response: the first twenty elements
/// of `response.docs` that carry an identifier. Never fails; gives nothing
/// when there is no such array.
pub fn try_extract_identifiers(root: &Json) -> (r: Vec<SearchDocument>)
    ensures
        extracted_documents(extract_window(*root), r@),
{
    let mut docs: Vec<SearchDocument> = Vec::new();
    let items = match docs_of(root) {
        Some(items) => items,
        None => {
            return docs;
        },
    };
    let n = if items.len() <= EXTRACT_LIMIT {
        items.len()
    } else {
        EXTRACT_LIMIT
    };
    let mut i: usize = 0;
    while i < n
        invariant
            n <= items.len(),
            i <= n,
            extract_window(*root) == items@.take(n as int),
            extracted_documents(items@.take(i as int), docs@),
        decreases n - i,
    {
        let item = &items[i];
        assert(items@.take(i + 1).drop_last() =~= items@.take(i as int));
        assert(items@.take(i + 1).last() == items@[i as int]);
        match extracted_document_of(item) {
            Some(d) => {
                docs.push(d);
                assert(kept(items@.take(i + 1)) == kept(items@.take(i as int)).push(items@[i as int]));
            },
            None => {
                assert(kept(items@.take(i + 1)) == kept(items@.take(i as int)));
            },
        }
        i = i + 1;
    }
    assert(items@.take(n as int).take(n as int) =~= items@.take(n as int));
    assert(items@.take(n as int) =~= items@.take(i as int));
    docs
}

/// The documents of a search response: the strict reading when it succeeds,
/// the best-effort reading when the structure does not match, and the
/// service's message when it answered with an error.
pub open spec fn search_documents_spec(root: Json, r: Result<Vec<SearchDocument>, DecodeError>) -> bool {
    match docs_array(root) {
        Some(items) => if all_strict(items) {
            r matches Ok(docs) && strict_documents(items, docs@)
        } else {
            r matches Ok(docs) && extracted_documents(extract_window(root), docs@)
        },
        None => match member_spec(root, "error"@) {
            Some(Json::Str(m)) => r matches Err(DecodeError::ApiError(e)) && e@ == m@,
            _ => r matches Ok(docs) && docs@.len() == 0,
        },
    }
}

/// Reads the documents of a search response, falling back to the
/// best-effort reading when the strict one meets an unexpected structure.
pub fn search_documents(root: &Json) -> (r: Result<Vec<SearchDocument>, DecodeError>)
    ensures
        search_documents_spec(*root, r),
{
    match decode_search_response(root) {
        Ok(page) => Ok(page.documents),
        Err(DecodeError::ApiError(m)) => Err(DecodeError::ApiError(m)),
        Err(_) => {
            let docs = try_extract_identifiers(root);
            proof {
                if docs_array(*root) is None {
                    assert(kept(Seq::<Json>::empty()) =~= Seq::<Json>::empty());
                }
            }
            Ok(docs)
        },
    }
}

/// A list field given as one string decodes to that one string; given as
/// an array of strings, to those strings in the array's order; absent, to
/// no strings.
pub proof fn lemma_string_list_shapes(s: String, items: Vec<Json>)
    requires
        all_strings(items@),
    ensures
        string_list_spec(Some(Json::Str(s))) == Ok::<Seq<Seq<char>>, FieldError>(seq![s@]),
        string_list_spec(None) == Ok::<Seq<Seq<char>>, FieldError>(Seq::empty()),
        string_list_spec(Some(Json::Array(items))) matches Ok(l) && l.len() == items@.len()
            && forall|i: int| 0 <= i < l.len() ==> #[trigger] l[i] == str_of(items@[i]),
{
}

} // verus!
