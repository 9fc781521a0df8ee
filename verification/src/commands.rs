use vstd::prelude::*;
use vstd::string::*;
use crate::models::{ClipItem, RestoreAction};
use crate::text;

verus! {

/// Character of the standard base64 alphabet for `v` in `0..64`.
pub open spec fn base64_char(v: int) -> char {
    if v < 26 {
        (v + 65) as char
    } else if v < 52 {
        (v + 71) as char
    } else if v < 62 {
        (v - 4) as char
    } else if v == 62 {
        '+'
    } else {
        '/'
    }
}

/// Standard base64 with `=` padding: every three bytes become four
/// characters, and a final group of one or two bytes is padded to four.
pub open spec fn base64_standard(b: Seq<u8>) -> Seq<char>
    decreases b.len(),
{
    if b.len() == 0 {
        Seq::empty()
    } else if b.len() == 1 {
        seq![base64_char(b[0] as int / 4), base64_char((b[0] as int % 4) * 16), '=', '=']
    } else if b.len() == 2 {
        seq![
            base64_char(b[0] as int / 4),
            base64_char((b[0] as int % 4) * 16 + b[1] as int / 16),
            base64_char((b[1] as int % 16) * 4),
            '=',
        ]
    } else {
        seq![
            base64_char(b[0] as int / 4),
            base64_char((b[0] as int % 4) * 16 + b[1] as int / 16),
            base64_char((b[1] as int % 16) * 4 + b[2] as int / 64),
            base64_char(b[2] as int % 64),
        ] + base64_standard(b.subrange(3, b.len() as int))
    }
}

/// Base64 writes four characters for every started group of three bytes.
pub proof fn lemma_base64_length(b: Seq<u8>)
    ensures
        base64_standard(b).len() == 4 * ((b.len() + 2) / 3),
    decreases b.len(),
{
    if b.len() > 2 {
        lemma_base64_length(b.subrange(3, b.len() as int));
    }
}

pub open spec fn data_url_prefix() -> Seq<char> {
    seq![
        'd', 'a', 't', 'a', ':', 'i', 'm', 'a', 'g', 'e', '/', 'p', 'n', 'g', ';', 'b', 'a', 's',
        'e', '6', '4', ',',
    ]
}

/// `base64::engine::general_purpose::STANDARD.encode(bytes)`.
/// Trusted: the standard alphabet with `=` padding, as `base64_standard` spells out.
#[verifier::external_body]
fn encode_base64(bytes: &[u8]) -> (r: String)
    ensures
        r@ == base64_standard(bytes@),
{
    base64::Engine::encode(&base64::engine::general_purpose::STANDARD, bytes)
}

/// The `data:` URL under which the interface shows a PNG file's bytes.
pub fn png_data_url(png: &[u8]) -> (r: String)
    ensures
        r@ == data_url_prefix() + base64_standard(png@),
{
    proof {
        reveal_strlit("data:image/png;base64,");
    }
    assert("data:image/png;base64,"@ =~= data_url_prefix());
    let encoded = encode_base64(png);
    let mut url = String::from_str("data:image/png;base64,");
    url.append(encoded.as_str());
    url
}

pub open spec fn not_found_text() -> Seq<char> {
    seq!['条', '目', '不', '存', '在']
}

pub open spec fn not_an_image_text() -> Seq<char> {
    seq!['非', '图', '片', '条', '目']
}

/// Why a command about one entry could not go on.
#[derive(Debug, Clone, Copy, PartialEq, Eq, Structural)]
pub enum ItemError {
    /// No entry has the requested id.
    NotFound,
    /// The entry has no image file.
    NotAnImage,
}

impl ItemError {
    /// The message shown to the user.
    pub fn message(&self) -> (r: String)
        ensures
            r@ == match self {
                ItemError::NotFound => not_found_text(),
                ItemError::NotAnImage => not_an_image_text(),
            },
    {
        match self {
            ItemError::NotFound => {
                proof {
                    reveal_strlit("条目不存在");
                }
                assert("条目不存在"@ =~= not_found_text());
                String::from_str("条目不存在")
            },
            ItemError::NotAnImage => {
                proof {
                    reveal_strlit("非图片条目");
                }
                assert("非图片条目"@ =~= not_an_image_text());
                String::from_str("非图片条目")
            },
        }
    }
}

/// The image file to preview for the entry looked up by id: the lookup must
/// have found an entry, and the entry must name a file.
pub fn preview_file(item: Option<ClipItem>) -> (r: Result<String, ItemError>)
    ensures
        match item {
            None => r == Err::<String, ItemError>(ItemError::NotFound),
            Some(it) => match it.image_path {
                Some(p) => if p@.len() > 0 {
                    r matches Ok(f) && f@ == p@
                } else {
                    r == Err::<String, ItemError>(ItemError::NotAnImage)
                },
                None => r == Err::<String, ItemError>(ItemError::NotAnImage),
            },
        },
{
    match item {
        None => Err(ItemError::NotFound),
        Some(it) => match it.image_path {
            Some(p) => {
                if p.as_str().unicode_len() > 0 {
                    Ok(p)
                } else {
                    Err(ItemError::NotAnImage)
                }
            },
            None => Err(ItemError::NotAnImage),
        },
    }
}

/// What restoring the entry looked up by id writes to the clipboard.
pub fn restore_plan(item: Option<ClipItem>) -> (r: Result<RestoreAction, ItemError>)
    ensures
        match item {
            None => r == Err::<RestoreAction, ItemError>(ItemError::NotFound),
            Some(it) => r matches Ok(a) && it.restore_action_is(a),
        },
{
    match item {
        None => Err(ItemError::NotFound),
        Some(it) => Ok(it.restore_action()),
    }
}

/// How the list is filled for a search box: recent entries when the query is
/// blank, else the text entries that contain the query.
#[derive(Debug, Clone)]
pub enum SearchRequest {
    /// The most recent entries, at most this many.
    Recent(i64),
    /// Text entries containing this query.
    Matching(String),
}

/// Whether a trimmed query is blank.
pub open spec fn is_blank(query: Seq<char>) -> bool {
    text::spec_trim(query).len() == 0
}

/// A query lists the recent entries only when it is all whitespace: any
/// query with a character that is not whitespace (a single `猫`, say) is
/// searched for.
pub proof fn lemma_blank_only_when_whitespace(query: Seq<char>)
    ensures
        is_blank(query) <==> forall|i: int|
            0 <= i < query.len() ==> text::unicode_white_space(#[trigger] query[i]),
{
    text::lemma_trim_blank_iff_all_whitespace(query);
}

/// What a search for `query` lists: at most 200 recent entries when the
/// query is only whitespace, else the matches for the query as typed.
pub fn plan_search(query: String) -> (r: SearchRequest)
    ensures
        match r {
            SearchRequest::Recent(n) => is_blank(query@) && n == 200,
            SearchRequest::Matching(q) => !is_blank(query@) && q@ == query@,
        },
{
    if text::trim(query.as_str()).unicode_len() == 0 {
        SearchRequest::Recent(200)
    } else {
        SearchRequest::Matching(query)
    }
}

} // verus!
