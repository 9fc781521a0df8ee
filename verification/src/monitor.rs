use vstd::prelude::*;
use crate::fingerprint;
use crate::models::{ClipItem, ContentType};
use crate::text;

verus! {

/// What the clipboard watcher remembers between polls: the last text it
/// recorded (trimmed) and the fingerprint of the last image it recorded.
pub struct Memory {
    pub last_text: Option<Seq<char>>,
    pub last_image_hash: Option<Seq<char>>,
}

/// Whether a text read from the clipboard is recorded: its trimmed form must
/// be non-empty and differ from the last recorded text.
pub open spec fn text_is_new(m: Memory, text: Seq<char>) -> bool {
    let t = text::spec_trim(text);
    t.len() > 0 && m.last_text != Some(t)
}

/// The memory after recording a text: the text is remembered and the image
/// is forgotten, so a following image is taken as new.
pub open spec fn after_text(m: Memory, text: Seq<char>) -> Memory {
    if text_is_new(m, text) {
        Memory { last_text: Some(text::spec_trim(text)), last_image_hash: None }
    } else {
        m
    }
}

/// Whether an image read from the clipboard is recorded: it must have pixels
/// and a fingerprint other than the last recorded one.
pub open spec fn image_is_new(m: Memory, rgba: Seq<u8>, width: u32, height: u32) -> bool {
    width != 0 && height != 0 && m.last_image_hash != Some(
        fingerprint::spec_image_hash(rgba, width, height),
    )
}

pub open spec fn after_image(m: Memory, rgba: Seq<u8>, width: u32, height: u32) -> Memory {
    if image_is_new(m, rgba, width, height) {
        Memory {
            last_text: None,
            last_image_hash: Some(fingerprint::spec_image_hash(rgba, width, height)),
        }
    } else {
        m
    }
}

/// The clipboard watcher's de-duplication state.
pub struct MonitorState {
    last_text: Option<String>,
    last_image_hash: Option<String>,
}

impl MonitorState {
    pub closed spec fn memory(&self) -> Memory {
        Memory {
            last_text: text::opt_text(self.last_text),
            last_image_hash: text::opt_text(self.last_image_hash),
        }
    }

    /// A watcher that has recorded nothing yet.
    pub fn new() -> (r: MonitorState)
        ensures
            r.memory() == (Memory { last_text: None, last_image_hash: None }),
    {
        MonitorState { last_text: None, last_image_hash: None }
    }

    /// Forgets what was recorded, as after a failed poll: the next text or
    /// image is taken as new.
    pub fn forget(&mut self)
        ensures
            final(self).memory() == (Memory { last_text: None, last_image_hash: None }),
    {
        self.last_text = None;
        self.last_image_hash = None;
    }

    /// Takes a text read from the clipboard at `now`. Returns the entry to
    /// record (holding the text as read, untrimmed) when it is new.
    pub fn observe_text(&mut self, text: String, now: i64) -> (r: Option<ClipItem>)
        ensures
            final(self).memory() == after_text(old(self).memory(), text@),
            text_is_new(old(self).memory(), text@) <==> r is Some,
            r matches Some(item) ==> {
                &&& item.id == 0
                &&& item.content_type == ContentType::Text
                &&& item.text_content == Some(text)
                &&& item.image_path is None
                &&& item.image_hash is None
                &&& item.created_at == now
                &&& !item.is_pinned
            },
    {
        let trimmed = text::trim(text.as_str());
        if trimmed.unicode_len() == 0 {
            return None;
        }
        let same = match &self.last_text {
            Some(last) => text::same_text(last.as_str(), trimmed),
            None => false,
        };
        if same {
            return None;
        }
        let t = String::from_str(trimmed);
        self.last_text = Some(t);
        self.last_image_hash = None;
        Some(ClipItem::new_text(0, text, now))
    }

    /// Takes an image read from the clipboard. Returns its fingerprint when it
    /// is new; the caller saves it and records it under that fingerprint.
    pub fn observe_image(&mut self, rgba: &[u8], width: u32, height: u32) -> (r: Option<String>)
        ensures
            final(self).memory() == after_image(old(self).memory(), rgba@, width, height),
            image_is_new(old(self).memory(), rgba@, width, height) <==> r is Some,
            r matches Some(h) ==> h@ == fingerprint::spec_image_hash(rgba@, width, height),
    {
        if width == 0 || height == 0 {
            return None;
        }
        let hash = fingerprint::image_hash(rgba, width, height);
        let same = match &self.last_image_hash {
            Some(last) => text::same_text(last.as_str(), hash.as_str()),
            None => false,
        };
        if same {
            return None;
        }
        self.last_image_hash = Some(hash.clone());
        self.last_text = None;
        Some(hash)
    }
}

/// A text is recorded once: right after it is recorded, the same text, or
/// any text that trims to the same characters, is not recorded again.
pub proof fn lemma_text_recorded_once(m: Memory, text: Seq<char>, again: Seq<char>)
    requires
        text_is_new(m, text),
        text::spec_trim(again) == text::spec_trim(text),
    ensures
        !text_is_new(after_text(m, text), again),
{
}

/// A different text is recorded: right after a text is recorded, any text
/// whose trimmed form is non-empty and differs from it is recorded too.
pub proof fn lemma_different_text_recorded(m: Memory, text: Seq<char>, other: Seq<char>)
    requires
        text_is_new(m, text),
        text::spec_trim(other).len() > 0,
        text::spec_trim(other) != text::spec_trim(text),
    ensures
        text_is_new(after_text(m, text), other),
        after_text(m, text).last_text == Some(text::spec_trim(text)),
{
}

/// A watcher that has recorded nothing records any text that has a
/// character other than whitespace.
pub proof fn lemma_fresh_watcher_records_text(text: Seq<char>, i: int)
    requires
        0 <= i < text.len(),
        !text::unicode_white_space(text[i]),
    ensures
        text_is_new(Memory { last_text: None, last_image_hash: None }, text),
{
    text::lemma_trim_blank_iff_all_whitespace(text);
}

/// A different image is recorded: right after an image is recorded, any
/// image with pixels and another fingerprint is recorded too.
pub proof fn lemma_different_image_recorded(
    m: Memory,
    rgba: Seq<u8>,
    width: u32,
    height: u32,
    other: Seq<u8>,
    other_width: u32,
    other_height: u32,
)
    requires
        image_is_new(m, rgba, width, height),
        other_width != 0,
        other_height != 0,
        fingerprint::spec_image_hash(other, other_width, other_height)
            != fingerprint::spec_image_hash(rgba, width, height),
    ensures
        image_is_new(after_image(m, rgba, width, height), other, other_width, other_height),
        after_image(m, rgba, width, height).last_image_hash == Some(
            fingerprint::spec_image_hash(rgba, width, height),
        ),
{
}

/// A watcher that has recorded nothing records any image with pixels.
pub proof fn lemma_fresh_watcher_records_image(rgba: Seq<u8>, width: u32, height: u32)
    requires
        width != 0,
        height != 0,
    ensures
        image_is_new(Memory { last_text: None, last_image_hash: None }, rgba, width, height),
{
}

/// An image is recorded once: right after it is recorded, the same pixels
/// and size are not recorded again.
pub proof fn lemma_image_recorded_once(m: Memory, rgba: Seq<u8>, width: u32, height: u32)
    requires
        image_is_new(m, rgba, width, height),
    ensures
        !image_is_new(after_image(m, rgba, width, height), rgba, width, height),
{
}

/// Text whose trimmed form is empty is never recorded.
pub proof fn lemma_blank_text_ignored(m: Memory, text: Seq<char>)
    requires
        text::spec_trim(text).len() == 0,
    ensures
        !text_is_new(m, text),
        after_text(m, text) == m,
{
}

/// An image without pixels in one of its dimensions is never recorded.
pub proof fn lemma_empty_image_ignored(m: Memory, rgba: Seq<u8>, width: u32, height: u32)
    requires
        width == 0 || height == 0,
    ensures
        !image_is_new(m, rgba, width, height),
        after_image(m, rgba, width, height) == m,
{
}

/// Recording a text makes any image new again (given pixels), and recording
/// an image makes any non-blank text new again: copying back and forth
/// between a text and an image records each copy.
pub proof fn lemma_alternation_recorded(
    m: Memory,
    text: Seq<char>,
    rgba: Seq<u8>,
    width: u32,
    height: u32,
)
    requires
        width != 0,
        height != 0,
    ensures
        text_is_new(m, text) ==> image_is_new(after_text(m, text), rgba, width, height),
        image_is_new(m, rgba, width, height) && text::spec_trim(text).len() > 0 ==> text_is_new(
            after_image(m, rgba, width, height),
            text,
        ),
{
}

} // verus!
