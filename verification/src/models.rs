use vstd::prelude::*;
use crate::text;

verus! {

/// The characters of the tag under which text clips are stored.
pub open spec fn text_tag() -> Seq<char> {
    seq!['t', 'e', 'x', 't']
}

/// The characters of the tag under which image clips are stored.
pub open spec fn image_tag() -> Seq<char> {
    seq!['i', 'm', 'a', 'g', 'e']
}

/// Kind of content a clip holds.
#[derive(Debug, Clone, Copy, PartialEq, Eq, Structural)]
pub enum ContentType {
    Text,
    Image,
}

impl ContentType {
    /// The stored tag of this kind.
    pub open spec fn tag(self) -> Seq<char> {
        match self {
            ContentType::Text => text_tag(),
            ContentType::Image => image_tag(),
        }
    }

    /// The kind whose tag is `s`, if any.
    pub open spec fn parse_tag(s: Seq<char>) -> Option<ContentType> {
        if s == text_tag() {
            Some(ContentType::Text)
        } else if s == image_tag() {
            Some(ContentType::Image)
        } else {
            None
        }
    }

    pub fn as_str(&self) -> (r: &'static str)
        ensures
            r@ == self.tag(),
    {
        match self {
            ContentType::Text => {
                proof {
                    reveal_strlit("text");
                }
                "text"
            },
            ContentType::Image => {
                proof {
                    reveal_strlit("image");
                }
                "image"
            },
        }
    }

    pub fn from_str(s: &str) -> (r: Option<ContentType>)
        ensures
            r == ContentType::parse_tag(s@),
    {
        proof {
            reveal_strlit("text");
            reveal_strlit("image");
        }
        assert("text"@ =~= text_tag());
        assert("image"@ =~= image_tag());
        if text::same_text(s, "text") {
            Some(ContentType::Text)
        } else if text::same_text(s, "image") {
            Some(ContentType::Image)
        } else {
            None
        }
    }
}

/// Each kind reads back from its tag, so the tag names the kind.
pub proof fn lemma_tag_round_trip(t: ContentType)
    ensures
        ContentType::parse_tag(t.tag()) == Some(t),
{
    assert(text_tag() != image_tag()) by {
        assert(text_tag().len() != image_tag().len());
    }
}

/// One recorded clipboard entry.
#[derive(Debug, Clone)]
pub struct ClipItem {
    pub id: i64,
    pub content_type: ContentType,
    pub text_content: Option<String>,
    pub image_path: Option<String>,
    pub image_hash: Option<String>,
    /// Unix time in seconds.
    pub created_at: i64,
    pub is_pinned: bool,
}

/// The stored integer for a pinned flag.
pub open spec fn spec_pin_flag(pinned: bool) -> i32 {
    if pinned {
        1
    } else {
        0
    }
}

/// What the clipboard is given back when an entry is restored.
#[derive(Debug, Clone)]
pub enum RestoreAction {
    /// Put this text on the clipboard.
    WriteText(String),
    /// Load the image file of this name and put its pixels on the clipboard.
    WriteImage(String),
    /// An image entry without a file: nothing is written.
    Nothing,
}

impl ClipItem {
    /// A new, unpinned text entry.
    pub fn new_text(id: i64, text: String, timestamp: i64) -> (r: ClipItem)
        ensures
            r.id == id,
            r.content_type == ContentType::Text,
            r.text_content == Some(text),
            r.image_path is None,
            r.image_hash is None,
            r.created_at == timestamp,
            !r.is_pinned,
    {
        ClipItem {
            id,
            content_type: ContentType::Text,
            text_content: Some(text),
            image_path: None,
            image_hash: None,
            created_at: timestamp,
            is_pinned: false,
        }
    }

    /// A new, unpinned image entry.
    pub fn new_image(id: i64, image_path: String, image_hash: String, timestamp: i64) -> (r:
        ClipItem)
        ensures
            r.id == id,
            r.content_type == ContentType::Image,
            r.text_content is None,
            r.image_path == Some(image_path),
            r.image_hash == Some(image_hash),
            r.created_at == timestamp,
            !r.is_pinned,
    {
        ClipItem {
            id,
            content_type: ContentType::Image,
            text_content: None,
            image_path: Some(image_path),
            image_hash: Some(image_hash),
            created_at: timestamp,
            is_pinned: false,
        }
    }

    /// The entry a stored row reads back as. An unknown type tag is taken as
    /// text; the image hash is not read back; any non-zero pinned flag pins.
    pub open spec fn spec_from_row(
        id: i64,
        content_type: Seq<char>,
        text_content: Option<String>,
        image_path: Option<String>,
        created_at: i64,
        pinned_flag: i32,
    ) -> ClipItem {
        ClipItem {
            id,
            content_type: match ContentType::parse_tag(content_type) {
                Some(t) => t,
                None => ContentType::Text,
            },
            text_content,
            image_path,
            image_hash: None,
            created_at,
            is_pinned: pinned_flag != 0,
        }
    }

    /// An entry read back from a stored row.
    pub fn from_row(
        id: i64,
        content_type: &str,
        text_content: Option<String>,
        image_path: Option<String>,
        created_at: i64,
        pinned_flag: i32,
    ) -> (r: ClipItem)
        ensures
            r == ClipItem::spec_from_row(
                id,
                content_type@,
                text_content,
                image_path,
                created_at,
                pinned_flag,
            ),
    {
        let content_type = match ContentType::from_str(content_type) {
            Some(t) => t,
            None => ContentType::Text,
        };
        ClipItem {
            id,
            content_type,
            text_content,
            image_path,
            image_hash: None,
            created_at,
            is_pinned: pinned_flag != 0,
        }
    }

    /// The entry to insert again when a deletion is undone: the same content,
    /// time and pin, with the id left for the database to assign.
    pub fn for_reinsertion(self) -> (r: ClipItem)
        ensures
            r.id == 0,
            r.content_type == self.content_type,
            r.text_content == self.text_content,
            r.image_path == self.image_path,
            r.image_hash == self.image_hash,
            r.created_at == self.created_at,
            r.is_pinned == self.is_pinned,
    {
        ClipItem {
            id: 0,
            content_type: self.content_type,
            text_content: self.text_content,
            image_path: self.image_path,
            image_hash: self.image_hash,
            created_at: self.created_at,
            is_pinned: self.is_pinned,
        }
    }

    /// The integer stored for this entry's pinned flag.
    pub fn pin_flag(&self) -> (r: i32)
        ensures
            r == spec_pin_flag(self.is_pinned),
    {
        pin_flag(self.is_pinned)
    }

    /// Whether `r` is what restoring this entry writes: its text (empty if
    /// absent) for a text entry; for an image entry its file, or nothing
    /// when it names no file.
    pub open spec fn restore_action_is(self, r: RestoreAction) -> bool {
        match r {
            RestoreAction::WriteText(t) => {
                &&& self.content_type == ContentType::Text
                &&& t@ == match self.text_content {
                    Some(s) => s@,
                    None => Seq::<char>::empty(),
                }
            },
            RestoreAction::WriteImage(f) => {
                &&& self.content_type == ContentType::Image
                &&& self.image_path matches Some(p)
                &&& p@.len() > 0
                &&& f@ == p@
            },
            RestoreAction::Nothing => {
                &&& self.content_type == ContentType::Image
                &&& (self.image_path matches Some(p) ==> p@.len() == 0)
            },
        }
    }

    /// What restoring this entry writes to the clipboard.
    pub fn restore_action(self) -> (r: RestoreAction)
        ensures
            self.restore_action_is(r),
    {
        match self.content_type {
            ContentType::Text => {
                let text = match self.text_content {
                    Some(s) => s,
                    None => String::new(),
                };
                RestoreAction::WriteText(text)
            },
            ContentType::Image => {
                match self.image_path {
                    Some(p) => {
                        if p.as_str().unicode_len() == 0 {
                            RestoreAction::Nothing
                        } else {
                            RestoreAction::WriteImage(p)
                        }
                    },
                    None => RestoreAction::Nothing,
                }
            },
        }
    }
}

/// Restoring a text entry writes exactly its text, whatever its length
/// (nothing when it has none).
pub proof fn lemma_restore_text_exact(item: ClipItem, r: RestoreAction)
    requires
        item.content_type == ContentType::Text,
        item.restore_action_is(r),
    ensures
        r is WriteText,
        item.text_content matches Some(s) ==> r->WriteText_0@ == s@,
        item.text_content is None ==> r->WriteText_0@.len() == 0,
{
}

/// Restoring an image entry loads exactly its file when it names one, and
/// writes nothing otherwise.
pub proof fn lemma_restore_image_exact(item: ClipItem, r: RestoreAction)
    requires
        item.content_type == ContentType::Image,
        item.restore_action_is(r),
    ensures
        (item.image_path matches Some(p) && p@.len() > 0) ==> (r is WriteImage
            && r->WriteImage_0@ == item.image_path->Some_0@),
        !(item.image_path matches Some(p) && p@.len() > 0) ==> r is Nothing,
{
}

/// Reading back what was written: the row an entry is stored as (its tag,
/// its texts, its time and its pinned flag) reads back as the same entry,
/// except that the image hash is not read back.
pub proof fn lemma_row_round_trip(item: ClipItem)
    ensures
        ClipItem::spec_from_row(
            item.id,
            item.content_type.tag(),
            item.text_content,
            item.image_path,
            item.created_at,
            spec_pin_flag(item.is_pinned),
        ) == (ClipItem { image_hash: None, ..item }),
{
    lemma_tag_round_trip(item.content_type);
}

/// The integer stored for a pinned flag: 1 when pinned, 0 otherwise.
pub fn pin_flag(pinned: bool) -> (r: i32)
    ensures
        r == spec_pin_flag(pinned),
{
    if pinned {
        1
    } else {
        0
    }
}

/// Storage usage reported to the settings panel.
#[derive(Debug, Clone, Copy, PartialEq, Eq, Structural)]
pub struct StorageStats {
    pub total_bytes: u64,
    pub item_count: u64,
    pub image_count: u64,
}

impl StorageStats {
    /// The figures shown for `item_count` rows whose text takes `text_bytes`
    /// and an image folder of `image_bytes`; images are not counted separately.
    pub fn summarize(item_count: u64, text_bytes: u64, image_bytes: u64) -> (r: StorageStats)
        requires
            text_bytes + image_bytes <= u64::MAX,
        ensures
            r.total_bytes == text_bytes + image_bytes,
            r.item_count == item_count,
            r.image_count == 0,
    {
        StorageStats { total_bytes: text_bytes + image_bytes, item_count, image_count: 0 }
    }
}

} // verus!
