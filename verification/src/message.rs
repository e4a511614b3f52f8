//! Messages of a thread and what they hold.

use vstd::prelude::*;

use crate::ids::{fresh_id, is_uuid};
use crate::json::copy_json;

verus! {

/// Who a message is from.
#[derive(Clone, Copy, Debug, PartialEq, Eq, Structural)]
pub enum Role {
    System,
    User,
    Assistant,
    Tool,
}

/// Who a message is shown to.
#[derive(Clone, Copy, Debug, PartialEq, Eq, Structural)]
pub enum Visibility {
    All,
    Internal,
}

/// Where the bytes of a media block are.
#[derive(Debug, PartialEq)]
pub enum MediaSource {
    Url { url: String },
    Base64 { media_type: String, data: String },
}

impl Clone for MediaSource {
    fn clone(&self) -> (r: Self)
        ensures
            r == *self,
    {
        match self {
            MediaSource::Url { url } => MediaSource::Url { url: url.clone() },
            MediaSource::Base64 { media_type, data } => MediaSource::Base64 {
                media_type: media_type.clone(),
                data: data.clone(),
            },
        }
    }
}

/// One block of a message's content.
#[derive(Debug, PartialEq)]
pub enum ContentBlock {
    Text { text: String },
    Image { source: MediaSource },
    Audio { source: MediaSource },
    Video { source: MediaSource },
    Document { source: MediaSource, title: Option<String> },
    /// Any other block, as it is stored.
    Other { value: serde_json::Value },
}

/// A copy of an optional text.
pub fn copy_text(t: &Option<String>) -> (r: Option<String>)
    ensures
        r == *t,
{
    match t {
        Some(s) => Some(s.clone()),
        None => None,
    }
}

impl Clone for ContentBlock {
    fn clone(&self) -> (r: Self)
        ensures
            r == *self,
    {
        match self {
            ContentBlock::Text { text } => ContentBlock::Text { text: text.clone() },
            ContentBlock::Image { source } => ContentBlock::Image { source: source.clone() },
            ContentBlock::Audio { source } => ContentBlock::Audio { source: source.clone() },
            ContentBlock::Video { source } => ContentBlock::Video { source: source.clone() },
            ContentBlock::Document { source, title } => ContentBlock::Document {
                source: source.clone(),
                title: copy_text(title),
            },
            ContentBlock::Other { value } => ContentBlock::Other { value: value.clone() },
        }
    }
}

/// A message. What the library does not read of it is in `metadata`.
#[derive(Debug, PartialEq)]
pub struct Message {
    pub id: Option<String>,
    pub role: Role,
    pub content: Vec<ContentBlock>,
    pub visibility: Visibility,
    pub metadata: Option<serde_json::Value>,
}

/// What a message holds.
#[verifier::ext_equal]
pub ghost struct MessageView {
    pub id: Option<Seq<char>>,
    pub role: Role,
    pub content: Seq<ContentBlock>,
    pub visibility: Visibility,
    pub metadata: Option<serde_json::Value>,
}

impl View for Message {
    type V = MessageView;

    open spec fn view(&self) -> MessageView {
        MessageView {
            id: text_view(self.id),
            role: self.role,
            content: self.content@,
            visibility: self.visibility,
            metadata: self.metadata,
        }
    }
}

/// The characters of an optional text.
pub open spec fn text_view(t: Option<String>) -> Option<Seq<char>> {
    match t {
        Some(s) => Some(s@),
        None => None,
    }
}

/// The characters of each text in a list.
pub open spec fn texts(v: Seq<String>) -> Seq<Seq<char>> {
    v.map_values(|s: String| s@)
}

/// What each message of a list holds.
pub open spec fn messages_view(v: Seq<Message>) -> Seq<MessageView> {
    v.map_values(|m: Message| m@)
}

/// Whether an id is one that a new message is given.
pub open spec fn is_new_id(id: Option<String>) -> bool {
    id matches Some(text) && is_uuid(text@)
}

/// Whether a message is a new one, of one text block.
pub open spec fn text_message(role: Role, text: Seq<char>, m: Message) -> bool {
    &&& is_new_id(m.id)
    &&& m.role == role
    &&& m.content@.len() == 1
    &&& m.content@[0] matches ContentBlock::Text { text: t } && t@ == text
    &&& m.metadata is None
}

fn with_text(role: Role, visibility: Visibility, text: String) -> (m: Message)
    ensures
        text_message(role, text@, m),
        m.visibility == visibility,
{
    let mut content: Vec<ContentBlock> = Vec::new();
    content.push(ContentBlock::Text { text });
    Message { id: Some(fresh_id()), role, content, visibility, metadata: None }
}

impl Message {
    /// A user message of one text block.
    pub fn user(text: String) -> (m: Message)
        ensures
            text_message(Role::User, text@, m),
            m.visibility == Visibility::All,
    {
        with_text(Role::User, Visibility::All, text)
    }

    /// An assistant message of one text block.
    pub fn assistant(text: String) -> (m: Message)
        ensures
            text_message(Role::Assistant, text@, m),
            m.visibility == Visibility::All,
    {
        with_text(Role::Assistant, Visibility::All, text)
    }

    /// A system message of one text block.
    pub fn system(text: String) -> (m: Message)
        ensures
            text_message(Role::System, text@, m),
            m.visibility == Visibility::All,
    {
        with_text(Role::System, Visibility::All, text)
    }

    /// A user message of one text block that the user does not see.
    pub fn internal_user(text: String) -> (m: Message)
        ensures
            text_message(Role::User, text@, m),
            m.visibility == Visibility::Internal,
    {
        with_text(Role::User, Visibility::Internal, text)
    }

    /// A user message of the given blocks.
    pub fn user_with_content(content: Vec<ContentBlock>) -> (m: Message)
        ensures
            is_new_id(m.id),
            m == (Message {
                id: m.id,
                role: Role::User,
                content,
                visibility: Visibility::All,
                metadata: None,
            }),
    {
        Message {
            id: Some(fresh_id()),
            role: Role::User,
            content,
            visibility: Visibility::All,
            metadata: None,
        }
    }

    /// The message with the given id.
    pub fn with_id(self, id: String) -> (m: Message)
        ensures
            m == (Message { id: Some(id), ..self }),
    {
        Message { id: Some(id), ..self }
    }

    /// The texts of the text blocks, one after the other.
    pub fn text(&self) -> (r: String)
        ensures
            r@ == joined_text(self.content@),
    {
        let mut out = String::new();
        let mut i: usize = 0;
        while i < self.content.len()
            invariant
                i <= self.content@.len(),
                out@ == joined_text(self.content@.take(i as int)),
            decreases self.content@.len() - i,
        {
            proof {
                let longer = self.content@.take(i as int + 1);
                assert(longer.drop_last() =~= self.content@.take(i as int));
            }
            match &self.content[i] {
                ContentBlock::Text { text } => {
                    out.append(text.as_str());
                },
                _ => {
                    assert(out@ + Seq::<char>::empty() =~= out@);
                },
            }
            i = i + 1;
        }
        assert(self.content@.take(i as int) =~= self.content@);
        out
    }
}

/// The texts of the text blocks among `content`, one after the other.
pub open spec fn joined_text(content: Seq<ContentBlock>) -> Seq<char>
    decreases content.len(),
{
    if content.len() == 0 {
        seq![]
    } else {
        joined_text(content.drop_last()) + match content.last() {
            ContentBlock::Text { text } => text@,
            _ => Seq::<char>::empty(),
        }
    }
}

impl Clone for Message {
    fn clone(&self) -> (r: Self)
        ensures
            r@ == self@,
    {
        let mut content: Vec<ContentBlock> = Vec::new();
        let mut i: usize = 0;
        while i < self.content.len()
            invariant
                i <= self.content@.len(),
                content@ =~= self.content@.take(i as int),
            decreases self.content@.len() - i,
        {
            content.push(self.content[i].clone());
            i = i + 1;
        }
        assert(content@ =~= self.content@);
        Message {
            id: copy_text(&self.id),
            role: self.role,
            content,
            visibility: self.visibility,
            metadata: copy_json(&self.metadata),
        }
    }
}

/// A copy of a list of messages.
pub fn copy_messages(v: &Vec<Message>) -> (r: Vec<Message>)
    ensures
        messages_view(r@) == messages_view(v@),
        r@.len() == v@.len(),
        forall|i: int| 0 <= i < v@.len() ==> (#[trigger] r@[i])@ == v@[i]@,
{
    let mut out: Vec<Message> = Vec::new();
    let mut i: usize = 0;
    while i < v.len()
        invariant
            i <= v@.len(),
            out@.len() == i,
            forall|k: int| 0 <= k < i ==> (#[trigger] out@[k])@ == v@[k]@,
        decreases v@.len() - i,
    {
        out.push(v[i].clone());
        i = i + 1;
    }
    assert(messages_view(out@) =~= messages_view(v@));
    out
}

/// The text of a message is that of its text blocks, in order, with nothing between them;
/// other blocks add nothing to it.
pub proof fn lemma_text_is_that_of_the_text_blocks(
    first: Seq<ContentBlock>,
    second: Seq<ContentBlock>,
    block: ContentBlock,
)
    ensures
        joined_text(first + second) == joined_text(first) + joined_text(second),
        block matches ContentBlock::Text { text } ==> joined_text(seq![block]) == text@,
        !(block is Text) ==> joined_text(seq![block]).len() == 0,
    decreases second.len(),
{
    assert(seq![block].drop_last() =~= Seq::<ContentBlock>::empty());
    assert(seq![block].last() == block);
    reveal_with_fuel(joined_text, 2);
    assert(joined_text(seq![block]) =~= match block {
        ContentBlock::Text { text } => text@,
        _ => Seq::<char>::empty(),
    });
    if second.len() == 0 {
        assert(first + second =~= first);
        assert(joined_text(first) + joined_text(second) =~= joined_text(first));
    } else {
        lemma_text_is_that_of_the_text_blocks(first, second.drop_last(), block);
        assert((first + second).drop_last() =~= first + second.drop_last());
        assert((first + second).last() == second.last());
        assert(joined_text(first + second) =~= joined_text(first) + joined_text(second));
    }
}

/// A message of one text says exactly that text, in its role, under an id of its own.
pub proof fn lemma_text_message_says_its_text(role: Role, text: Seq<char>, m: Message)
    requires
        text_message(role, text, m),
    ensures
        m.role == role,
        joined_text(m.content@) == text,
        m.id is Some,
        is_uuid(m.id->0@),
        m.metadata is None,
{
    lemma_text_is_that_of_the_text_blocks(Seq::empty(), Seq::empty(), m.content@[0]);
    assert(m.content@ =~= seq![m.content@[0]]);
}

} // verus!
