//! Shared message conversion for protocol handlers.

use vstd::prelude::*;

use crate::message::{
    is_new_id, text_message, ContentBlock, MediaSource, Message, Role, Visibility,
};
use crate::text::{
    ascii_lower, blank, characters, ends_with_ignoring_case, has_prefix, has_suffix_ignoring_case,
    is_blank, is_white, same_text, starts_with,
};

verus! {

/// The kinds of media that a content block can hold.
#[derive(Debug, Clone, Copy, PartialEq, Eq, Structural)]
pub enum MediaKind {
    Image,
    Audio,
    Video,
    Document,
}

/// The role that a protocol's role name stands for, where it is one of the three
/// that carry plain content.
pub open spec fn plain_role(name: Seq<char>) -> Option<Role> {
    if name == "user"@ {
        Some(Role::User)
    } else if name == "assistant"@ {
        Some(Role::Assistant)
    } else if name == "system"@ {
        Some(Role::System)
    } else {
        None
    }
}

fn role_named(name: &str) -> (r: Option<Role>)
    ensures
        r == plain_role(name@),
{
    if same_text(name, "user") {
        Some(Role::User)
    } else if same_text(name, "assistant") {
        Some(Role::Assistant)
    } else if same_text(name, "system") {
        Some(Role::System)
    } else {
        None
    }
}

/// The pairs whose role is supported, in order.
pub open spec fn supported_pairs(pairs: Seq<(String, String)>) -> Seq<(String, String)>
    decreases pairs.len(),
{
    if pairs.len() == 0 {
        seq![]
    } else if plain_role(pairs.last().0@) is Some {
        supported_pairs(pairs.drop_last()).push(pairs.last())
    } else {
        supported_pairs(pairs.drop_last())
    }
}

/// Whether `m` is the message that the pair of a role and a text becomes.
pub open spec fn is_message_of_pair(pair: (String, String), m: Message) -> bool {
    &&& plain_role(pair.0@) matches Some(role) && text_message(role, pair.1@, m)
    &&& m.visibility == Visibility::All
}

/// Whether a message has a text as its only content.
pub open spec fn holds_text(m: Message, text: Seq<char>) -> bool {
    &&& m.content@.len() == 1
    &&& m.content@[0] matches ContentBlock::Text { text: t } && t@ == text
}

/// Whether messages are said by the pairs at the given places, in order, and no pair
/// of a user, an assistant or the system is left out.
pub open spec fn are_said_by(
    messages: Seq<Message>,
    pairs: Seq<(String, String)>,
    places: Seq<int>,
) -> bool {
    &&& places.len() == messages.len()
    &&& forall|i: int| 0 <= i < places.len() ==> 0 <= #[trigger] places[i] < pairs.len()
    &&& forall|i: int, j: int|
        #![trigger places[i], places[j]]
        0 <= i < j < places.len() ==> places[i] < places[j]
    &&& forall|i: int|
        0 <= i < places.len() ==> holds_text(#[trigger] messages[i], pairs[places[i]].1@)
    &&& forall|i: int|
        #![trigger messages[i]]
        0 <= i < places.len() ==> {
            let name = pairs[places[i]].0@;
            &&& (messages[i].role == Role::User) == (name == "user"@)
            &&& (messages[i].role == Role::Assistant) == (name == "assistant"@)
            &&& (messages[i].role == Role::System) == (name == "system"@)
            &&& messages[i].role != Role::Tool
        }
    &&& forall|k: int|
        0 <= k < pairs.len() && ((#[trigger] pairs[k]).0@ == "user"@ || pairs[k].0@ == "assistant"@
            || pairs[k].0@ == "system"@) ==> places.contains(k)
}

proof fn lemma_role_names_differ()
    ensures
        "user"@ != "assistant"@,
        "user"@ != "system"@,
        "assistant"@ != "system"@,
{
    reveal_strlit("user");
    reveal_strlit("system");
    reveal_strlit("assistant");
    assert("user"@.len() == 4 && "system"@.len() == 6 && "assistant"@.len() == 9);
}

/// A conversion keeps who says what: each message has the role that is named in its
/// pair and the text of its pair, the messages stand in the order of their pairs, and
/// exactly the pairs of a user, an assistant and the system become messages.
pub proof fn lemma_conversion_keeps_who_says_what(
    pairs: Seq<(String, String)>,
    messages: Seq<Message>,
) -> (places: Seq<int>)
    requires
        messages.len() == supported_pairs(pairs).len(),
        forall|i: int|
            0 <= i < messages.len() ==> is_message_of_pair(
                supported_pairs(pairs)[i],
                #[trigger] messages[i],
            ),
    ensures
        are_said_by(messages, pairs, places),
    decreases pairs.len(),
{
    lemma_role_names_differ();
    if pairs.len() == 0 {
        Seq::empty()
    } else {
        let fewer = pairs.drop_last();
        let pair = pairs.last();
        if plain_role(pair.0@) is Some {
            let before = messages.drop_last();
            assert forall|i: int| 0 <= i < before.len() implies is_message_of_pair(
                supported_pairs(fewer)[i],
                #[trigger] before[i],
            ) by {
                assert(is_message_of_pair(supported_pairs(pairs)[i], messages[i]));
            }
            let earlier = lemma_conversion_keeps_who_says_what(fewer, before);
            let places = earlier.push(fewer.len() as int);
            let last = messages.len() - 1;
            assert(is_message_of_pair(supported_pairs(pairs)[last], messages[last]));
            assert forall|k: int|
                0 <= k < pairs.len() && ((#[trigger] pairs[k]).0@ == "user"@ || pairs[k].0@
                    == "assistant"@ || pairs[k].0@ == "system"@) implies places.contains(k) by {
                if k < fewer.len() {
                    assert(fewer[k] == pairs[k]);
                    let i = choose|i: int| 0 <= i < earlier.len() && earlier[i] == k;
                    assert(places[i] == k);
                } else {
                    assert(places[earlier.len() as int] == k);
                }
            }
            assert forall|i: int| 0 <= i < places.len() implies holds_text(
                #[trigger] messages[i],
                pairs[places[i]].1@,
            ) by {
                if i < before.len() {
                    assert(before[i] == messages[i]);
                    assert(places[i] == earlier[i]);
                }
            }
            assert forall|i: int|
                #![trigger messages[i]]
                0 <= i < places.len() implies {
                let name = pairs[places[i]].0@;
                &&& (messages[i].role == Role::User) == (name == "user"@)
                &&& (messages[i].role == Role::Assistant) == (name == "assistant"@)
                &&& (messages[i].role == Role::System) == (name == "system"@)
                &&& messages[i].role != Role::Tool
            } by {
                if i < before.len() {
                    assert(before[i] == messages[i]);
                    assert(places[i] == earlier[i]);
                }
            }
            places
        } else {
            let places = lemma_conversion_keeps_who_says_what(fewer, messages);
            assert forall|k: int|
                0 <= k < pairs.len() && ((#[trigger] pairs[k]).0@ == "user"@ || pairs[k].0@
                    == "assistant"@ || pairs[k].0@ == "system"@) implies places.contains(k) by {
                assert(k < fewer.len());
                assert(fewer[k] == pairs[k]);
            }
            places
        }
    }
}

/// Convert protocol-agnostic role and content pairs to messages. A pair whose
/// role is not supported is dropped.
pub fn convert_role_content_pairs(pairs: Vec<(String, String)>) -> (r: Vec<Message>)
    ensures
        r@.len() == supported_pairs(pairs@).len(),
        forall|i: int|
            0 <= i < r@.len() ==> is_message_of_pair(
                supported_pairs(pairs@)[i],
                #[trigger] r@[i],
            ),
{
    let mut out: Vec<Message> = Vec::new();
    let mut i: usize = 0;
    while i < pairs.len()
        invariant
            i <= pairs@.len(),
            out@.len() == supported_pairs(pairs@.take(i as int)).len(),
            forall|k: int|
                0 <= k < out@.len() ==> is_message_of_pair(
                    supported_pairs(pairs@.take(i as int))[k],
                    #[trigger] out@[k],
                ),
        decreases pairs@.len() - i,
    {
        proof {
            assert(pairs@.take(i as int + 1).drop_last() =~= pairs@.take(i as int));
        }
        let pair = &pairs[i];
        match role_named(pair.0.as_str()) {
            Some(Role::User) => {
                out.push(Message::user(pair.1.clone()));
            },
            Some(Role::Assistant) => {
                out.push(Message::assistant(pair.1.clone()));
            },
            Some(Role::System) => {
                out.push(Message::system(pair.1.clone()));
            },
            _ => {},
        }
        i = i + 1;
    }
    assert(pairs@.take(i as int) =~= pairs@);
    out
}

/// Build the message of a role from content blocks. `extracted` is the text of
/// the blocks, which a system or assistant message holds in place of them.
///
/// No blocks make no message, an assistant's make one only on request, and no
/// other role makes any.
pub fn message_from_role_blocks(
    role: &str,
    blocks: Vec<ContentBlock>,
    extracted: String,
    include_assistant: bool,
) -> (r: Option<Message>)
    ensures
        (r is Some) == (blocks@.len() > 0 && (role@ == "user"@ || role@ == "system"@ || (role@
            == "assistant"@ && include_assistant))),
        r is Some && plain_role(role@) == Some(Role::User) ==> is_new_id(r->0.id) && r == Some(
            Message {
                id: r->0.id,
                role: Role::User,
                content: blocks,
                visibility: Visibility::All,
                metadata: None,
            },
        ),
        r is Some && plain_role(role@) != Some(Role::User) ==> r->0.visibility == Visibility::All
            && text_message(plain_role(role@)->0, extracted@, r->0),
        r is Some && role@ == "user"@ ==> r->0.role == Role::User && r->0.content == blocks,
        r is Some && role@ == "system"@ ==> r->0.role == Role::System && holds_text(
            r->0,
            extracted@,
        ),
        r is Some && role@ == "assistant"@ ==> r->0.role == Role::Assistant && holds_text(
            r->0,
            extracted@,
        ),
{
    proof {
        reveal_strlit("user");
        reveal_strlit("system");
        reveal_strlit("assistant");
        assert("user"@.len() == 4 && "system"@.len() == 6 && "assistant"@.len() == 9);
    }
    if blocks.len() == 0 {
        return None;
    }
    match role_named(role) {
        Some(Role::User) => Some(Message::user_with_content(blocks)),
        Some(Role::System) => Some(Message::system(extracted)),
        Some(Role::Assistant) => if include_assistant {
            Some(Message::assistant(extracted))
        } else {
            None
        },
        _ => None,
    }
}

/// Whether `url` is the data URI of base64 `data` of `media_type`. The media type
/// ends before the first comma.
pub open spec fn is_data_uri(url: Seq<char>, media_type: Seq<char>, data: Seq<char>) -> bool {
    &&& !media_type.contains(',')
    &&& url == "data:"@ + media_type + ";base64,"@ + data
}

/// The index of the first comma at or after `from`, or the length.
fn comma_from(chars: &Vec<char>, from: usize) -> (r: usize)
    requires
        from <= chars@.len(),
    ensures
        from <= r <= chars@.len(),
        forall|i: int| from <= i < r ==> #[trigger] chars@[i] != ',',
        r < chars@.len() ==> chars@[r as int] == ',',
{
    let mut i: usize = from;
    while i < chars.len() && chars[i] != ','
        invariant
            from <= i <= chars@.len(),
            forall|k: int| from <= k < i ==> #[trigger] chars@[k] != ',',
        decreases chars@.len() - i,
    {
        i = i + 1;
    }
    i
}

/// A data URI has its first comma right behind the `;base64` of its media type.
proof fn lemma_data_uri_comma(url: Seq<char>, media_type: Seq<char>, data: Seq<char>, at: int)
    requires
        is_data_uri(url, media_type, data),
        5 <= at <= url.len(),
        forall|i: int| 5 <= i < at ==> #[trigger] url[i] != ',',
        at < url.len() ==> url[at] == ',',
    ensures
        at == 5 + media_type.len() + 7,
        at < url.len(),
        url.subrange(5, at - 7) == media_type,
        url.subrange(at - 7, at) == ";base64"@,
        url.subrange(at + 1, url.len() as int) == data,
        url.take(5) == "data:"@,
{
    reveal_strlit("data:");
    reveal_strlit(";base64,");
    reveal_strlit(";base64");
    let n = media_type.len() as int;
    assert(url.len() == 5 + n + 8 + data.len());
    assert(url[5 + n + 7] == ',');
    if at < 5 + n {
        assert(url[at] == media_type[at - 5]);
        assert(media_type.contains(','));
    }
    assert(forall|i: int| 5 + n <= i < 5 + n + 7 ==> #[trigger] url[i] == ";base64,"@[i - 5 - n]);
    assert(url.subrange(5, at - 7) =~= media_type);
    assert(url.subrange(at - 7, at) =~= ";base64"@);
    assert(url.subrange(at + 1, url.len() as int) =~= data);
    assert(url.take(5) =~= "data:"@);
}

/// Split a base64 data URI into its media type and its data.
pub fn parse_data_uri(url: &str) -> (r: Option<(String, String)>)
    ensures
        match r {
            Some((media_type, data)) => is_data_uri(url@, media_type@, data@),
            None => forall|media_type: Seq<char>, data: Seq<char>|
                !is_data_uri(url@, media_type, data),
        },
{
    proof {
        reveal_strlit("data:");
        reveal_strlit(";base64,");
        reveal_strlit(";base64");
    }
    let chars = characters(url);
    if !starts_with(url, "data:") {
        assert forall|media_type: Seq<char>, data: Seq<char>|
            !is_data_uri(url@, media_type, data) by {
            if is_data_uri(url@, media_type, data) {
                assert(url@.take(5) =~= "data:"@);
            }
        }
        return None;
    }
    let at: usize = comma_from(&chars, 5);
    let found: bool = at < chars.len() && at >= 12 && same_text(
        url.substring_char(at - 7, at),
        ";base64",
    );
    if !found {
        assert forall|media_type: Seq<char>, data: Seq<char>|
            !is_data_uri(url@, media_type, data) by {
            if is_data_uri(url@, media_type, data) {
                lemma_data_uri_comma(url@, media_type, data, at as int);
            }
        }
        return None;
    }
    let n: usize = chars.len();
    let media_type = url.substring_char(5, at - 7).to_owned();
    let data = url.substring_char(at + 1, n).to_owned();
    proof {
        let whole = "data:"@ + media_type@ + ";base64,"@ + data@;
        assert(url@.take(5) == "data:"@);
        assert forall|i: int| 0 <= i < url@.len() implies url@[i] == #[trigger] whole[i] by {
            if i < 5 {
                assert(url@.take(5)[i] == url@[i]);
            } else if at - 7 <= i < at {
                assert(url@.subrange(at - 7, at as int)[i - at + 7] == url@[i]);
            }
        }
        assert(whole =~= url@);
        if media_type@.contains(',') {
            let k = choose|k: int| 0 <= k < media_type@.len() && media_type@[k] == ',';
            assert(url@[5 + k] == ',');
        }
    }
    Some((media_type, data))
}

/// A data URI determines its media type and its data: whatever one is written
/// from is what is read back from it.
pub proof fn lemma_data_uri_round_trip(
    url: Seq<char>,
    media_type: Seq<char>,
    data: Seq<char>,
    other_type: Seq<char>,
    other_data: Seq<char>,
)
    requires
        is_data_uri(url, media_type, data),
        is_data_uri(url, other_type, other_data),
    ensures
        media_type == other_type,
        data == other_data,
{
    reveal_strlit("data:");
    reveal_strlit(";base64,");
    let at = 5 + media_type.len() as int + 7;
    assert(url[at] == ',');
    assert forall|i: int| 5 <= i < at implies #[trigger] url[i] != ',' by {
        if i < 5 + media_type.len() {
            assert(url[i] == media_type[i - 5]);
            if url[i] == ',' {
                assert(media_type.contains(','));
            }
        } else {
            assert(url[i] == ";base64,"@[i - 5 - media_type.len()]);
        }
    }
    lemma_data_uri_comma(url, media_type, data, at);
    lemma_data_uri_comma(url, other_type, other_data, at);
}

/// What is written as a data URI is read as one: the prefix, the media type, the mark of
/// base64 and the data, in this order. Nothing else is.
pub proof fn lemma_data_uri_is_what_is_written(
    url: Seq<char>,
    media_type: Seq<char>,
    data: Seq<char>,
)
    ensures
        is_data_uri(url, media_type, data) <==> {
            &&& forall|i: int| 0 <= i < media_type.len() ==> #[trigger] media_type[i] != ','
            &&& url.len() == 13 + media_type.len() + data.len()
            &&& url.take(5) == "data:"@
            &&& url.subrange(5, 5int + media_type.len()) == media_type
            &&& url.subrange(5int + media_type.len(), 13int + media_type.len()) == ";base64,"@
            &&& url.skip(13int + media_type.len()) == data
        },
{
    reveal_strlit("data:");
    reveal_strlit(";base64,");
    let n = media_type.len() as int;
    let whole = "data:"@ + media_type + ";base64,"@ + data;
    if is_data_uri(url, media_type, data) {
        assert(url.take(5) =~= "data:"@);
        assert(url.subrange(5, 5 + n) =~= media_type);
        assert(url.subrange(5 + n, 13 + n) =~= ";base64,"@);
        assert(url.skip(13 + n) =~= data);
    }
    if url.len() == 13 + n + data.len() && url.take(5) == "data:"@ && url.subrange(5, 5 + n)
        == media_type && url.subrange(5 + n, 13 + n) == ";base64,"@ && url.skip(13 + n) == data {
        assert forall|i: int| 0 <= i < url.len() implies url[i] == #[trigger] whole[i] by {
            if i < 5 {
                assert(url.take(5)[i] == url[i]);
            } else if i < 5 + n {
                assert(url.subrange(5, 5 + n)[i - 5] == url[i]);
            } else if i < 13 + n {
                assert(url.subrange(5 + n, 13 + n)[i - 5 - n] == url[i]);
            } else {
                assert(url.skip(13 + n)[i - 13 - n] == url[i]);
            }
        }
        assert(url =~= whole);
    }
}

/// The media type that a URL's file extension stands for, whatever its case.
pub open spec fn media_type_of_url(url: Seq<char>) -> Seq<char> {
    if has_suffix_ignoring_case(url, ".png"@) {
        "image/png"@
    } else if has_suffix_ignoring_case(url, ".jpg"@) || has_suffix_ignoring_case(url, ".jpeg"@) {
        "image/jpeg"@
    } else if has_suffix_ignoring_case(url, ".gif"@) {
        "image/gif"@
    } else if has_suffix_ignoring_case(url, ".webp"@) {
        "image/webp"@
    } else if has_suffix_ignoring_case(url, ".mp3"@) {
        "audio/mpeg"@
    } else if has_suffix_ignoring_case(url, ".wav"@) {
        "audio/wav"@
    } else if has_suffix_ignoring_case(url, ".ogg"@) {
        "audio/ogg"@
    } else if has_suffix_ignoring_case(url, ".mp4"@) {
        "video/mp4"@
    } else if has_suffix_ignoring_case(url, ".webm"@) {
        "video/webm"@
    } else if has_suffix_ignoring_case(url, ".pdf"@) {
        "application/pdf"@
    } else if has_suffix_ignoring_case(url, ".json"@) {
        "application/json"@
    } else if has_suffix_ignoring_case(url, ".txt"@) || has_suffix_ignoring_case(url, ".md"@) {
        "text/plain"@
    } else {
        "application/octet-stream"@
    }
}

/// The last two characters that a URL with an extension has, whatever their case. They
/// tell the extensions apart.
proof fn lemma_extensions_differ(url: Seq<char>)
    ensures
        has_suffix_ignoring_case(url, ".png"@) ==> url.len() >= 2 && ascii_lower(
            url[url.len() - 2],
        ) == 'n' && ascii_lower(url.last()) == 'g',
        has_suffix_ignoring_case(url, ".jpg"@) ==> url.len() >= 2 && ascii_lower(
            url[url.len() - 2],
        ) == 'p' && ascii_lower(url.last()) == 'g',
        has_suffix_ignoring_case(url, ".jpeg"@) ==> url.len() >= 2 && ascii_lower(
            url[url.len() - 2],
        ) == 'e' && ascii_lower(url.last()) == 'g',
        has_suffix_ignoring_case(url, ".gif"@) ==> url.len() >= 2 && ascii_lower(
            url[url.len() - 2],
        ) == 'i' && ascii_lower(url.last()) == 'f',
        has_suffix_ignoring_case(url, ".webp"@) ==> url.len() >= 2 && ascii_lower(
            url[url.len() - 2],
        ) == 'b' && ascii_lower(url.last()) == 'p',
        has_suffix_ignoring_case(url, ".mp3"@) ==> url.len() >= 2 && ascii_lower(
            url[url.len() - 2],
        ) == 'p' && ascii_lower(url.last()) == '3',
        has_suffix_ignoring_case(url, ".wav"@) ==> url.len() >= 2 && ascii_lower(
            url[url.len() - 2],
        ) == 'a' && ascii_lower(url.last()) == 'v',
        has_suffix_ignoring_case(url, ".ogg"@) ==> url.len() >= 2 && ascii_lower(
            url[url.len() - 2],
        ) == 'g' && ascii_lower(url.last()) == 'g',
        has_suffix_ignoring_case(url, ".mp4"@) ==> url.len() >= 2 && ascii_lower(
            url[url.len() - 2],
        ) == 'p' && ascii_lower(url.last()) == '4',
        has_suffix_ignoring_case(url, ".webm"@) ==> url.len() >= 2 && ascii_lower(
            url[url.len() - 2],
        ) == 'b' && ascii_lower(url.last()) == 'm',
        has_suffix_ignoring_case(url, ".pdf"@) ==> url.len() >= 2 && ascii_lower(
            url[url.len() - 2],
        ) == 'd' && ascii_lower(url.last()) == 'f',
        has_suffix_ignoring_case(url, ".json"@) ==> url.len() >= 2 && ascii_lower(
            url[url.len() - 2],
        ) == 'o' && ascii_lower(url.last()) == 'n',
        has_suffix_ignoring_case(url, ".txt"@) ==> url.len() >= 2 && ascii_lower(
            url[url.len() - 2],
        ) == 'x' && ascii_lower(url.last()) == 't',
        has_suffix_ignoring_case(url, ".md"@) ==> url.len() >= 2 && ascii_lower(
            url[url.len() - 2],
        ) == 'm' && ascii_lower(url.last()) == 'd',
{
    reveal_strlit(".png");
    assert(".png"@.len() == 4 && ".png"@[2] == 'n' && ".png"@[3] == 'g');
    reveal_strlit(".jpg");
    assert(".jpg"@.len() == 4 && ".jpg"@[2] == 'p' && ".jpg"@[3] == 'g');
    reveal_strlit(".jpeg");
    assert(".jpeg"@.len() == 5 && ".jpeg"@[3] == 'e' && ".jpeg"@[4] == 'g');
    reveal_strlit(".gif");
    assert(".gif"@.len() == 4 && ".gif"@[2] == 'i' && ".gif"@[3] == 'f');
    reveal_strlit(".webp");
    assert(".webp"@.len() == 5 && ".webp"@[3] == 'b' && ".webp"@[4] == 'p');
    reveal_strlit(".mp3");
    assert(".mp3"@.len() == 4 && ".mp3"@[2] == 'p' && ".mp3"@[3] == '3');
    reveal_strlit(".wav");
    assert(".wav"@.len() == 4 && ".wav"@[2] == 'a' && ".wav"@[3] == 'v');
    reveal_strlit(".ogg");
    assert(".ogg"@.len() == 4 && ".ogg"@[2] == 'g' && ".ogg"@[3] == 'g');
    reveal_strlit(".mp4");
    assert(".mp4"@.len() == 4 && ".mp4"@[2] == 'p' && ".mp4"@[3] == '4');
    reveal_strlit(".webm");
    assert(".webm"@.len() == 5 && ".webm"@[3] == 'b' && ".webm"@[4] == 'm');
    reveal_strlit(".pdf");
    assert(".pdf"@.len() == 4 && ".pdf"@[2] == 'd' && ".pdf"@[3] == 'f');
    reveal_strlit(".json");
    assert(".json"@.len() == 5 && ".json"@[3] == 'o' && ".json"@[4] == 'n');
    reveal_strlit(".txt");
    assert(".txt"@.len() == 4 && ".txt"@[2] == 'x' && ".txt"@[3] == 't');
    reveal_strlit(".md");
    assert(".md"@.len() == 3 && ".md"@[1] == 'm' && ".md"@[2] == 'd');
}

proof fn lemma_extension_is_seen(stem: Seq<char>, extension: Seq<char>)
    requires
        forall|i: int|
            0 <= i < extension.len() ==> ascii_lower(#[trigger] extension[i]) == extension[i],
    ensures
        has_suffix_ignoring_case(stem + extension, extension),
{
    let url = stem + extension;
    assert forall|i: int| 0 <= i < extension.len() implies ascii_lower(
        url[url.len() - extension.len() + i],
    ) == #[trigger] extension[i] by {
        assert(url[stem.len() + i] == extension[i]);
        assert(ascii_lower(extension[i]) == extension[i]);
    }
}

proof fn lemma_png(stem: Seq<char>)
    ensures
        media_type_of_url(stem + ".png"@) == "image/png"@,
{
    reveal_strlit(".png");
    let url = stem + ".png"@;
    lemma_extension_is_seen(stem, ".png"@);
    assert(url[url.len() - 2] == 'n' && url.last() == 'g');
    lemma_extensions_differ(url);
}

proof fn lemma_jpg(stem: Seq<char>)
    ensures
        media_type_of_url(stem + ".jpg"@) == "image/jpeg"@,
{
    reveal_strlit(".jpg");
    let url = stem + ".jpg"@;
    lemma_extension_is_seen(stem, ".jpg"@);
    assert(url[url.len() - 2] == 'p' && url.last() == 'g');
    lemma_extensions_differ(url);
}

proof fn lemma_jpeg(stem: Seq<char>)
    ensures
        media_type_of_url(stem + ".jpeg"@) == "image/jpeg"@,
{
    reveal_strlit(".jpeg");
    let url = stem + ".jpeg"@;
    lemma_extension_is_seen(stem, ".jpeg"@);
    assert(url[url.len() - 2] == 'e' && url.last() == 'g');
    lemma_extensions_differ(url);
}

proof fn lemma_gif(stem: Seq<char>)
    ensures
        media_type_of_url(stem + ".gif"@) == "image/gif"@,
{
    reveal_strlit(".gif");
    let url = stem + ".gif"@;
    lemma_extension_is_seen(stem, ".gif"@);
    assert(url[url.len() - 2] == 'i' && url.last() == 'f');
    lemma_extensions_differ(url);
}

proof fn lemma_webp(stem: Seq<char>)
    ensures
        media_type_of_url(stem + ".webp"@) == "image/webp"@,
{
    reveal_strlit(".webp");
    let url = stem + ".webp"@;
    lemma_extension_is_seen(stem, ".webp"@);
    assert(url[url.len() - 2] == 'b' && url.last() == 'p');
    lemma_extensions_differ(url);
}

proof fn lemma_mp3(stem: Seq<char>)
    ensures
        media_type_of_url(stem + ".mp3"@) == "audio/mpeg"@,
{
    reveal_strlit(".mp3");
    let url = stem + ".mp3"@;
    lemma_extension_is_seen(stem, ".mp3"@);
    assert(url[url.len() - 2] == 'p' && url.last() == '3');
    lemma_extensions_differ(url);
}

proof fn lemma_wav(stem: Seq<char>)
    ensures
        media_type_of_url(stem + ".wav"@) == "audio/wav"@,
{
    reveal_strlit(".wav");
    let url = stem + ".wav"@;
    lemma_extension_is_seen(stem, ".wav"@);
    assert(url[url.len() - 2] == 'a' && url.last() == 'v');
    lemma_extensions_differ(url);
}

proof fn lemma_ogg(stem: Seq<char>)
    ensures
        media_type_of_url(stem + ".ogg"@) == "audio/ogg"@,
{
    reveal_strlit(".ogg");
    let url = stem + ".ogg"@;
    lemma_extension_is_seen(stem, ".ogg"@);
    assert(url[url.len() - 2] == 'g' && url.last() == 'g');
    lemma_extensions_differ(url);
}

proof fn lemma_mp4(stem: Seq<char>)
    ensures
        media_type_of_url(stem + ".mp4"@) == "video/mp4"@,
{
    reveal_strlit(".mp4");
    let url = stem + ".mp4"@;
    lemma_extension_is_seen(stem, ".mp4"@);
    assert(url[url.len() - 2] == 'p' && url.last() == '4');
    lemma_extensions_differ(url);
}

proof fn lemma_webm(stem: Seq<char>)
    ensures
        media_type_of_url(stem + ".webm"@) == "video/webm"@,
{
    reveal_strlit(".webm");
    let url = stem + ".webm"@;
    lemma_extension_is_seen(stem, ".webm"@);
    assert(url[url.len() - 2] == 'b' && url.last() == 'm');
    lemma_extensions_differ(url);
}

proof fn lemma_pdf(stem: Seq<char>)
    ensures
        media_type_of_url(stem + ".pdf"@) == "application/pdf"@,
{
    reveal_strlit(".pdf");
    let url = stem + ".pdf"@;
    lemma_extension_is_seen(stem, ".pdf"@);
    assert(url[url.len() - 2] == 'd' && url.last() == 'f');
    lemma_extensions_differ(url);
}

proof fn lemma_json(stem: Seq<char>)
    ensures
        media_type_of_url(stem + ".json"@) == "application/json"@,
{
    reveal_strlit(".json");
    let url = stem + ".json"@;
    lemma_extension_is_seen(stem, ".json"@);
    assert(url[url.len() - 2] == 'o' && url.last() == 'n');
    lemma_extensions_differ(url);
}

proof fn lemma_txt(stem: Seq<char>)
    ensures
        media_type_of_url(stem + ".txt"@) == "text/plain"@,
{
    reveal_strlit(".txt");
    let url = stem + ".txt"@;
    lemma_extension_is_seen(stem, ".txt"@);
    assert(url[url.len() - 2] == 'x' && url.last() == 't');
    lemma_extensions_differ(url);
}

proof fn lemma_md(stem: Seq<char>)
    ensures
        media_type_of_url(stem + ".md"@) == "text/plain"@,
{
    reveal_strlit(".md");
    let url = stem + ".md"@;
    lemma_extension_is_seen(stem, ".md"@);
    assert(url[url.len() - 2] == 'm' && url.last() == 'd');
    lemma_extensions_differ(url);
}

proof fn lemma_dotless_url(url: Seq<char>)
    requires
        forall|i: int| 0 <= i < url.len() ==> #[trigger] url[i] != '.',
    ensures
        media_type_of_url(url) == "application/octet-stream"@,
{
    assert(!has_suffix_ignoring_case(url, ".png"@)) by {
        reveal_strlit(".png");
        lemma_no_dot_no_extension(url, ".png"@);
    }
    assert(!has_suffix_ignoring_case(url, ".jpg"@)) by {
        reveal_strlit(".jpg");
        lemma_no_dot_no_extension(url, ".jpg"@);
    }
    assert(!has_suffix_ignoring_case(url, ".jpeg"@)) by {
        reveal_strlit(".jpeg");
        lemma_no_dot_no_extension(url, ".jpeg"@);
    }
    assert(!has_suffix_ignoring_case(url, ".gif"@)) by {
        reveal_strlit(".gif");
        lemma_no_dot_no_extension(url, ".gif"@);
    }
    assert(!has_suffix_ignoring_case(url, ".webp"@)) by {
        reveal_strlit(".webp");
        lemma_no_dot_no_extension(url, ".webp"@);
    }
    assert(!has_suffix_ignoring_case(url, ".mp3"@)) by {
        reveal_strlit(".mp3");
        lemma_no_dot_no_extension(url, ".mp3"@);
    }
    assert(!has_suffix_ignoring_case(url, ".wav"@)) by {
        reveal_strlit(".wav");
        lemma_no_dot_no_extension(url, ".wav"@);
    }
    assert(!has_suffix_ignoring_case(url, ".ogg"@)) by {
        reveal_strlit(".ogg");
        lemma_no_dot_no_extension(url, ".ogg"@);
    }
    assert(!has_suffix_ignoring_case(url, ".mp4"@)) by {
        reveal_strlit(".mp4");
        lemma_no_dot_no_extension(url, ".mp4"@);
    }
    assert(!has_suffix_ignoring_case(url, ".webm"@)) by {
        reveal_strlit(".webm");
        lemma_no_dot_no_extension(url, ".webm"@);
    }
    assert(!has_suffix_ignoring_case(url, ".pdf"@)) by {
        reveal_strlit(".pdf");
        lemma_no_dot_no_extension(url, ".pdf"@);
    }
    assert(!has_suffix_ignoring_case(url, ".json"@)) by {
        reveal_strlit(".json");
        lemma_no_dot_no_extension(url, ".json"@);
    }
    assert(!has_suffix_ignoring_case(url, ".txt"@)) by {
        reveal_strlit(".txt");
        lemma_no_dot_no_extension(url, ".txt"@);
    }
    assert(!has_suffix_ignoring_case(url, ".md"@)) by {
        reveal_strlit(".md");
        lemma_no_dot_no_extension(url, ".md"@);
    }
}

proof fn lemma_url_in_another_case(url: Seq<char>, other: Seq<char>)
    requires
        url.len() == other.len(),
        forall|i: int| 0 <= i < url.len() ==> ascii_lower(#[trigger] url[i]) == ascii_lower(other[i]),
    ensures
        media_type_of_url(url) == media_type_of_url(other),
{
    lemma_case_does_not_matter(url, other, ".png"@);
    lemma_case_does_not_matter(url, other, ".jpg"@);
    lemma_case_does_not_matter(url, other, ".jpeg"@);
    lemma_case_does_not_matter(url, other, ".gif"@);
    lemma_case_does_not_matter(url, other, ".webp"@);
    lemma_case_does_not_matter(url, other, ".mp3"@);
    lemma_case_does_not_matter(url, other, ".wav"@);
    lemma_case_does_not_matter(url, other, ".ogg"@);
    lemma_case_does_not_matter(url, other, ".mp4"@);
    lemma_case_does_not_matter(url, other, ".webm"@);
    lemma_case_does_not_matter(url, other, ".pdf"@);
    lemma_case_does_not_matter(url, other, ".json"@);
    lemma_case_does_not_matter(url, other, ".txt"@);
    lemma_case_does_not_matter(url, other, ".md"@);
}

/// A file extension tells the media type, whatever stands before it; without a dot
/// there is none to tell; and the case of the letters does not matter.
pub proof fn lemma_extension_tells_media_type(stem: Seq<char>, url: Seq<char>, other: Seq<char>)
    ensures
        media_type_of_url(stem + ".png"@) == "image/png"@,
        media_type_of_url(stem + ".jpg"@) == "image/jpeg"@,
        media_type_of_url(stem + ".jpeg"@) == "image/jpeg"@,
        media_type_of_url(stem + ".gif"@) == "image/gif"@,
        media_type_of_url(stem + ".webp"@) == "image/webp"@,
        media_type_of_url(stem + ".mp3"@) == "audio/mpeg"@,
        media_type_of_url(stem + ".wav"@) == "audio/wav"@,
        media_type_of_url(stem + ".ogg"@) == "audio/ogg"@,
        media_type_of_url(stem + ".mp4"@) == "video/mp4"@,
        media_type_of_url(stem + ".webm"@) == "video/webm"@,
        media_type_of_url(stem + ".pdf"@) == "application/pdf"@,
        media_type_of_url(stem + ".json"@) == "application/json"@,
        media_type_of_url(stem + ".txt"@) == "text/plain"@,
        media_type_of_url(stem + ".md"@) == "text/plain"@,
        (forall|i: int| 0 <= i < url.len() ==> #[trigger] url[i] != '.') ==> media_type_of_url(url)
            == "application/octet-stream"@,
        url.len() == other.len() && (forall|i: int|
            0 <= i < url.len() ==> ascii_lower(#[trigger] url[i]) == ascii_lower(other[i]))
            ==> media_type_of_url(url) == media_type_of_url(other),
{
    lemma_png(stem);
    lemma_jpg(stem);
    lemma_jpeg(stem);
    lemma_gif(stem);
    lemma_webp(stem);
    lemma_mp3(stem);
    lemma_wav(stem);
    lemma_ogg(stem);
    lemma_mp4(stem);
    lemma_webm(stem);
    lemma_pdf(stem);
    lemma_json(stem);
    lemma_txt(stem);
    lemma_md(stem);
    if forall|i: int| 0 <= i < url.len() ==> #[trigger] url[i] != '.' {
        lemma_dotless_url(url);
    }
    if url.len() == other.len() && (forall|i: int|
        0 <= i < url.len() ==> ascii_lower(#[trigger] url[i]) == ascii_lower(other[i])) {
        lemma_url_in_another_case(url, other);
    }
}

proof fn lemma_no_dot_no_extension(url: Seq<char>, extension: Seq<char>)
    requires
        forall|i: int| 0 <= i < url.len() ==> #[trigger] url[i] != '.',
        extension.len() > 0,
        extension[0] == '.',
    ensures
        !has_suffix_ignoring_case(url, extension),
{
    if has_suffix_ignoring_case(url, extension) {
        assert(ascii_lower(url[url.len() - extension.len()]) == extension[0]);
        assert(url[url.len() - extension.len()] == '.') by {
            let c = url[url.len() - extension.len()];
            if 'A' <= c <= 'Z' {
                assert((c as u32 + 32) as char as u32 == c as u32 + 32);
            }
        }
    }
}

proof fn lemma_case_does_not_matter(url: Seq<char>, other: Seq<char>, extension: Seq<char>)
    requires
        url.len() == other.len(),
        forall|i: int| 0 <= i < url.len() ==> ascii_lower(#[trigger] url[i]) == ascii_lower(other[i]),
    ensures
        has_suffix_ignoring_case(url, extension) == has_suffix_ignoring_case(other, extension),
{
    let n = url.len() - extension.len();
    if extension.len() <= url.len() {
        assert forall|i: int| 0 <= i < extension.len() implies ascii_lower(url[n + i])
            == ascii_lower(#[trigger] other[n + i]) by {
            assert(ascii_lower(url[n + i]) == ascii_lower(other[n + i]));
        }
        if has_suffix_ignoring_case(url, extension) {
            assert forall|i: int| 0 <= i < extension.len() implies ascii_lower(
                other[other.len() - extension.len() + i],
            ) == #[trigger] extension[i] by {
                assert(ascii_lower(url[n + i]) == ascii_lower(other[n + i]));
            }
        }
        if has_suffix_ignoring_case(other, extension) {
            assert forall|i: int| 0 <= i < extension.len() implies ascii_lower(
                url[url.len() - extension.len() + i],
            ) == #[trigger] extension[i] by {
                assert(ascii_lower(url[n + i]) == ascii_lower(other[n + i]));
            }
        }
    }
}

/// Infer a media type from the extension at the end of a URL.
pub fn infer_media_type_from_url(url: &str) -> (r: String)
    ensures
        r@ == media_type_of_url(url@),
{
    let name = if ends_with_ignoring_case(url, ".png") {
        "image/png"
    } else if ends_with_ignoring_case(url, ".jpg") || ends_with_ignoring_case(url, ".jpeg") {
        "image/jpeg"
    } else if ends_with_ignoring_case(url, ".gif") {
        "image/gif"
    } else if ends_with_ignoring_case(url, ".webp") {
        "image/webp"
    } else if ends_with_ignoring_case(url, ".mp3") {
        "audio/mpeg"
    } else if ends_with_ignoring_case(url, ".wav") {
        "audio/wav"
    } else if ends_with_ignoring_case(url, ".ogg") {
        "audio/ogg"
    } else if ends_with_ignoring_case(url, ".mp4") {
        "video/mp4"
    } else if ends_with_ignoring_case(url, ".webm") {
        "video/webm"
    } else if ends_with_ignoring_case(url, ".pdf") {
        "application/pdf"
    } else if ends_with_ignoring_case(url, ".json") {
        "application/json"
    } else if ends_with_ignoring_case(url, ".txt") || ends_with_ignoring_case(url, ".md") {
        "text/plain"
    } else {
        "application/octet-stream"
    };
    name.to_owned()
}

/// The kind of media that a media type belongs to.
pub open spec fn kind_of_media_type(media_type: Seq<char>) -> MediaKind {
    if has_prefix(media_type, "image/"@) {
        MediaKind::Image
    } else if has_prefix(media_type, "audio/"@) {
        MediaKind::Audio
    } else if has_prefix(media_type, "video/"@) {
        MediaKind::Video
    } else {
        MediaKind::Document
    }
}

/// The kind of media that a media type belongs to; a document where it is none
/// of the others.
pub fn infer_media_kind(media_type: &str) -> (r: MediaKind)
    ensures
        r == kind_of_media_type(media_type@),
{
    if starts_with(media_type, "image/") {
        MediaKind::Image
    } else if starts_with(media_type, "audio/") {
        MediaKind::Audio
    } else if starts_with(media_type, "video/") {
        MediaKind::Video
    } else {
        MediaKind::Document
    }
}

/// The first part of a media type tells its kind. What has none of the three is a
/// document.
pub proof fn lemma_media_type_tells_the_kind(rest: Seq<char>, media_type: Seq<char>)
    ensures
        kind_of_media_type("image/"@ + rest) == MediaKind::Image,
        kind_of_media_type("audio/"@ + rest) == MediaKind::Audio,
        kind_of_media_type("video/"@ + rest) == MediaKind::Video,
        kind_of_media_type("application/"@ + rest) == MediaKind::Document,
        kind_of_media_type("text/"@ + rest) == MediaKind::Document,
        (forall|i: int| 0 <= i < media_type.len() ==> #[trigger] media_type[i] != '/')
            ==> kind_of_media_type(media_type) == MediaKind::Document,
{
    reveal_strlit("image/");
    reveal_strlit("audio/");
    reveal_strlit("video/");
    reveal_strlit("application/");
    reveal_strlit("text/");
    assert(("image/"@ + rest).take(6) =~= "image/"@);
    assert(("audio/"@ + rest).take(6) =~= "audio/"@);
    assert(("video/"@ + rest).take(6) =~= "video/"@);
    lemma_other_start("audio/"@ + rest, "image/"@, 0);
    lemma_other_start("video/"@ + rest, "image/"@, 0);
    lemma_other_start("video/"@ + rest, "audio/"@, 0);
    lemma_other_start("application/"@ + rest, "image/"@, 0);
    lemma_other_start("application/"@ + rest, "audio/"@, 1);
    lemma_other_start("application/"@ + rest, "video/"@, 0);
    lemma_other_start("text/"@ + rest, "image/"@, 0);
    lemma_other_start("text/"@ + rest, "audio/"@, 0);
    lemma_other_start("text/"@ + rest, "video/"@, 0);
    if forall|i: int| 0 <= i < media_type.len() ==> #[trigger] media_type[i] != '/' {
        lemma_other_start(media_type, "image/"@, 5);
        lemma_other_start(media_type, "audio/"@, 5);
        lemma_other_start(media_type, "video/"@, 5);
    }
}

proof fn lemma_other_start(s: Seq<char>, prefix: Seq<char>, at: int)
    requires
        0 <= at < prefix.len(),
        at < s.len() ==> s[at] != prefix[at],
    ensures
        !has_prefix(s, prefix),
{
    if has_prefix(s, prefix) {
        assert(s.take(prefix.len() as int)[at] == s[at]);
    }
}

/// The block of a kind with the given source. Only a document has a title.
pub open spec fn media_block(
    kind: MediaKind,
    source: MediaSource,
    title: Option<String>,
) -> ContentBlock {
    match kind {
        MediaKind::Image => ContentBlock::Image { source },
        MediaKind::Audio => ContentBlock::Audio { source },
        MediaKind::Video => ContentBlock::Video { source },
        MediaKind::Document => ContentBlock::Document { source, title },
    }
}

fn block_of(kind: MediaKind, source: MediaSource, title: Option<String>) -> (r: ContentBlock)
    ensures
        r == media_block(kind, source, title),
{
    match kind {
        MediaKind::Image => ContentBlock::Image { source },
        MediaKind::Audio => ContentBlock::Audio { source },
        MediaKind::Video => ContentBlock::Video { source },
        MediaKind::Document => ContentBlock::Document { source, title },
    }
}

/// A block of a kind whose media is at a URL.
pub fn content_block_from_url(kind: MediaKind, url: String, title: Option<String>) -> (r:
    ContentBlock)
    ensures
        r == media_block(kind, MediaSource::Url { url }, title),
{
    block_of(kind, MediaSource::Url { url }, title)
}

/// A block of a kind whose media is given in base64.
pub fn content_block_from_base64(
    kind: MediaKind,
    media_type: String,
    data: String,
    title: Option<String>,
) -> (r: ContentBlock)
    ensures
        r == media_block(kind, MediaSource::Base64 { media_type, data }, title),
{
    block_of(kind, MediaSource::Base64 { media_type, data }, title)
}

/// A block of media is of the kind that was asked for and has the source that was
/// given, and a document its title too: two blocks are the same only where these are.
pub proof fn lemma_media_block_keeps_its_source(
    kind: MediaKind,
    source: MediaSource,
    title: Option<String>,
)
    ensures
        kind == MediaKind::Image <==> media_block(kind, source, title) is Image,
        kind == MediaKind::Audio <==> media_block(kind, source, title) is Audio,
        kind == MediaKind::Video <==> media_block(kind, source, title) is Video,
        kind == MediaKind::Document <==> media_block(kind, source, title) is Document,
        match media_block(kind, source, title) {
            ContentBlock::Image { source: kept } => kept == source,
            ContentBlock::Audio { source: kept } => kept == source,
            ContentBlock::Video { source: kept } => kept == source,
            ContentBlock::Document { source: kept, title: named } => kept == source && named
                == title,
            _ => false,
        },
{
}

/// The media type that a block at a URL is taken for: the declared one, unless
/// it is missing or blank.
pub open spec fn effective_media_type(url: Seq<char>, declared: Option<Seq<char>>) -> Seq<char> {
    match declared {
        Some(t) if !is_blank(t) => t,
        _ => media_type_of_url(url),
    }
}

/// What is declared of media at a URL comes before what its extension says, unless the
/// declaration is blank: a picture may be served under any name.
pub proof fn lemma_declared_type_comes_first(
    url: Seq<char>,
    declared: Seq<char>,
    rest: Seq<char>,
)
    ensures
        !is_blank(declared) ==> effective_media_type(url, Some(declared)) == declared,
        is_blank(declared) ==> effective_media_type(url, Some(declared)) == media_type_of_url(url),
        effective_media_type(url, None) == media_type_of_url(url),
        kind_of_media_type(effective_media_type(url, Some("image/"@ + rest)))
            == MediaKind::Image,
        kind_of_media_type(effective_media_type(url, Some("audio/"@ + rest)))
            == MediaKind::Audio,
        kind_of_media_type(effective_media_type(url, Some("video/"@ + rest)))
            == MediaKind::Video,
{
    lemma_media_type_tells_the_kind(rest, rest);
    reveal_strlit("image/");
    reveal_strlit("audio/");
    reveal_strlit("video/");
    assert(!is_white(("image/"@ + rest)[0]));
    assert(!is_white(("audio/"@ + rest)[0]));
    assert(!is_white(("video/"@ + rest)[0]));
}

/// A block whose media is at a URL, of the kind that its media type tells.
pub fn content_block_from_media_url(
    url: String,
    media_type: Option<&str>,
    title: Option<String>,
) -> (r: ContentBlock)
    ensures
        r == media_block(
            kind_of_media_type(
                effective_media_type(
                    url@,
                    match media_type {
                        Some(t) => Some(t@),
                        None => None,
                    },
                ),
            ),
            MediaSource::Url { url },
            title,
        ),
{
    let kind = match media_type {
        Some(t) => if blank(t) {
            let inferred = infer_media_type_from_url(url.as_str());
            infer_media_kind(inferred.as_str())
        } else {
            infer_media_kind(t)
        },
        None => {
            let inferred = infer_media_type_from_url(url.as_str());
            infer_media_kind(inferred.as_str())
        },
    };
    content_block_from_url(kind, url, title)
}

/// A block whose media is given in base64, of the kind that its media type tells.
pub fn content_block_from_media_base64(
    data: String,
    media_type: String,
    title: Option<String>,
) -> (r: ContentBlock)
    ensures
        r == media_block(
            kind_of_media_type(media_type@),
            MediaSource::Base64 { media_type, data },
            title,
        ),
{
    let kind = infer_media_kind(media_type.as_str());
    content_block_from_base64(kind, media_type, data, title)
}

/// A message of a pair says the pair's text, in the pair's role, to everyone.
pub proof fn lemma_message_of_a_pair_is_for_all(pair: (String, String), m: Message)
    requires
        is_message_of_pair(pair, m),
    ensures
        m.visibility == Visibility::All,
        m.content@.len() == 1,
        m.content@[0] matches ContentBlock::Text { text } && text@ == pair.1@,
        m.metadata is None,
        pair.0@ == "user"@ ==> m.role == Role::User,
        pair.0@ == "assistant"@ ==> m.role == Role::Assistant,
        pair.0@ == "system"@ ==> m.role == Role::System,
        pair.0@ == "user"@ || pair.0@ == "assistant"@ || pair.0@ == "system"@,
{
    reveal_strlit("user");
    reveal_strlit("assistant");
    reveal_strlit("system");
    assert("user"@.len() == 4 && "assistant"@.len() == 9 && "system"@.len() == 6);
}

} // verus!
