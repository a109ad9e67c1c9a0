use vstd::prelude::*;
use crate::codec::{PageImage, base64_of, base64_decode_of, base64_encode, base64_decode};
use crate::text::{str_to_chars, chars_to_string, copy_range};

verus! {

/// One outbound chat request: a model identifier, the messages, and a token
/// budget ceiling.
#[derive(Debug, Clone, PartialEq, Eq, Hash)]
pub struct OpenAIRequest {
    pub model: String,
    pub messages: Vec<Message>,
    pub max_tokens: u32,
}

/// One message: a role and its ordered content blocks.
#[derive(Debug, Clone, PartialEq, Eq, Hash)]
pub struct Message {
    pub role: String,
    pub content: Vec<Content>,
}

/// One content block: its discriminant and its payload.
#[derive(Debug, Clone, PartialEq, Eq, Hash)]
pub struct Content {
    pub kind: String,
    pub data: ContentData,
}

/// The payload of a content block: instruction text or an image reference.
#[derive(Debug, Clone, PartialEq, Eq, Hash)]
pub enum ContentData {
    Text { text: String },
    ImageUrl { image_url: ImageUrl },
}

/// An embedded image: a data URI and the fidelity hint.
#[derive(Debug, Clone, PartialEq, Eq, Hash)]
pub struct ImageUrl {
    pub url: String,
    pub detail: String,
}

/// The fixed prefix of an embedded PNG data URI.
pub open spec fn data_uri_prefix() -> Seq<char> {
    "data:image/png;base64,"@
}

/// The block is the instruction text.
pub open spec fn text_block_ok(c: Content, prompt: Seq<char>) -> bool {
    &&& c.kind@ == "text"@
    &&& match c.data {
        ContentData::Text { text } => text@ == prompt,
        _ => false,
    }
}

/// The block embeds exactly the given image bytes, base64-encoded inside a
/// PNG data URI, with the high-fidelity hint; the text encoding is
/// invertible, so decoding the embedded payload yields the bytes unchanged.
pub open spec fn image_block_ok(c: Content, bytes: Seq<u8>) -> bool {
    &&& c.kind@ == "image_url"@
    &&& match c.data {
        ContentData::ImageUrl { image_url } => image_url.url@ == data_uri_prefix() + base64_of(
            bytes,
        ) && image_url.detail@ == "high"@,
        _ => false,
    }
    &&& base64_decode_of(base64_of(bytes)) == Some(bytes)
}

/// The request holds one user message whose blocks are the instruction text
/// first, then one image block per page, in page order.
pub open spec fn request_ok(r: OpenAIRequest, prompt: Seq<char>, pages: Seq<PageImage>) -> bool {
    &&& r.model@ == "gpt-4o-mini"@
    &&& r.max_tokens == 1500
    &&& r.messages@.len() == 1
    &&& r.messages@[0].role@ == "user"@
    &&& r.messages@[0].content@.len() == 1 + pages.len()
    &&& text_block_ok(r.messages@[0].content@[0], prompt)
    &&& forall|i: int|
        0 <= i < pages.len() ==> image_block_ok(
            #[trigger] r.messages@[0].content@[1 + i],
            pages[i].bytes@,
        )
}

/// Assembles the outbound request: one fixed instruction block, then one
/// image block per encoded page, in page order. For a document of N pages
/// the request holds exactly N + 1 content blocks.
pub fn build_request(prompt: &str, pages: &Vec<PageImage>) -> (r: OpenAIRequest)
    ensures
        request_ok(r, prompt@, pages@),
{
    let mut content: Vec<Content> = Vec::new();
    content.push(
        Content {
            kind: String::from_str("text"),
            data: ContentData::Text { text: String::from_str(prompt) },
        },
    );
    let mut i: usize = 0;
    while i < pages.len()
        invariant
            i <= pages@.len(),
            content@.len() == 1 + i,
            text_block_ok(content@[0], prompt@),
            forall|k: int|
                0 <= k < i ==> image_block_ok(#[trigger] content@[1 + k], pages@[k].bytes@),
        decreases pages@.len() - i,
    {
        let b64 = base64_encode(&pages[i].bytes);
        let url = String::from_str("data:image/png;base64,").concat(b64.as_str());
        content.push(
            Content {
                kind: String::from_str("image_url"),
                data: ContentData::ImageUrl {
                    image_url: ImageUrl { url, detail: String::from_str("high") },
                },
            },
        );
        i = i + 1;
    }
    let message = Message { role: String::from_str("user"), content };
    let mut messages: Vec<Message> = Vec::new();
    messages.push(message);
    OpenAIRequest { model: String::from_str("gpt-4o-mini"), messages, max_tokens: 1500 }
}

/// Recovers the image bytes embedded in a data URI: checks the fixed PNG
/// prefix and base64-decodes the payload after it — the inverse direction
/// of the request's embedding, so what was sent can be read back.
pub fn decode_image_url(url: &str) -> (r: Option<Vec<u8>>)
    ensures
        match r {
            Some(bytes) => data_uri_prefix().is_prefix_of(url@) && base64_decode_of(
                url@.skip(data_uri_prefix().len() as int),
            ) == Some(bytes@),
            None => !data_uri_prefix().is_prefix_of(url@) || base64_decode_of(
                url@.skip(data_uri_prefix().len() as int),
            ) is None,
        },
{
    let chars = str_to_chars(url);
    let prefix = str_to_chars("data:image/png;base64,");
    if chars.len() < prefix.len() {
        return None;
    }
    let mut j: usize = 0;
    let mut all_eq = true;
    while j < prefix.len()
        invariant
            j <= prefix@.len() <= chars@.len(),
            chars@ == url@,
            prefix@ == data_uri_prefix(),
            all_eq <==> (forall|k: int| 0 <= k < j ==> chars@[k] == prefix@[k]),
        decreases prefix@.len() - j,
    {
        let same = chars[j] == prefix[j];
        all_eq = all_eq && same;
        proof {
            if all_eq {
                assert(forall|k: int| 0 <= k < j + 1 ==> chars@[k] == prefix@[k]);
            }
        }
        j = j + 1;
    }
    if !all_eq {
        proof {
            assert(!data_uri_prefix().is_prefix_of(url@)) by {
                if data_uri_prefix().is_prefix_of(url@) {
                    let sub = url@.subrange(0, data_uri_prefix().len() as int);
                    assert(forall|k: int|
                        0 <= k < data_uri_prefix().len() ==> sub[k] == url@[k] && sub[k]
                            == data_uri_prefix()[k]);
                }
            }
        }
        return None;
    }
    proof {
        assert(data_uri_prefix() =~= url@.subrange(0, data_uri_prefix().len() as int));
    }
    let payload = copy_range(&chars, prefix.len(), chars.len());
    let text = chars_to_string(&payload);
    proof {
        assert(text@ =~= url@.skip(data_uri_prefix().len() as int));
    }
    base64_decode(text.as_str())
}

} // verus!
