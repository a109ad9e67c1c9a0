use base64::Engine;
use soil_extract::codec::{decode_page, encode_page, encode_pages, RasterPage};
use soil_extract::error::{Error, InvalidResponseError};
use soil_extract::open_ai_request::{build_request, decode_image_url, ContentData};
use soil_extract::open_ai_response::{Choice, Message, OpenAIResponse, Usage};
use soil_extract::{prepare_request, process_reply};

fn raster(width: u32, height: u32, seed: u8) -> RasterPage {
    let n = (3 * width * height) as usize;
    let pixels: Vec<u8> = (0..n).map(|i| (i as u8).wrapping_mul(31).wrapping_add(seed)).collect();
    RasterPage { width, height, pixels }
}

fn reply(text: &str) -> OpenAIResponse {
    OpenAIResponse {
        id: "resp-1".to_string(),
        object: "chat.completion".to_string(),
        created: 0,
        model: "gpt-4o-mini".to_string(),
        choices: vec![Choice {
            index: 0,
            message: Message { role: "assistant".to_string(), content: text.to_string() },
            logprobs: None,
            finish_reason: "stop".to_string(),
        }],
        usage: Usage { prompt_tokens: 0, completion_tokens: 0, total_tokens: 0 },
        system_fingerprint: String::new(),
    }
}

fn empty_reply() -> OpenAIResponse {
    let mut r = reply("");
    r.choices.clear();
    r
}

#[test]
fn png_round_trip_is_pixel_identical() {
    let page = raster(5, 4, 7);
    let img = encode_page(0, &page).expect("encodable");
    assert_ne!(img.bytes, page.pixels, "the encoding is a real PNG, not the raw buffer");
    let back = decode_page(&img.bytes).expect("decodable");
    assert_eq!(back.width, 5);
    assert_eq!(back.height, 4);
    assert_eq!(back.pixels, page.pixels);
}

#[test]
fn decode_of_garbage_is_none() {
    assert!(decode_page(&vec![1, 2, 3, 4]).is_none());
}

#[test]
fn request_has_one_block_per_page_plus_prompt() {
    for n in 0..5usize {
        let pages: Vec<RasterPage> = (0..n).map(|i| raster(2, 2, i as u8)).collect();
        let images = encode_pages(&pages).expect("encodable");
        let req = build_request("read the report", &images);
        assert_eq!(req.model, "gpt-4o-mini");
        assert_eq!(req.max_tokens, 1500);
        assert_eq!(req.messages.len(), 1);
        assert_eq!(req.messages[0].role, "user");
        let content = &req.messages[0].content;
        assert_eq!(content.len(), n + 1);
        assert_eq!(content[0].kind, "text");
        match &content[0].data {
            ContentData::Text { text } => assert_eq!(text, "read the report"),
            _ => panic!("first block must be the instruction text"),
        }
        for i in 0..n {
            let block = &content[i + 1];
            assert_eq!(block.kind, "image_url");
            match &block.data {
                ContentData::ImageUrl { image_url } => {
                    let expected = format!(
                        "data:image/png;base64,{}",
                        base64::engine::general_purpose::STANDARD.encode(&images[i].bytes)
                    );
                    assert_eq!(image_url.url, expected);
                    assert_eq!(image_url.detail, "high");
                }
                _ => panic!("page blocks must be image blocks, in page order"),
            }
        }
    }
}

#[test]
fn two_page_document_end_to_end() {
    let pages = vec![raster(3, 3, 1), raster(3, 3, 2)];
    let req = prepare_request("read the report", &pages).expect("encodable");
    assert_eq!(req.messages[0].content.len(), 3);
    let text = "Here is the result:\n```json\n{\"ReportNumber\":\"R1\",\
                \"SampledDate\":\"2024-01-01\",\"Samples\":[]}\n```\nThanks.";
    let rep = process_reply(&reply(text)).expect("valid reply");
    assert_eq!(rep.report_number, "R1");
    assert_eq!(rep.sampled_date, "2024-01-01");
    assert!(rep.samples.is_empty());
}

#[test]
fn reply_without_fence_fails_as_no_json_section() {
    let out = process_reply(&reply("I could not find a report in these images."));
    assert!(matches!(
        out,
        Err(Error::InvalidResponse(InvalidResponseError::NoJsonSection))
    ));
}

#[test]
fn reply_with_no_choices_fails_as_no_messages() {
    let out = process_reply(&empty_reply());
    assert!(matches!(
        out,
        Err(Error::InvalidResponse(InvalidResponseError::NoMessages))
    ));
}

#[test]
fn no_messages_and_no_json_section_are_never_conflated() {
    let no_choice = process_reply(&empty_reply());
    let no_fence = process_reply(&reply("plain prose"));
    assert!(matches!(
        no_choice,
        Err(Error::InvalidResponse(InvalidResponseError::NoMessages))
    ));
    assert!(matches!(
        no_fence,
        Err(Error::InvalidResponse(InvalidResponseError::NoJsonSection))
    ));
}

#[test]
fn fenced_but_malformed_json_is_schema_error() {
    let out = process_reply(&reply("```json\n{\"ReportNumber\":\n```"));
    assert!(matches!(out, Err(Error::JsonError(_))));
}

#[test]
fn embedded_payload_decodes_back_to_the_page_bytes() {
    let pages = vec![raster(4, 3, 9)];
    let images = encode_pages(&pages).expect("encodable");
    let req = build_request("p", &images);
    match &req.messages[0].content[1].data {
        ContentData::ImageUrl { image_url } => {
            let bytes = decode_image_url(&image_url.url).expect("well-formed data URI");
            assert_eq!(bytes, images[0].bytes);
            let back = decode_page(&bytes).expect("decodable");
            assert_eq!(back.pixels, pages[0].pixels);
        }
        _ => panic!("expected an image block"),
    }
    assert_eq!(decode_image_url("https://example.invalid/x.png"), None);
    assert_eq!(decode_image_url("data:image/png;base64,!!!"), None);
}

#[test]
fn base64_encoding_is_standard() {
    let pages = vec![RasterPage { width: 1, height: 1, pixels: vec![0, 0, 0] }];
    let images = encode_pages(&pages).expect("encodable");
    let req = build_request("p", &images);
    match &req.messages[0].content[1].data {
        ContentData::ImageUrl { image_url } => {
            let b64 = image_url.url.strip_prefix("data:image/png;base64,").expect("data URI");
            let bytes = base64::engine::general_purpose::STANDARD
                .decode(b64)
                .expect("valid standard base64 with padding");
            assert_eq!(bytes, images[0].bytes);
        }
        _ => panic!("expected an image block"),
    }
}
