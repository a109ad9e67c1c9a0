use vstd::prelude::*;

pub mod codec;
pub mod error;
pub mod extract;
pub mod json;
pub mod open_ai_request;
pub mod open_ai_response;
pub mod soil_report;
pub mod text;

use crate::codec::{RasterPage, encode_pages, png_encode_ok, png_of};
use crate::error::{Error, InvalidResponseError};
use crate::extract::{extract_json, spec_extract};
use crate::json::json_value_of;
use crate::open_ai_request::{OpenAIRequest, build_request, request_ok, image_block_ok, text_block_ok};
use crate::open_ai_response::{OpenAIResponse, get_first_message_content};
use crate::soil_report::{SoilReport, parse_soil_report, report_matches, report_ok, wf_report};

verus! {

/// Encodes every rendered page and assembles the outbound request: one
/// instruction block, then one image block per page, in page order — for a
/// document of N pages, exactly N + 1 content blocks. Each embedded image
/// is the lossless PNG encoding of its page, and assembly succeeds exactly
/// when the encoder accepts every page.
pub fn prepare_request(prompt: &str, pages: &Vec<RasterPage>) -> (r: Result<OpenAIRequest, Error>)
    requires
        forall|i: int| 0 <= i < pages@.len() ==> (#[trigger] pages@[i]).wf(),
    ensures
        r is Ok <==> (forall|i: int|
            0 <= i < pages@.len() ==> png_encode_ok(
                (#[trigger] pages@[i]).width,
                pages@[i].height,
                pages@[i].pixels@,
            )),
        r matches Ok(req) ==> {
            &&& req.model@ == "gpt-4o-mini"@
            &&& req.max_tokens == 1500
            &&& req.messages@.len() == 1
            &&& req.messages@[0].role@ == "user"@
            &&& req.messages@[0].content@.len() == 1 + pages@.len()
            &&& text_block_ok(req.messages@[0].content@[0], prompt@)
            &&& forall|i: int|
                0 <= i < pages@.len() ==> image_block_ok(
                    #[trigger] req.messages@[0].content@[1 + i],
                    png_of(pages@[i].width, pages@[i].height, pages@[i].pixels@),
                )
        },
        r matches Err(e) ==> e matches Error::ImageError(_),
{
    let images = match encode_pages(pages) {
        Ok(images) => images,
        Err(e) => {
            return Err(e);
        },
    };
    let req = build_request(prompt, &images);
    proof {
        assert(request_ok(req, prompt@, images@));
    }
    Ok(req)
}

/// Runs the reply side of the pipeline: takes the first returned choice,
/// isolates the first fenced JSON block of its text, and validates that
/// block against the report schema. A reply with no choices fails as
/// `NoMessages`; one whose text holds no fenced block fails as
/// `NoJsonSection`; these two are never conflated. Text that is present but
/// malformed or incomplete fails as `JsonError`.
pub fn process_reply(response: &OpenAIResponse) -> (r: Result<SoilReport, Error>)
    ensures
        ((r matches Err(e) && e matches Error::InvalidResponse(
            InvalidResponseError::NoMessages,
        )) <==> response.choices@.len() == 0),
        response.choices@.len() > 0 ==> ((r matches Err(e) && e matches Error::InvalidResponse(
            InvalidResponseError::NoJsonSection,
        )) <==> spec_extract(response.choices@[0].message.content@) is None),
        (response.choices@.len() > 0 && spec_extract(response.choices@[0].message.content@)
            is Some) ==> {
            let j = spec_extract(response.choices@[0].message.content@).unwrap();
            &&& (r matches Ok(rep) ==> json_value_of(j) is Some && report_ok(
                json_value_of(j).unwrap(),
            ) && report_matches(rep, json_value_of(j).unwrap()) && wf_report(rep))
            &&& (r matches Err(e) ==> (e matches Error::JsonError(_)) && (json_value_of(j) is None
                || !report_ok(json_value_of(j).unwrap())))
        },
{
    match get_first_message_content(response) {
        None => Err(Error::InvalidResponse(InvalidResponseError::NoMessages)),
        Some(text) => match extract_json(text.as_str()) {
            None => Err(Error::InvalidResponse(InvalidResponseError::NoJsonSection)),
            Some(json_text) => parse_soil_report(json_text.as_str()),
        },
    }
}

} // verus!
