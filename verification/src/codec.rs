use vstd::prelude::*;
use crate::error::Error;

verus! {

/// One page rendered to an RGB raster: what the document renderer hands the
/// pipeline, three bytes per pixel in row order.
pub struct RasterPage {
    pub width: u32,
    pub height: u32,
    pub pixels: Vec<u8>,
}

impl RasterPage {
    /// The buffer holds exactly three bytes per pixel.
    pub open spec fn wf(self) -> bool {
        self.pixels@.len() == 3 * self.width * self.height
    }
}

/// One encoded page, carrying its position in the document.
pub struct PageImage {
    pub index: usize,
    pub width: u32,
    pub height: u32,
    pub bytes: Vec<u8>,
}

/// The PNG encoding of an RGB raster: a fixed function of the dimensions
/// and the pixels.
pub uninterp spec fn png_of(width: u32, height: u32, pixels: Seq<u8>) -> Seq<u8>;

/// Whether the PNG encoder accepts an RGB raster: a fixed function of the
/// dimensions and the pixels (it rejects, for one, a zero-sized raster).
pub uninterp spec fn png_encode_ok(width: u32, height: u32, pixels: Seq<u8>) -> bool;

/// What decoding a PNG byte stream to an RGB raster yields, if anything:
/// a fixed function of the bytes, read with no allocation ceiling.
pub uninterp spec fn png_decode_of(bytes: Seq<u8>) -> Option<(u32, u32, Seq<u8>)>;

/// Relies on image's PNG codec (RgbImage::from_raw and write_to with the
/// PNG format): whether the raster is accepted, and the bytes produced,
/// depend on the raster alone, and PNG being lossless, decoding the
/// produced bytes (as `png_decode` below reads them, with no allocation
/// ceiling) yields the raster unchanged.
#[verifier::external_body]
fn png_encode(width: u32, height: u32, pixels: &Vec<u8>) -> (r: Result<Vec<u8>, String>)
    requires
        pixels@.len() == 3 * width * height,
    ensures
        r is Ok <==> png_encode_ok(width, height, pixels@),
        r matches Ok(b) ==> b@ == png_of(width, height, pixels@) && png_decode_of(b@) == Some(
            (width, height, pixels@),
        ),
{
    let img = match image::RgbImage::from_raw(width, height, pixels.clone()) {
        Some(img) => img,
        None => return Err("raster buffer does not match its dimensions".to_string()),
    };
    let mut out: Vec<u8> = Vec::new();
    match img.write_to(&mut std::io::Cursor::new(&mut out), image::ImageFormat::Png) {
        Ok(()) => Ok(out),
        Err(e) => Err(format!("{e}")),
    }
}

/// Relies on image's PNG decoder (ImageReader with the PNG format and the
/// allocation ceiling lifted, then into_rgb8): decoding depends on the
/// bytes alone.
#[verifier::external_body]
fn png_decode(bytes: &Vec<u8>) -> (r: Option<(u32, u32, Vec<u8>)>)
    ensures
        match r {
            Some(t) => png_decode_of(bytes@) == Some((t.0, t.1, t.2@)),
            None => png_decode_of(bytes@) is None,
        },
{
    let mut reader = image::ImageReader::with_format(
        std::io::Cursor::new(bytes.as_slice()),
        image::ImageFormat::Png,
    );
    reader.no_limits();
    match reader.decode() {
        Ok(img) => {
            let rgb = img.into_rgb8();
            let w = rgb.width();
            let h = rgb.height();
            Some((w, h, rgb.into_raw()))
        },
        Err(_) => None,
    }
}

/// The standard base64 encoding of the bytes.
pub uninterp spec fn base64_of(bytes: Seq<u8>) -> Seq<char>;

/// What the standard base64 decoding of a text yields, if the text is
/// valid base64: a fixed function of the text.
pub uninterp spec fn base64_decode_of(text: Seq<char>) -> Option<Seq<u8>>;

/// Relies on base64's STANDARD engine: the transport-safe text encoding is
/// a fixed function of the bytes, an empty input encodes to an empty
/// string, and decoding the produced text yields the bytes unchanged.
#[verifier::external_body]
pub fn base64_encode(bytes: &Vec<u8>) -> (r: String)
    ensures
        r@ == base64_of(bytes@),
        bytes@.len() == 0 ==> r@.len() == 0,
        base64_decode_of(r@) == Some(bytes@),
{
    base64::Engine::encode(&base64::prelude::BASE64_STANDARD, bytes.as_slice())
}

/// Relies on base64's STANDARD engine: decoding depends on the text alone.
#[verifier::external_body]
pub(crate) fn base64_decode(text: &str) -> (r: Option<Vec<u8>>)
    ensures
        match r {
            Some(b) => base64_decode_of(text@) == Some(b@),
            None => base64_decode_of(text@) is None,
        },
{
    match base64::Engine::decode(&base64::prelude::BASE64_STANDARD, text) {
        Ok(b) => Some(b),
        Err(_) => None,
    }
}

/// Encodes one rendered page to lossless PNG bytes; succeeds exactly when
/// the encoder accepts the raster. Decoding the result yields the page's
/// dimensions and pixels unchanged.
pub fn encode_page(index: usize, page: &RasterPage) -> (r: Result<PageImage, Error>)
    requires
        page.wf(),
    ensures
        r is Ok <==> png_encode_ok(page.width, page.height, page.pixels@),
        r matches Ok(p) ==> p.index == index && p.width == page.width && p.height == page.height
            && p.bytes@ == png_of(page.width, page.height, page.pixels@) && png_decode_of(p.bytes@)
            == Some((page.width, page.height, page.pixels@)),
        r matches Err(e) ==> e matches Error::ImageError(_),
{
    match png_encode(page.width, page.height, &page.pixels) {
        Ok(bytes) => Ok(PageImage { index, width: page.width, height: page.height, bytes }),
        Err(msg) => Err(Error::ImageError(msg)),
    }
}

/// Decodes PNG bytes back to a raster: the inverse direction of the
/// lossless round trip.
pub fn decode_page(bytes: &Vec<u8>) -> (r: Option<RasterPage>)
    ensures
        match r {
            Some(p) => png_decode_of(bytes@) == Some((p.width, p.height, p.pixels@)),
            None => png_decode_of(bytes@) is None,
        },
{
    match png_decode(bytes) {
        Some(t) => Some(RasterPage { width: t.0, height: t.1, pixels: t.2 }),
        None => None,
    }
}

/// Encodes every rendered page, in page order; each image carries its
/// position. Succeeds exactly when the encoder accepts every page, and
/// fails on the first page it rejects: rendering and encoding are
/// all-or-nothing for the document.
pub fn encode_pages(pages: &Vec<RasterPage>) -> (r: Result<Vec<PageImage>, Error>)
    requires
        forall|i: int| 0 <= i < pages@.len() ==> (#[trigger] pages@[i]).wf(),
    ensures
        r is Ok <==> (forall|i: int|
            0 <= i < pages@.len() ==> png_encode_ok(
                (#[trigger] pages@[i]).width,
                pages@[i].height,
                pages@[i].pixels@,
            )),
        r matches Ok(out) ==> out@.len() == pages@.len() && forall|i: int|
            0 <= i < pages@.len() ==> (#[trigger] out@[i]).index == i && out@[i].width
                == pages@[i].width && out@[i].height == pages@[i].height && out@[i].bytes@
                == png_of(pages@[i].width, pages@[i].height, pages@[i].pixels@) && png_decode_of(
                out@[i].bytes@,
            ) == Some((pages@[i].width, pages@[i].height, pages@[i].pixels@)),
        r matches Err(e) ==> e matches Error::ImageError(_),
{
    let mut out: Vec<PageImage> = Vec::new();
    let mut i: usize = 0;
    while i < pages.len()
        invariant
            i <= pages@.len(),
            out@.len() == i,
            forall|k: int| 0 <= k < pages@.len() ==> (#[trigger] pages@[k]).wf(),
            forall|k: int|
                0 <= k < i ==> png_encode_ok(
                    (#[trigger] pages@[k]).width,
                    pages@[k].height,
                    pages@[k].pixels@,
                ),
            forall|k: int|
                0 <= k < i ==> (#[trigger] out@[k]).index == k && out@[k].width == pages@[k].width
                    && out@[k].height == pages@[k].height && out@[k].bytes@ == png_of(
                    pages@[k].width,
                    pages@[k].height,
                    pages@[k].pixels@,
                ) && png_decode_of(out@[k].bytes@) == Some(
                    (pages@[k].width, pages@[k].height, pages@[k].pixels@),
                ),
        decreases pages@.len() - i,
    {
        match encode_page(i, &pages[i]) {
            Ok(p) => {
                out.push(p);
            },
            Err(e) => {
                proof {
                    assert(!png_encode_ok(pages@[i as int].width, pages@[i as int].height,
                        pages@[i as int].pixels@));
                }
                return Err(e);
            },
        }
        i = i + 1;
    }
    Ok(out)
}

} // verus!
