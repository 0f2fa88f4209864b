//! QR rendering: a URL drawn as a PNG raster, its base64 text for inline
//! embedding, and the substitution that plants that text into an HTML
//! template.

use vstd::prelude::*;
use vstd::utf8::encode_utf8;
use crate::error::CustomError;
use crate::store::{has_invitation, invitation_of, Store};
use crate::uri::Uri;

verus! {

/// QR encoding turned the URL down (the text does not fit a QR symbol).
pub struct QrEncodeError;

/// The PNG raster of the QR symbol for a URL; names what
/// `qrcode::QrCode::new` and image's PNG encoder produce, a function of the
/// text alone.
pub uninterp spec fn qr_png_of(url: Seq<char>) -> Seq<u8>;

/// Whether the text fits a QR symbol; names the acceptance verdict of
/// `qrcode::QrCode::new`, a capacity check on the text alone.
pub uninterp spec fn qr_encodable(url: Seq<char>) -> bool;

/// Relies on `qrcode::QrCode::new`, its `Luma` renderer and
/// `image::DynamicImage::write_to` with the PNG encoder: the raster is
/// drawn from the URL text alone, deterministically, and succeeds exactly
/// when the text fits a QR symbol (the PNG write lands in memory, where it
/// cannot fail).
#[verifier::external_body]
fn qr_png(url: &str) -> (r: Result<Vec<u8>, QrEncodeError>)
    ensures
        r is Ok <==> qr_encodable(url@),
        r is Ok ==> r->Ok_0@ == qr_png_of(url@),
{
    let code = match qrcode::QrCode::new(url.as_bytes()) {
        Ok(code) => code,
        Err(_) => {
            return Err(QrEncodeError);
        },
    };
    let image = code.render::<image::Luma<u8>>().build();
    let mut buffer = std::io::Cursor::new(Vec::new());
    let dynamic = image::DynamicImage::ImageLuma8(image);
    match dynamic.write_to(&mut buffer, image::ImageOutputFormat::Png) {
        Ok(()) => Ok(buffer.into_inner()),
        Err(_) => Err(QrEncodeError),
    }
}

/// The base64 text of a byte string; names what `base64::encode` produces,
/// a function of the bytes alone.
pub uninterp spec fn base64_of(bytes: Seq<u8>) -> Seq<char>;

/// Relies on `base64::encode`: the standard alphabet with padding, a
/// function of the bytes alone.
#[verifier::external_body]
fn base64_encode(bytes: &Vec<u8>) -> (r: String)
    ensures
        r@ == base64_of(bytes@),
{
    base64::encode(bytes)
}

/// The QR raster of a short URL, as PNG bytes, for callers that store the
/// image as a file.
pub fn generate_qr_code_png(short_url: &Uri) -> (r: Result<Vec<u8>, QrEncodeError>)
    ensures
        r is Ok <==> qr_encodable(short_url@),
        r is Ok ==> r->Ok_0@ == qr_png_of(short_url@),
{
    qr_png(short_url.as_str())
}

/// The QR raster of a short URL as a base64 PNG payload, ready for inline
/// embedding in an HTML page or email.
pub fn generate_qr_code_base64(short_url: &Uri) -> (r: Result<String, QrEncodeError>)
    ensures
        r is Ok <==> qr_encodable(short_url@),
        r is Ok ==> r->Ok_0@ == base64_of(qr_png_of(short_url@)),
{
    match qr_png(short_url.as_str()) {
        Ok(png) => Ok(base64_encode(&png)),
        Err(failure) => Err(failure),
    }
}

/// Every occurrence of `marker` in `s` replaced by `value`, scanning left
/// to right; an empty marker changes nothing.
pub open spec fn spec_replace_all(s: Seq<u8>, marker: Seq<u8>, value: Seq<u8>) -> Seq<u8>
    decreases s.len(),
{
    if marker.len() == 0 || s.len() < marker.len() {
        s
    } else if s.take(marker.len() as int) == marker {
        value + spec_replace_all(s.skip(marker.len() as int), marker, value)
    } else {
        seq![s[0]] + spec_replace_all(s.skip(1), marker, value)
    }
}

/// Plants a rendered value into a template: every occurrence of the marker
/// byte string is replaced by the value, as the HTML templates expect for
/// their embedded image.
pub fn replace_marker(template: &Vec<u8>, marker: &Vec<u8>, value: &Vec<u8>) -> (r: Vec<u8>)
    ensures
        r@ == spec_replace_all(template@, marker@, value@),
{
    let mut out: Vec<u8> = Vec::new();
    let n = template.len();
    let m = marker.len();
    let mut i: usize = 0;
    proof {
        assert(template@.skip(0) =~= template@);
        assert(out@ + spec_replace_all(template@, marker@, value@)
            =~= spec_replace_all(template@, marker@, value@));
    }
    while i < n
        invariant
            i <= n,
            n == template@.len(),
            m == marker@.len(),
            spec_replace_all(template@, marker@, value@)
                == out@ + spec_replace_all(template@.skip(i as int), marker@, value@),
        decreases n - i,
    {
        let ghost tail = template@.skip(i as int);
        let ghost prev = out@;
        let mut matched = false;
        if m > 0 && m <= n - i {
            matched = true;
            let mut j: usize = 0;
            while j < m && matched
                invariant
                    j <= m,
                    m == marker@.len(),
                    n == template@.len(),
                    i + m <= n,
                    matched ==> forall|p: int| 0 <= p < j ==> template@[i + p] == marker@[p],
                    !matched ==> exists|p: int| 0 <= p < m && template@[i + p] != marker@[p],
                decreases m - j + (if matched { 1int } else { 0int }),
            {
                if template[i + j] != marker[j] {
                    matched = false;
                } else {
                    j += 1;
                }
            }
        }
        if matched {
            proof {
                assert(tail.take(m as int) =~= marker@) by {
                    assert forall|p: int| 0 <= p < m implies tail[p] == marker@[p] by {
                        assert(tail[p] == template@[i + p]);
                    }
                }
                assert(tail.skip(m as int) =~= template@.skip(i + m));
                assert(spec_replace_all(tail, marker@, value@)
                    == value@ + spec_replace_all(template@.skip(i + m), marker@, value@));
            }
            let vn = value.len();
            let mut v: usize = 0;
            while v < vn
                invariant
                    v <= vn,
                    vn == value@.len(),
                    out@ == prev + value@.take(v as int),
                decreases vn - v,
            {
                out.push(value[v]);
                proof {
                    assert(out@ =~= prev + value@.take(v + 1));
                }
                v += 1;
            }
            proof {
                assert(value@.take(vn as int) =~= value@);
                assert(out@ + spec_replace_all(template@.skip(i + m), marker@, value@)
                    =~= prev + spec_replace_all(tail, marker@, value@));
            }
            i += m;
        } else {
            proof {
                if m > 0 && i + m <= n {
                    let pw = choose|p: int| 0 <= p < m && template@[i + p] != marker@[p];
                    if tail.take(m as int) == marker@ {
                        assert(tail.take(m as int)[pw] == marker@[pw]);
                        assert(tail[pw] == template@[i + pw]);
                    }
                    assert(spec_replace_all(tail, marker@, value@)
                        == seq![tail[0]] + spec_replace_all(tail.skip(1), marker@, value@));
                } else {
                    assert(spec_replace_all(tail, marker@, value@) == tail);
                    assert(spec_replace_all(tail.skip(1), marker@, value@) == tail.skip(1));
                    assert(seq![tail[0]] + tail.skip(1) =~= tail);
                }
                assert(tail.skip(1) =~= template@.skip(i + 1));
            }
            out.push(template[i]);
            proof {
                assert(out@ + spec_replace_all(template@.skip(i + 1), marker@, value@)
                    =~= prev + (seq![tail[0]] + spec_replace_all(
                        tail.skip(1),
                        marker@,
                        value@,
                    )));
            }
            i += 1;
        }
    }
    proof {
        assert(template@.skip(n as int) =~= Seq::<u8>::empty());
        assert(out@ + Seq::<u8>::empty() =~= out@);
    }
    out
}

/// The placeholder the HTML templates hold where the image belongs.
pub open spec fn image_marker() -> Seq<u8> {
    encode_utf8("{IMAGE_STRING}"@)
}

/// The QR page for one stored invitation: the template with the
/// invitation's QR payload planted at every image marker. An unknown id is
/// not found; a URL the QR encoder turns down is an internal failure.
pub fn invitation_qr_page(store: &Store, invitation_id: u128, template: &Vec<u8>) -> (r: Result<
    Vec<u8>,
    CustomError,
>)
    requires
        store.wf(),
    ensures
        r is Ok <==> (has_invitation(store.invitations@, invitation_id) && qr_encodable(
            invitation_of(store.invitations@, invitation_id).short_url@,
        )),
        r is Err ==> (r->Err_0 is NotFound || r->Err_0 is InternalError),
        (r is Err && r->Err_0 is NotFound) <==> !has_invitation(store.invitations@, invitation_id),
        r is Ok ==> r->Ok_0@ == spec_replace_all(
            template@,
            image_marker(),
            encode_utf8(base64_of(qr_png_of(
                invitation_of(store.invitations@, invitation_id).short_url@,
            ))),
        ),
{
    let invitation = match store.find_invitation(invitation_id) {
        Some(v) => v,
        None => {
            return Err(CustomError::NotFound(
                String::from_str("no invitation under this id"),
            ));
        },
    };
    let image = match generate_qr_code_base64(&invitation.short_url) {
        Ok(image) => image,
        Err(_) => {
            return Err(CustomError::InternalError);
        },
    };
    let marker = "{IMAGE_STRING}".as_bytes_vec();
    let payload = image.as_str().as_bytes_vec();
    proof {
        assert(payload@ == encode_utf8(image@));
    }
    Ok(replace_marker(template, &marker, &payload))
}

} // verus!
