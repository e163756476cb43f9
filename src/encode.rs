use vstd::prelude::*;

verus! {

#[verifier::external_type_specification]
#[verifier::external_body]
pub struct ExImageError(image::ImageError);

/// The PNG file that image's encoder writes for a `width` by `height` RGBA canvas.
pub uninterp spec fn png_of(width: u32, height: u32, rows: Seq<Seq<u32>>) -> Seq<u8>;

/// The standard base64 text, with padding, of some bytes.
pub uninterp spec fn base64_of(bytes: Seq<u8>) -> Seq<char>;

/// Relies on image's `PngEncoder::write_image` with `Rgba8` pixels: the PNG file
/// depends on the size and pixels alone, and writing into a `Vec` fails only on a
/// zero width or height. The rows must match the size, else the encoder panics on
/// the buffer length.
#[verifier::external_body]
pub(crate) fn encode_png(width: u32, height: u32, rows: &Vec<Vec<u32>>) -> (r: Result<Vec<u8>, image::ImageError>)
    requires
        rows@.len() == height,
        forall|y: int| 0 <= y < rows@.len() ==> (#[trigger] rows@[y])@.len() == width,
    ensures
        width > 0 && height > 0 ==> r is Ok,
        r matches Ok(b) ==> b@ == png_of(width, height, rows@.map_values(|row: Vec<u32>| row@)),
{
    let bytes: Vec<u8> = rows.iter().flat_map(|row| row.iter().flat_map(|p| p.to_be_bytes())).collect();
    let mut out: Vec<u8> = Vec::new();
    let encoder = image::codecs::png::PngEncoder::new(&mut out);
    image::ImageEncoder::write_image(encoder, &bytes, width, height, image::ExtendedColorType::Rgba8)?;
    Ok(out)
}

/// Relies on base64's `STANDARD` engine `encode`: the text depends on the bytes alone.
#[verifier::external_body]
pub(crate) fn base64_encode(bytes: &Vec<u8>) -> (r: String)
    ensures
        r@ == base64_of(bytes@),
{
    base64::Engine::encode(&base64::engine::general_purpose::STANDARD, bytes)
}

} // verus!
