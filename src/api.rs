use vstd::prelude::*;
use crate::glyph::{Glyph, GlyphLookup, LoadPolicy, FontError, found_glyphs, lookups_wf, fails,
    load_result, resolve_glyphs, lemma_found_glyphs_wf, lemma_strict_load_keeps_all,
    without_missing, lemma_missing_glyph_ignored};
use crate::layout::{max_width, digit_max_height, atlas_placement, preview_placement, advance_sum,
    plan_atlas, plan_preview, glyph_max_width, max_u32};
use crate::canvas::{compose, canvas_rows, rows_view};
use crate::descriptor::{is_grouping, config_text, group_by_advance, format_config};
use crate::layout::Placement;
use crate::encode::{png_of, base64_of, encode_png, base64_encode};
use crate::text::{string_from_chars, push_str};

verus! {

/// Descriptive record of one loaded glyph.
pub struct CharacterInfo {
    pub character: String,
    pub width: u32,
    pub height: u32,
    pub spacing: u32,
    pub offset_y: i32,
}

/// Which characters to load, and from where.
pub struct LoadImagesRequest {
    pub directory: String,
    pub characters: String,
}

/// The loaded glyphs' records with the largest width and height among them.
pub struct LoadImagesResponse {
    pub characters: Vec<CharacterInfo>,
    pub max_width: u32,
    pub max_height: u32,
}

/// What to assemble into an atlas; `spacing_config` maps a character to its advance.
/// Where a character has several entries, the first one counts, so the list acts
/// as a map with one advance per character.
pub struct GenerateSpriteFontRequest {
    pub directory: String,
    pub characters: String,
    pub spacing_config: Vec<(char, u32)>,
    pub bottom_padding: u32,
    pub output_path: String,
}

pub struct GenerateSpriteFontResponse {
    pub success: bool,
    pub output_path: String,
    pub sprite_width: u32,
    pub sprite_height: u32,
    pub config_data: String,
}

/// What to preview; `spacing_config` maps a character to its advance.
/// Where a character has several entries, the first one counts, so the list acts
/// as a map with one advance per character.
pub struct PreviewRequest {
    pub directory: String,
    pub characters: String,
    pub spacing_config: Vec<(char, u32)>,
    pub bottom_padding: u32,
}

pub struct PreviewResponse {
    pub success: bool,
    pub preview_base64: String,
    pub width: u32,
    pub height: u32,
}

/// Tallest glyph among the first `n`.
pub open spec fn max_height_upto(gs: Seq<Glyph>, n: int) -> nat
    decreases n,
{
    if n <= 0 {
        0
    } else {
        let m = max_height_upto(gs, n - 1);
        if gs[n - 1].height > m { gs[n - 1].height as nat } else { m }
    }
}

pub open spec fn max_height(gs: Seq<Glyph>) -> nat {
    max_height_upto(gs, gs.len() as int)
}

/// The record of a glyph: its own width as the advance, no vertical offset.
pub open spec fn is_info_of(info: CharacterInfo, g: Glyph) -> bool {
    &&& info.character@ == seq![g.character]
    &&& info.width == g.width
    &&& info.height == g.height
    &&& info.spacing == g.width
    &&& info.offset_y == 0
}

/// Describes the glyphs of the requested characters; any missing or undecodable
/// glyph fails the load.
pub fn load_character_images(lookups: Vec<GlyphLookup>) -> (r: Result<LoadImagesResponse, FontError>)
    ensures
        r is Ok <==> forall|k: int| 0 <= k < lookups@.len() ==> !fails(#[trigger] lookups@[k], LoadPolicy::Strict),
        r matches Err(e) ==> load_result(lookups@, LoadPolicy::Strict, Err(e)),
        r matches Ok(resp) ==> {
            let gs = found_glyphs(lookups@);
            &&& resp.characters@.len() == gs.len()
            &&& forall|i: int| 0 <= i < gs.len() ==> is_info_of(#[trigger] resp.characters@[i], gs[i])
            &&& resp.max_width == max_width(gs)
            &&& resp.max_height == max_height(gs)
        },
{
    let gs = match resolve_glyphs(lookups, LoadPolicy::Strict) {
        Ok(gs) => gs,
        Err(e) => {
            return Err(e);
        },
    };
    let mut characters: Vec<CharacterInfo> = Vec::new();
    let mut mh: u32 = 0;
    let mut i: usize = 0;
    while i < gs.len()
        invariant
            i <= gs@.len(),
            characters@.len() == i,
            forall|j: int| 0 <= j < i ==> is_info_of(#[trigger] characters@[j], gs@[j]),
            mh == max_height_upto(gs@, i as int),
        decreases gs@.len() - i,
    {
        let g = &gs[i];
        let one = vec![g.character];
        assert(one@ =~= seq![g.character]);
        let character = string_from_chars(&one);
        characters.push(CharacterInfo {
            character,
            width: g.width,
            height: g.height,
            spacing: g.width,
            offset_y: 0,
        });
        mh = max_u32(mh, g.height);
        i += 1;
    }
    let max_width = glyph_max_width(&gs);
    Ok(LoadImagesResponse { characters, max_width, max_height: mh })
}

/// An assembled atlas: the response, the canvas rows, and the advance groups of
/// the descriptor.
pub struct SpriteSheet {
    pub response: GenerateSpriteFontResponse,
    pub pixels: Vec<Vec<u32>>,
    pub groups: Vec<(u32, Vec<char>)>,
}

pub open spec fn atlas_placements(gs: Seq<Glyph>, padding: nat) -> Seq<Placement> {
    Seq::new(gs.len(), |i: int| atlas_placement(gs, padding, i))
}

pub open spec fn atlas_width(gs: Seq<Glyph>) -> nat {
    max_width(gs) * gs.len()
}

/// No lookup fails under the policy.
pub open spec fn all_resolved(ls: Seq<GlyphLookup>, policy: LoadPolicy) -> bool {
    forall|k: int| 0 <= k < ls.len() ==> !fails(#[trigger] ls[k], policy)
}

/// Assembles the atlas from the lookups of the requested characters: every glyph
/// in a cell as wide as the widest glyph, the canvas as tall as the tallest digit
/// plus the padding, and the descriptor text.
pub fn generate_sprite_font(request: &GenerateSpriteFontRequest, lookups: Vec<GlyphLookup>) -> (r: Result<SpriteSheet, FontError>)
    requires
        lookups_wf(lookups@),
    ensures
        r is Ok <==> all_resolved(lookups@, LoadPolicy::Strict)
            && atlas_width(found_glyphs(lookups@)) <= u32::MAX
            && digit_max_height(found_glyphs(lookups@)) + request.bottom_padding <= u32::MAX,
        r matches Err(e) ==> load_result(lookups@, LoadPolicy::Strict, Err(e))
            || (e is TooLarge && all_resolved(lookups@, LoadPolicy::Strict)),
        r matches Ok(s) ==> {
            let gs = found_glyphs(lookups@);
            let w = atlas_width(gs);
            let h = (digit_max_height(gs) + request.bottom_padding) as nat;
            &&& s.response.success
            &&& s.response.output_path@ == request.output_path@
            &&& s.response.sprite_width == w
            &&& s.response.sprite_height == h
            &&& rows_view(s.pixels@) == canvas_rows(atlas_placements(gs, request.bottom_padding as nat), gs, w, h)
            &&& is_grouping(s.groups@, request.spacing_config@, gs)
            &&& s.response.config_data@ == config_text(w, h, s.groups@)
        },
{
    let ghost ls = lookups@;
    let gs = match resolve_glyphs(lookups, LoadPolicy::Strict) {
        Ok(gs) => gs,
        Err(e) => {
            return Err(e);
        },
    };
    proof {
        lemma_found_glyphs_wf(ls);
    }
    let plan = match plan_atlas(&gs, request.bottom_padding) {
        Ok(plan) => plan,
        Err(e) => {
            return Err(e);
        },
    };
    assert(plan.placements@ =~= atlas_placements(gs@, request.bottom_padding as nat));
    let pixels = compose(&plan, &gs);
    let groups = group_by_advance(&gs, &request.spacing_config);
    let text = format_config(plan.width, plan.height, &groups);
    let config_data = string_from_chars(&text);
    let response = GenerateSpriteFontResponse {
        success: true,
        output_path: request.output_path.clone(),
        sprite_width: plan.width,
        sprite_height: plan.height,
        config_data,
    };
    Ok(SpriteSheet { response, pixels, groups })
}

/// A composed preview canvas, `pixels[y][x]` the pixel at column `x` of row `y`.
pub struct PreviewCanvas {
    pub width: u32,
    pub height: u32,
    pub pixels: Vec<Vec<u32>>,
}

impl PreviewCanvas {
    /// The rows match the stated size.
    pub open spec fn wf(&self) -> bool {
        &&& self.pixels@.len() == self.height
        &&& forall|y: int| 0 <= y < self.pixels@.len() ==> (#[trigger] self.pixels@[y])@.len() == self.width
    }
}

pub open spec fn preview_placements(gs: Seq<Glyph>, ov: Seq<(char, u32)>, padding: nat) -> Seq<Placement> {
    Seq::new(gs.len(), |i: int| preview_placement(gs, ov, padding, i))
}

pub open spec fn preview_width(gs: Seq<Glyph>, ov: Seq<(char, u32)>) -> nat {
    advance_sum(ov, gs, gs.len() as int)
}

/// The lookups resolve leniently to at least one glyph, and the preview canvas
/// fits in 32-bit dimensions.
pub open spec fn preview_fits(ls: Seq<GlyphLookup>, request: PreviewRequest) -> bool {
    &&& all_resolved(ls, LoadPolicy::Lenient)
    &&& found_glyphs(ls).len() > 0
    &&& preview_width(found_glyphs(ls), request.spacing_config@) <= u32::MAX
    &&& digit_max_height(found_glyphs(ls)) + request.bottom_padding <= u32::MAX
}

/// Composes the packed preview from the lookups of the requested characters:
/// missing glyphs are skipped, each glyph advances by its override or its width.
pub fn preview_canvas(request: &PreviewRequest, lookups: Vec<GlyphLookup>) -> (r: Result<PreviewCanvas, FontError>)
    requires
        lookups_wf(lookups@),
    ensures
        r is Ok <==> preview_fits(lookups@, *request),
        r matches Err(e) ==> load_result(lookups@, LoadPolicy::Lenient, Err(e))
            || (e is NoGlyphsFound && all_resolved(lookups@, LoadPolicy::Lenient)
                && found_glyphs(lookups@).len() == 0)
            || (e is TooLarge && all_resolved(lookups@, LoadPolicy::Lenient)
                && found_glyphs(lookups@).len() > 0),
        r matches Ok(c) ==> {
            let gs = found_glyphs(lookups@);
            let ov = request.spacing_config@;
            let w = preview_width(gs, ov);
            let h = (digit_max_height(gs) + request.bottom_padding) as nat;
            &&& c.wf()
            &&& c.width == w
            &&& c.height == h
            &&& rows_view(c.pixels@) == canvas_rows(preview_placements(gs, ov, request.bottom_padding as nat), gs, w, h)
        },
{
    let ghost ls = lookups@;
    let gs = match resolve_glyphs(lookups, LoadPolicy::Lenient) {
        Ok(gs) => gs,
        Err(e) => {
            return Err(e);
        },
    };
    if gs.len() == 0 {
        return Err(FontError::NoGlyphsFound);
    }
    proof {
        lemma_found_glyphs_wf(ls);
    }
    let plan = match plan_preview(&gs, &request.spacing_config, request.bottom_padding) {
        Ok(plan) => plan,
        Err(e) => {
            return Err(e);
        },
    };
    assert(plan.placements@ =~= preview_placements(gs@, request.spacing_config@, request.bottom_padding as nat));
    let pixels = compose(&plan, &gs);
    Ok(PreviewCanvas { width: plan.width, height: plan.height, pixels })
}

/// The data URI of a base64 PNG payload.
pub open spec fn data_uri(encoded: Seq<char>) -> Seq<char> {
    "data:image/png;base64,"@ + encoded
}

/// The response for an encoded preview of the given size.
pub fn preview_response(encoded: &String, width: u32, height: u32) -> (r: PreviewResponse)
    ensures
        r.success,
        r.preview_base64@ == data_uri(encoded@),
        r.width == width,
        r.height == height,
{
    let mut text: Vec<char> = Vec::new();
    push_str(&mut text, "data:image/png;base64,");
    push_str(&mut text, encoded.as_str());
    let preview_base64 = string_from_chars(&text);
    PreviewResponse { success: true, preview_base64, width, height }
}

/// Encodes a preview canvas as a PNG data URI. The encoder refuses an empty
/// canvas, which is an `EncodeError`.
pub fn encode_preview(canvas: &PreviewCanvas) -> (r: Result<PreviewResponse, FontError>)
    requires
        canvas.wf(),
    ensures
        canvas.width > 0 && canvas.height > 0 ==> r is Ok,
        r is Err ==> canvas.width == 0 || canvas.height == 0,
        r matches Ok(resp) ==> resp.success && resp.width == canvas.width && resp.height == canvas.height
            && resp.preview_base64@ == data_uri(base64_of(png_of(canvas.width, canvas.height, rows_view(canvas.pixels@)))),
        r matches Err(e) ==> e is EncodeError,
{
    match encode_png(canvas.width, canvas.height, &canvas.pixels) {
        Ok(png) => {
            let encoded = base64_encode(&png);
            Ok(preview_response(&encoded, canvas.width, canvas.height))
        },
        Err(e) => Err(FontError::EncodeError(e.to_string())),
    }
}

/// Composes and encodes the preview: the errors of `preview_canvas`, an
/// `EncodeError` for an empty canvas, else the data URI of the canvas.
pub fn generate_preview(request: &PreviewRequest, lookups: Vec<GlyphLookup>) -> (r: Result<PreviewResponse, FontError>)
    requires
        lookups_wf(lookups@),
    ensures
        r matches Err(e) ==> load_result(lookups@, LoadPolicy::Lenient, Err(e))
            || (e is NoGlyphsFound && all_resolved(lookups@, LoadPolicy::Lenient)
                && found_glyphs(lookups@).len() == 0)
            || (e is TooLarge && all_resolved(lookups@, LoadPolicy::Lenient)
                && found_glyphs(lookups@).len() > 0)
            || (e is EncodeError && preview_fits(lookups@, *request)
                && (preview_width(found_glyphs(lookups@), request.spacing_config@) == 0
                    || digit_max_height(found_glyphs(lookups@)) + request.bottom_padding == 0)),
        !preview_fits(lookups@, *request) ==> r is Err,
        preview_fits(lookups@, *request)
            && preview_width(found_glyphs(lookups@), request.spacing_config@) > 0
            && digit_max_height(found_glyphs(lookups@)) + request.bottom_padding > 0 ==> r is Ok,
        r matches Ok(resp) ==> {
            let gs = found_glyphs(lookups@);
            let ov = request.spacing_config@;
            let w = preview_width(gs, ov);
            let h = (digit_max_height(gs) + request.bottom_padding) as nat;
            &&& resp.success
            &&& resp.width == w
            &&& resp.height == h
            &&& resp.preview_base64@ == data_uri(base64_of(png_of(w as u32, h as u32,
                canvas_rows(preview_placements(gs, ov, request.bottom_padding as nat), gs, w, h))))
        },
{
    let canvas = preview_canvas(request, lookups)?;
    encode_preview(&canvas)
}

/// A successful atlas is as wide as the widest glyph times the number of
/// requested characters.
pub proof fn lemma_atlas_width(ls: Seq<GlyphLookup>)
    requires
        all_resolved(ls, LoadPolicy::Strict),
    ensures
        atlas_width(found_glyphs(ls)) == max_width(found_glyphs(ls)) * ls.len(),
{
    lemma_strict_load_keeps_all(ls);
}

/// A character whose glyph file is missing leaves the preview as it was: taking
/// out every one of its occurrences keeps the outcome, the size and every pixel.
pub proof fn lemma_preview_ignores_missing(ls: Seq<GlyphLookup>, c: char, request: PreviewRequest)
    ensures
        ({
            let rs = without_missing(ls, c, ls.len() as int);
            let gs = found_glyphs(ls);
            let ov = request.spacing_config@;
            let pad = request.bottom_padding as nat;
            &&& preview_fits(rs, request) == preview_fits(ls, request)
            &&& found_glyphs(rs) == gs
            &&& preview_width(found_glyphs(rs), ov) == preview_width(gs, ov)
            &&& digit_max_height(found_glyphs(rs)) == digit_max_height(gs)
            &&& preview_placements(found_glyphs(rs), ov, pad) == preview_placements(gs, ov, pad)
        }),
{
    lemma_missing_glyph_ignored(ls, c);
}

} // verus!
