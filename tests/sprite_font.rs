use sprite_font::{
    find_override, format_config, generate_preview, generate_sprite_font, group_by_advance,
    load_character_images, plan_atlas, plan_preview, preview_canvas, preview_response, FontError,
    GenerateSpriteFontRequest, Glyph, GlyphLookup, PreviewRequest,
};

fn solid(c: char, width: u32, height: u32, color: u32) -> Glyph {
    let rows = vec![vec![color; width as usize]; height as usize];
    Glyph::from_rows(c, width, rows).unwrap()
}

/// A glyph whose pixel at (x, y) is `base + y * 100 + x`.
fn patterned(c: char, width: u32, height: u32, base: u32) -> Glyph {
    let rows: Vec<Vec<u32>> = (0..height)
        .map(|y| (0..width).map(|x| base + y * 100 + x).collect())
        .collect();
    Glyph::from_rows(c, width, rows).unwrap()
}

fn found(gs: Vec<Glyph>) -> Vec<GlyphLookup> {
    gs.into_iter().map(GlyphLookup::Found).collect()
}

const ZERO: u32 = 0x1111_11FF;
const ONE: u32 = 0x2222_22FF;
const COMMA: u32 = 0x3333_33FF;
const PERIOD: u32 = 0x4444_44FF;

fn digits_and_punctuation() -> Vec<Glyph> {
    vec![
        solid('0', 10, 12, ZERO),
        solid('1', 8, 12, ONE),
        solid(',', 4, 6, COMMA),
        solid('.', 4, 4, PERIOD),
    ]
}

fn atlas_request(spacing: Vec<(char, u32)>, padding: u32) -> GenerateSpriteFontRequest {
    GenerateSpriteFontRequest {
        directory: "glyphs".to_string(),
        characters: "01,.".to_string(),
        spacing_config: spacing,
        bottom_padding: padding,
        output_path: "out/font.png".to_string(),
    }
}

fn preview_request(characters: &str, spacing: Vec<(char, u32)>, padding: u32) -> PreviewRequest {
    PreviewRequest {
        directory: "glyphs".to_string(),
        characters: characters.to_string(),
        spacing_config: spacing,
        bottom_padding: padding,
    }
}

#[test]
fn atlas_scenario_dimensions_and_baselines() {
    let gs = digits_and_punctuation();
    let plan = match plan_atlas(&gs, 2) {
        Ok(p) => p,
        Err(_) => panic!("plan refused"),
    };
    assert_eq!(plan.width, 40);
    assert_eq!(plan.height, 14);
    let xs: Vec<u32> = plan.placements.iter().map(|p| p.x).collect();
    assert_eq!(xs, vec![0, 10, 20, 30]);
    // Digits fill the band; comma bottom at 14, period bottom at 12.
    assert_eq!(plan.placements[0].y, 0);
    assert_eq!(plan.placements[1].y, 0);
    assert_eq!(plan.placements[2].y, 8);
    assert_eq!(plan.placements[2].y + 6, 14);
    assert_eq!(plan.placements[3].y, 8);
    assert_eq!(plan.placements[3].y + 4, 12);
    let widths: Vec<u32> = plan.placements.iter().map(|p| p.copy_width).collect();
    assert_eq!(widths, vec![10, 8, 4, 4]);
}

#[test]
fn atlas_scenario_sheet() {
    let sheet = match generate_sprite_font(&atlas_request(vec![], 2), found(digits_and_punctuation())) {
        Ok(s) => s,
        Err(_) => panic!("atlas failed"),
    };
    assert!(sheet.response.success);
    assert_eq!(sheet.response.output_path, "out/font.png");
    assert_eq!(sheet.response.sprite_width, 40);
    assert_eq!(sheet.response.sprite_height, 14);
    assert_eq!(
        sheet.response.config_data,
        "width: 40\nheight: 14\nspace info: [[4, \",.\"], [8, \"1\"], [10, \"0\"]]"
    );
    let px = &sheet.pixels;
    assert_eq!(px.len(), 14);
    assert!(px.iter().all(|r| r.len() == 40));
    assert_eq!(px[0][0], ZERO);
    assert_eq!(px[11][9], ZERO);
    assert_eq!(px[12][0], 0);
    assert_eq!(px[0][10], ONE);
    assert_eq!(px[0][18], 0);
    assert_eq!(px[7][20], 0);
    assert_eq!(px[8][20], COMMA);
    assert_eq!(px[13][23], COMMA);
    assert_eq!(px[7][30], 0);
    assert_eq!(px[8][30], PERIOD);
    assert_eq!(px[11][33], PERIOD);
    assert_eq!(px[12][30], 0);
    assert_eq!(px[8][34], 0);
}

#[test]
fn atlas_width_counts_every_character() {
    let gs = vec![solid('1', 3, 5, ONE), solid('1', 3, 5, ONE), solid('a', 7, 2, ZERO)];
    let plan = match plan_atlas(&gs, 0) {
        Ok(p) => p,
        Err(_) => panic!("plan refused"),
    };
    assert_eq!(plan.width, 21);
    assert_eq!(plan.height, 5);
}

#[test]
fn atlas_digit_centering() {
    let gs = vec![solid('0', 5, 12, ZERO), solid('7', 5, 8, ONE), solid('-', 5, 3, COMMA)];
    let plan = match plan_atlas(&gs, 2) {
        Ok(p) => p,
        Err(_) => panic!("plan refused"),
    };
    assert_eq!(plan.height, 14);
    // (12 - 8) / 2 = 2: bottom edge two rows above the band's bottom.
    assert_eq!(plan.placements[1].y, 2);
    // (12 - 3) / 2 = 4 by floor division.
    assert_eq!(plan.placements[2].y, 14 - 2 - 3 - 4);
}

#[test]
fn atlas_full_height_digit_sits_on_padding() {
    let gs = vec![solid('0', 5, 12, ZERO), solid('3', 5, 12, ONE)];
    let plan = match plan_atlas(&gs, 5) {
        Ok(p) => p,
        Err(_) => panic!("plan refused"),
    };
    assert_eq!(plan.height, 17);
    assert_eq!(plan.placements[1].y + 12, 17 - 5);
}

#[test]
fn atlas_tall_non_digit_is_clipped_not_wrapped() {
    let gs = vec![solid('0', 4, 12, ZERO), patterned('A', 4, 16, 1000)];
    let sheet = match generate_sprite_font(&atlas_request(vec![], 2), found(gs)) {
        Ok(s) => s,
        Err(_) => panic!("atlas failed"),
    };
    // Non-digits do not raise the band: height stays 12 + 2.
    assert_eq!(sheet.response.sprite_height, 14);
    // Offset clamps to zero, top edge 14 - 2 - 16 = -4: glyph row 4 lands on canvas row 0.
    assert_eq!(sheet.pixels[0][4], 1000 + 4 * 100);
    assert_eq!(sheet.pixels[11][5], 1000 + 15 * 100 + 1);
    assert_eq!(sheet.pixels[12][4], 0);
}

#[test]
fn atlas_missing_glyph_fails() {
    let lookups = vec![
        GlyphLookup::Found(solid('0', 2, 2, ZERO)),
        GlyphLookup::Missing('1'),
        GlyphLookup::Undecodable('2', "bad".to_string()),
    ];
    match generate_sprite_font(&atlas_request(vec![], 0), lookups) {
        Err(FontError::MissingGlyph(c)) => assert_eq!(c, '1'),
        _ => panic!("expected a missing glyph"),
    }
}

#[test]
fn atlas_undecodable_glyph_fails() {
    let lookups = vec![
        GlyphLookup::Undecodable('0', "not a png".to_string()),
        GlyphLookup::Missing('1'),
    ];
    match generate_sprite_font(&atlas_request(vec![], 0), lookups) {
        Err(FontError::DecodeError(c, msg)) => {
            assert_eq!(c, '0');
            assert_eq!(msg, "not a png");
        }
        _ => panic!("expected a decode error"),
    }
}

#[test]
fn atlas_too_large() {
    let gs = vec![
        Glyph::from_rows('a', 3_000_000_000, vec![]).unwrap(),
        Glyph::from_rows('b', 3_000_000_000, vec![]).unwrap(),
    ];
    assert!(matches!(plan_atlas(&gs, 0), Err(FontError::TooLarge)));
}

#[test]
fn descriptor_uses_overrides() {
    let sheet = match generate_sprite_font(
        &atlas_request(vec![('0', 12), ('.', 8)], 2),
        found(digits_and_punctuation()),
    ) {
        Ok(s) => s,
        Err(_) => panic!("atlas failed"),
    };
    assert_eq!(
        sheet.response.config_data,
        "width: 40\nheight: 14\nspace info: [[4, \",\"], [8, \"1.\"], [12, \"0\"]]"
    );
    // Overrides do not change the atlas cells.
    assert_eq!(sheet.response.sprite_width, 40);
}

#[test]
fn descriptor_groups_repeated_characters() {
    let gs = vec![solid('1', 3, 1, ONE), solid('2', 5, 1, ONE), solid('1', 3, 1, ONE)];
    let groups = group_by_advance(&gs, &vec![]);
    assert_eq!(groups, vec![(3, vec!['1', '1']), (5, vec!['2'])]);
    let text: String = format_config(15, 1, &groups).into_iter().collect();
    assert_eq!(text, "width: 15\nheight: 1\nspace info: [[3, \"11\"], [5, \"2\"]]");
}

#[test]
fn format_config_empty_and_large_numbers() {
    let text: String = format_config(0, 4294967295, &vec![]).into_iter().collect();
    assert_eq!(text, "width: 0\nheight: 4294967295\nspace info: []");
}

#[test]
fn override_lookup_first_entry_wins() {
    let ov = vec![('a', 3), ('b', 9), ('a', 7)];
    assert_eq!(find_override(&ov, 'a'), Some(3));
    assert_eq!(find_override(&ov, 'b'), Some(9));
    assert_eq!(find_override(&ov, 'c'), None);
}

#[test]
fn load_reports_infos_and_maxima() {
    let lookups = found(vec![solid('0', 10, 12, ZERO), solid('W', 14, 9, ONE), solid(',', 4, 16, COMMA)]);
    let resp = match load_character_images(lookups) {
        Ok(r) => r,
        Err(_) => panic!("load failed"),
    };
    assert_eq!(resp.max_width, 14);
    assert_eq!(resp.max_height, 16);
    assert_eq!(resp.characters.len(), 3);
    assert_eq!(resp.characters[1].character, "W");
    assert_eq!(resp.characters[1].width, 14);
    assert_eq!(resp.characters[1].height, 9);
    assert_eq!(resp.characters[1].spacing, 14);
    assert_eq!(resp.characters[1].offset_y, 0);
}

#[test]
fn load_missing_glyph_fails() {
    let lookups = vec![GlyphLookup::Found(solid('0', 1, 1, ZERO)), GlyphLookup::Missing('x')];
    assert!(matches!(load_character_images(lookups), Err(FontError::MissingGlyph('x'))));
}

#[test]
fn preview_width_is_sum_of_advances() {
    let gs = vec![solid('0', 10, 12, ZERO), solid('1', 8, 12, ONE), solid(',', 4, 6, COMMA)];
    let plan = match plan_preview(&gs, &vec![('1', 11)], 2) {
        Ok(p) => p,
        Err(_) => panic!("plan refused"),
    };
    assert_eq!(plan.width, 10 + 11 + 4);
    let xs: Vec<u32> = plan.placements.iter().map(|p| p.x).collect();
    assert_eq!(xs, vec![0, 10, 21]);
    assert_eq!(plan.placements[1].copy_width, 8);
    assert_eq!(plan.placements[2].y, 8);
}

#[test]
fn preview_narrow_override_truncates() {
    let gs = vec![patterned('A', 6, 3, 1000), patterned('B', 4, 3, 5000)];
    let canvas = match preview_canvas(&preview_request("AB", vec![('A', 3)], 0), found(gs)) {
        Ok(c) => c,
        Err(_) => panic!("preview failed"),
    };
    assert_eq!(canvas.width, 7);
    assert_eq!(canvas.height, 0);
    let plan = match plan_preview(&vec![patterned('A', 6, 3, 1000), patterned('B', 4, 3, 5000)], &vec![('A', 3)], 0) {
        Ok(p) => p,
        Err(_) => panic!("plan refused"),
    };
    assert_eq!(plan.placements[0].copy_width, 3);
    assert_eq!(plan.placements[1].x, 3);
}

#[test]
fn preview_narrow_override_pixels() {
    let gs = vec![patterned('0', 6, 3, 1000), patterned('1', 4, 3, 5000)];
    let canvas = match preview_canvas(&preview_request("01", vec![('0', 3)], 1), found(gs)) {
        Ok(c) => c,
        Err(_) => panic!("preview failed"),
    };
    assert_eq!(canvas.width, 7);
    assert_eq!(canvas.height, 4);
    assert_eq!(canvas.pixels[0][2], 1002);
    assert_eq!(canvas.pixels[0][3], 5000);
    assert_eq!(canvas.pixels[2][6], 5203);
    assert_eq!(canvas.pixels[3][0], 0);
}

#[test]
fn preview_wide_override_leaves_gap() {
    let gs = vec![solid('0', 2, 2, ZERO), solid('1', 2, 2, ONE)];
    let canvas = match preview_canvas(&preview_request("01", vec![('0', 5)], 0), found(gs)) {
        Ok(c) => c,
        Err(_) => panic!("preview failed"),
    };
    assert_eq!(canvas.width, 7);
    assert_eq!(canvas.pixels[0][1], ZERO);
    assert_eq!(canvas.pixels[0][2], 0);
    assert_eq!(canvas.pixels[0][4], 0);
    assert_eq!(canvas.pixels[0][5], ONE);
}

#[test]
fn preview_skips_missing_characters() {
    let with_missing = vec![
        GlyphLookup::Found(solid('0', 3, 4, ZERO)),
        GlyphLookup::Missing('9'),
        GlyphLookup::Found(solid('1', 2, 4, ONE)),
    ];
    let without = found(vec![solid('0', 3, 4, ZERO), solid('1', 2, 4, ONE)]);
    let a = match preview_canvas(&preview_request("091", vec![('9', 50)], 0), with_missing) {
        Ok(c) => c,
        Err(_) => panic!("preview failed"),
    };
    let b = match preview_canvas(&preview_request("01", vec![('9', 50)], 0), without) {
        Ok(c) => c,
        Err(_) => panic!("preview failed"),
    };
    assert_eq!(a.width, 5);
    assert_eq!(a.width, b.width);
    assert_eq!(a.height, b.height);
    assert_eq!(a.pixels, b.pixels);
}

#[test]
fn preview_no_glyphs_found_when_empty() {
    let r = generate_preview(&preview_request("", vec![], 2), vec![]);
    assert!(matches!(r, Err(FontError::NoGlyphsFound)));
}

#[test]
fn preview_no_glyphs_found_when_all_missing() {
    let lookups = vec![GlyphLookup::Missing('a'), GlyphLookup::Missing('b')];
    let r = generate_preview(&preview_request("ab", vec![], 2), lookups);
    assert!(matches!(r, Err(FontError::NoGlyphsFound)));
}

#[test]
fn preview_undecodable_fails() {
    let lookups = vec![GlyphLookup::Missing('a'), GlyphLookup::Undecodable('b', "x".to_string())];
    let r = generate_preview(&preview_request("ab", vec![], 2), lookups);
    assert!(matches!(r, Err(FontError::DecodeError('b', _))));
}

#[test]
fn preview_encodes_png_data_uri() {
    let r = generate_preview(&preview_request("01", vec![], 2), found(vec![solid('0', 3, 4, ZERO), solid('1', 2, 4, ONE)]));
    let resp = match r {
        Ok(resp) => resp,
        Err(_) => panic!("preview failed"),
    };
    assert!(resp.success);
    assert_eq!(resp.width, 5);
    assert_eq!(resp.height, 6);
    // The PNG signature in base64.
    assert!(resp.preview_base64.starts_with("data:image/png;base64,iVBORw0KGgo"));
    assert!(resp.preview_base64.len() > "data:image/png;base64,".len() + 12);
}

#[test]
fn preview_response_prefixes_payload() {
    let resp = preview_response(&"QUJD".to_string(), 3, 4);
    assert_eq!(resp.preview_base64, "data:image/png;base64,QUJD");
    assert_eq!(resp.width, 3);
    assert_eq!(resp.height, 4);
}

#[test]
fn ragged_rows_are_refused() {
    assert!(Glyph::from_rows('a', 2, vec![vec![1, 2], vec![3]]).is_none());
    assert!(Glyph::from_rows('a', 2, vec![vec![1, 2], vec![3, 4]]).is_some());
}

#[test]
fn preview_empty_canvas_is_encode_error() {
    let r = generate_preview(
        &preview_request("0", vec![('0', 0)], 2),
        found(vec![solid('0', 3, 4, ZERO)]),
    );
    assert!(matches!(r, Err(FontError::EncodeError(_))));
}

#[test]
fn preview_skips_every_occurrence_of_missing_character() {
    let with_missing = vec![
        GlyphLookup::Missing('9'),
        GlyphLookup::Found(solid('0', 3, 4, ZERO)),
        GlyphLookup::Missing('9'),
        GlyphLookup::Found(solid('1', 2, 4, ONE)),
        GlyphLookup::Missing('9'),
    ];
    let without = found(vec![solid('0', 3, 4, ZERO), solid('1', 2, 4, ONE)]);
    let a = generate_preview(&preview_request("90919", vec![], 1), with_missing);
    let b = generate_preview(&preview_request("01", vec![], 1), without);
    match (a, b) {
        (Ok(a), Ok(b)) => {
            assert_eq!(a.width, 5);
            assert_eq!(a.width, b.width);
            assert_eq!(a.height, b.height);
            assert_eq!(a.preview_base64, b.preview_base64);
        }
        _ => panic!("preview failed"),
    }
}

#[test]
fn chars_of_keeps_order_and_non_ascii() {
    assert_eq!(sprite_font::text::chars_of("a,é."), vec!['a', ',', 'é', '.']);
    assert_eq!(sprite_font::text::chars_of(""), Vec::<char>::new());
}
