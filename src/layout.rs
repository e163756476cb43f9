use vstd::prelude::*;
use crate::glyph::{Glyph, FontError};

verus! {

/// Where one glyph lands on the canvas, and how many of its columns are copied.
pub struct Placement {
    pub x: u32,
    pub y: i64,
    pub copy_width: u32,
}

/// Canvas size and one placement per glyph, in glyph order.
pub struct LayoutPlan {
    pub width: u32,
    pub height: u32,
    pub placements: Vec<Placement>,
}

pub open spec fn is_digit(c: char) -> bool {
    '0' <= c && c <= '9'
}

/// Widest glyph among the first `n`.
pub open spec fn max_width_upto(gs: Seq<Glyph>, n: int) -> nat
    decreases n,
{
    if n <= 0 {
        0
    } else {
        let m = max_width_upto(gs, n - 1);
        if gs[n - 1].width > m { gs[n - 1].width as nat } else { m }
    }
}

pub open spec fn max_width(gs: Seq<Glyph>) -> nat {
    max_width_upto(gs, gs.len() as int)
}

/// Tallest digit glyph among the first `n`; other glyphs do not count.
pub open spec fn digit_max_height_upto(gs: Seq<Glyph>, n: int) -> nat
    decreases n,
{
    if n <= 0 {
        0
    } else {
        let m = digit_max_height_upto(gs, n - 1);
        if is_digit(gs[n - 1].character) && gs[n - 1].height > m {
            gs[n - 1].height as nat
        } else {
            m
        }
    }
}

pub open spec fn digit_max_height(gs: Seq<Glyph>) -> nat {
    digit_max_height_upto(gs, gs.len() as int)
}

/// Lift that centres a glyph of height `h` in the digit band, zero for a taller glyph.
pub open spec fn center_offset(digit_height: int, h: int) -> int {
    if h > digit_height { 0 } else { (digit_height - h) / 2 }
}

/// Top edge of a glyph: the comma sits on the canvas bottom, the period on the
/// padding band, everything else is centred in the digit band above the padding.
pub open spec fn origin_y(c: char, h: int, digit_height: int, padding: int) -> int {
    let canvas_height = digit_height + padding;
    if c == ',' {
        canvas_height - h
    } else if c == '.' {
        canvas_height - padding - h
    } else {
        canvas_height - padding - h - center_offset(digit_height, h)
    }
}

/// A plan whose placements match the glyphs one to one and stay within each glyph.
pub open spec fn plan_fits(plan: LayoutPlan, gs: Seq<Glyph>) -> bool {
    &&& plan.placements@.len() == gs.len()
    &&& forall|i: int| 0 <= i < gs.len() ==> (#[trigger] plan.placements@[i]).copy_width <= gs[i].width
}

/// Placement of glyph `i` in the fixed-cell atlas: cell `i` starts at `i * max_width`.
pub open spec fn atlas_placement(gs: Seq<Glyph>, padding: nat, i: int) -> Placement {
    Placement {
        x: (i * max_width(gs)) as u32,
        y: origin_y(gs[i].character, gs[i].height as int, digit_max_height(gs) as int, padding as int) as i64,
        copy_width: gs[i].width,
    }
}

/// The fixed-cell atlas layout.
pub open spec fn is_atlas_plan(plan: LayoutPlan, gs: Seq<Glyph>, padding: nat) -> bool {
    &&& plan_fits(plan, gs)
    &&& plan.width == max_width(gs) * gs.len()
    &&& plan.height == digit_max_height(gs) + padding
    &&& forall|i: int| 0 <= i < gs.len() ==> {
        let p = #[trigger] plan.placements@[i];
        &&& p == atlas_placement(gs, padding, i)
        &&& p.x == i * max_width(gs)
        &&& p.y == origin_y(gs[i].character, gs[i].height as int, digit_max_height(gs) as int, padding as int)
    }
}

pub fn max_u32(a: u32, b: u32) -> (r: u32)
    ensures
        r == if b > a { b } else { a },
{
    if b > a { b } else { a }
}

/// The widest glyph.
pub fn glyph_max_width(gs: &Vec<Glyph>) -> (r: u32)
    ensures
        r == max_width(gs@),
{
    let mut m: u32 = 0;
    let mut i: usize = 0;
    while i < gs.len()
        invariant
            i <= gs@.len(),
            m == max_width_upto(gs@, i as int),
        decreases gs@.len() - i,
    {
        m = max_u32(m, gs[i].width);
        i += 1;
    }
    m
}

/// The tallest digit glyph.
pub fn glyph_digit_max_height(gs: &Vec<Glyph>) -> (r: u32)
    ensures
        r == digit_max_height(gs@),
{
    let mut m: u32 = 0;
    let mut i: usize = 0;
    while i < gs.len()
        invariant
            i <= gs@.len(),
            m == digit_max_height_upto(gs@, i as int),
        decreases gs@.len() - i,
    {
        let c = gs[i].character;
        if '0' <= c && c <= '9' {
            m = max_u32(m, gs[i].height);
        }
        i += 1;
    }
    m
}

/// Top edge of a glyph, as `origin_y` states it.
pub fn glyph_origin_y(c: char, h: u32, digit_height: u32, padding: u32) -> (r: i64)
    ensures
        r == origin_y(c, h as int, digit_height as int, padding as int),
{
    let canvas_height = digit_height as i64 + padding as i64;
    if c == ',' {
        canvas_height - h as i64
    } else if c == '.' {
        canvas_height - padding as i64 - h as i64
    } else {
        let offset: i64 = if h > digit_height { 0 } else { ((digit_height - h) / 2) as i64 };
        canvas_height - padding as i64 - h as i64 - offset
    }
}

/// The atlas layout, or `TooLarge` when the canvas does not fit in 32-bit dimensions.
pub fn plan_atlas(gs: &Vec<Glyph>, padding: u32) -> (r: Result<LayoutPlan, FontError>)
    ensures
        r is Ok <==> max_width(gs@) * gs@.len() <= u32::MAX
            && digit_max_height(gs@) + padding <= u32::MAX,
        r matches Ok(plan) ==> is_atlas_plan(plan, gs@, padding as nat),
        r matches Err(e) ==> e is TooLarge,
{
    let mw = glyph_max_width(gs);
    let dh = glyph_digit_max_height(gs);
    let n = gs.len();
    assert((mw as int) * (n as int) < 0x1_0000_0000_0000_0000_0000_0000) by (nonlinear_arith)
        requires mw < 0x1_0000_0000, n < 0x1_0000_0000_0000_0000;
    let total: u128 = mw as u128 * n as u128;
    if total > u32::MAX as u128 || dh as u64 + padding as u64 > u32::MAX as u64 {
        return Err(FontError::TooLarge);
    }
    let height: u32 = dh + padding;
    let mut placements: Vec<Placement> = Vec::new();
    let mut x: u32 = 0;
    let mut i: usize = 0;
    while i < n
        invariant
            n == gs@.len(),
            i <= n,
            mw == max_width(gs@),
            dh == digit_max_height(gs@),
            total == mw * n,
            total <= u32::MAX,
            x == i * mw,
            placements@.len() == i,
            forall|j: int| 0 <= j < i ==> {
                let p = #[trigger] placements@[j];
                &&& p.x == j * mw
                &&& p.y == origin_y(gs@[j].character, gs@[j].height as int, dh as int, padding as int)
                &&& p.copy_width == gs@[j].width
            },
        decreases n - i,
    {
        let g = &gs[i];
        let y = glyph_origin_y(g.character, g.height, dh, padding);
        placements.push(Placement { x, y, copy_width: g.width });
        assert((i as int + 1) * (mw as int) <= (n as int) * (mw as int)) by (nonlinear_arith)
            requires i < n, mw >= 0;
        assert((i as int + 1) * (mw as int) == i as int * mw as int + mw as int) by (nonlinear_arith);
        x = x + mw;
        i += 1;
    }
    proof {
        assert forall|j: int| 0 <= j < gs@.len() implies (#[trigger] placements@[j]).copy_width <= gs@[j].width by {
        }
    }
    Ok(LayoutPlan { width: total as u32, height, placements })
}

/// The advance override for `c` among entries `i..`: the first entry keyed by `c` wins.
pub open spec fn override_from(ov: Seq<(char, u32)>, c: char, i: int) -> Option<u32>
    decreases ov.len() - i,
{
    if i < 0 || i >= ov.len() {
        None
    } else if ov[i].0 == c {
        Some(ov[i].1)
    } else {
        override_from(ov, c, i + 1)
    }
}

pub open spec fn override_of(ov: Seq<(char, u32)>, c: char) -> Option<u32> {
    override_from(ov, c, 0)
}

/// The advance of a glyph: its override when one is given, else its own width.
pub open spec fn advance(ov: Seq<(char, u32)>, g: Glyph) -> nat {
    match override_of(ov, g.character) {
        Some(w) => w as nat,
        None => g.width as nat,
    }
}

/// Sum of the advances of the first `n` glyphs.
pub open spec fn advance_sum(ov: Seq<(char, u32)>, gs: Seq<Glyph>, n: int) -> nat
    decreases n,
{
    if n <= 0 { 0 } else { advance_sum(ov, gs, n - 1) + advance(ov, gs[n - 1]) }
}

pub open spec fn min_nat(a: nat, b: nat) -> nat {
    if a < b { a } else { b }
}

/// Placement of glyph `i` in the packed preview: it starts where the previous
/// advance ended, and at most its advance of columns is copied.
pub open spec fn preview_placement(gs: Seq<Glyph>, ov: Seq<(char, u32)>, padding: nat, i: int) -> Placement {
    Placement {
        x: advance_sum(ov, gs, i) as u32,
        y: origin_y(gs[i].character, gs[i].height as int, digit_max_height(gs) as int, padding as int) as i64,
        copy_width: min_nat(advance(ov, gs[i]), gs[i].width as nat) as u32,
    }
}

/// The packed preview layout.
pub open spec fn is_preview_plan(plan: LayoutPlan, gs: Seq<Glyph>, ov: Seq<(char, u32)>, padding: nat) -> bool {
    &&& plan_fits(plan, gs)
    &&& plan.width == advance_sum(ov, gs, gs.len() as int)
    &&& plan.height == digit_max_height(gs) + padding
    &&& forall|i: int| 0 <= i < gs.len() ==> {
        let p = #[trigger] plan.placements@[i];
        &&& p == preview_placement(gs, ov, padding, i)
        &&& p.x == advance_sum(ov, gs, i)
        &&& p.y == origin_y(gs[i].character, gs[i].height as int, digit_max_height(gs) as int, padding as int)
        &&& p.copy_width == min_nat(advance(ov, gs[i]), gs[i].width as nat)
    }
}

/// Looks up the advance override for `c`.
pub fn find_override(ov: &Vec<(char, u32)>, c: char) -> (r: Option<u32>)
    ensures
        r == override_of(ov@, c),
{
    let mut i: usize = 0;
    while i < ov.len()
        invariant
            i <= ov@.len(),
            override_of(ov@, c) == override_from(ov@, c, i as int),
        decreases ov@.len() - i,
    {
        if ov[i].0 == c {
            return Some(ov[i].1);
        }
        i += 1;
    }
    None
}

/// The advance of one glyph under the overrides.
pub fn glyph_advance(ov: &Vec<(char, u32)>, g: &Glyph) -> (r: u32)
    ensures
        r == advance(ov@, *g),
{
    match find_override(ov, g.character) {
        Some(w) => w,
        None => g.width,
    }
}

proof fn lemma_advance_sum_monotonic(ov: Seq<(char, u32)>, gs: Seq<Glyph>, i: int, n: int)
    requires
        0 <= i <= n,
    ensures
        advance_sum(ov, gs, i) <= advance_sum(ov, gs, n),
    decreases n - i,
{
    if i < n {
        lemma_advance_sum_monotonic(ov, gs, i, n - 1);
    }
}

/// The preview layout, or `TooLarge` when the canvas does not fit in 32-bit dimensions.
pub fn plan_preview(gs: &Vec<Glyph>, ov: &Vec<(char, u32)>, padding: u32) -> (r: Result<LayoutPlan, FontError>)
    ensures
        r is Ok <==> advance_sum(ov@, gs@, gs@.len() as int) <= u32::MAX
            && digit_max_height(gs@) + padding <= u32::MAX,
        r matches Ok(plan) ==> is_preview_plan(plan, gs@, ov@, padding as nat),
        r matches Err(e) ==> e is TooLarge,
{
    let dh = glyph_digit_max_height(gs);
    let n = gs.len();
    if dh as u64 + padding as u64 > u32::MAX as u64 {
        return Err(FontError::TooLarge);
    }
    let height: u32 = dh + padding;
    let mut placements: Vec<Placement> = Vec::new();
    let mut x: u64 = 0;
    let mut i: usize = 0;
    while i < n
        invariant
            n == gs@.len(),
            i <= n,
            dh == digit_max_height(gs@),
            x == advance_sum(ov@, gs@, i as int),
            placements@.len() == i,
            forall|j: int| 0 <= j < i ==> {
                let p = #[trigger] placements@[j];
                &&& p.x == advance_sum(ov@, gs@, j)
                &&& p.y == origin_y(gs@[j].character, gs@[j].height as int, dh as int, padding as int)
                &&& p.copy_width == min_nat(advance(ov@, gs@[j]), gs@[j].width as nat)
            },
        decreases n - i,
    {
        if x > u32::MAX as u64 {
            proof { lemma_advance_sum_monotonic(ov@, gs@, i as int, n as int); }
            return Err(FontError::TooLarge);
        }
        let g = &gs[i];
        let adv = glyph_advance(ov, g);
        let y = glyph_origin_y(g.character, g.height, dh, padding);
        let copy_width = if adv < g.width { adv } else { g.width };
        placements.push(Placement { x: x as u32, y, copy_width });
        x = x + adv as u64;
        i += 1;
    }
    if x > u32::MAX as u64 {
        return Err(FontError::TooLarge);
    }
    Ok(LayoutPlan { width: x as u32, height, placements })
}

/// The comma's bottom edge is the canvas bottom; the period's is the top of the
/// padding band.
pub proof fn lemma_punctuation_baseline(c: char, h: int, digit_height: int, padding: int)
    ensures
        c == ',' ==> origin_y(c, h, digit_height, padding) + h == digit_height + padding,
        c == '.' ==> origin_y(c, h, digit_height, padding) + h == digit_height,
{
}

/// A glyph as tall as the tallest digit is not lifted, and its bottom edge is the
/// top of the padding band.
pub proof fn lemma_full_height_digit(c: char, digit_height: int, padding: int)
    requires
        is_digit(c),
    ensures
        center_offset(digit_height, digit_height) == 0,
        origin_y(c, digit_height, digit_height, padding) + digit_height == digit_height + padding - padding,
{
}

/// In both layouts a glyph's top edge follows the comma, period and centring rules:
/// a comma ends at the canvas bottom, a period at the top of the padding band.
pub proof fn lemma_placement_rows(gs: Seq<Glyph>, ov: Seq<(char, u32)>, padding: nat, i: int)
    requires
        0 <= i < gs.len(),
        digit_max_height(gs) + padding <= u32::MAX,
    ensures
        atlas_placement(gs, padding, i).y == origin_y(gs[i].character, gs[i].height as int,
            digit_max_height(gs) as int, padding as int),
        preview_placement(gs, ov, padding, i).y == origin_y(gs[i].character, gs[i].height as int,
            digit_max_height(gs) as int, padding as int),
        gs[i].character == ',' ==> atlas_placement(gs, padding, i).y + gs[i].height == digit_max_height(gs) + padding,
        gs[i].character == '.' ==> atlas_placement(gs, padding, i).y + gs[i].height == digit_max_height(gs),
        gs[i].character == ',' ==> preview_placement(gs, ov, padding, i).y + gs[i].height
            == digit_max_height(gs) + padding,
        gs[i].character == '.' ==> preview_placement(gs, ov, padding, i).y + gs[i].height == digit_max_height(gs),
{
}

/// In the preview a glyph never draws past its advance, and the next glyph starts
/// exactly one advance later: no gap and no overlap. A glyph wider than its
/// advance is cut to the advance.
pub proof fn lemma_preview_advances(gs: Seq<Glyph>, ov: Seq<(char, u32)>, padding: nat, i: int)
    requires
        0 <= i < gs.len(),
        advance_sum(ov, gs, gs.len() as int) <= u32::MAX,
    ensures
        preview_placement(gs, ov, padding, i).copy_width <= advance(ov, gs[i]),
        advance(ov, gs[i]) < gs[i].width ==> preview_placement(gs, ov, padding, i).copy_width == advance(ov, gs[i]),
        i + 1 < gs.len() ==> preview_placement(gs, ov, padding, i + 1).x
            == preview_placement(gs, ov, padding, i).x + advance(ov, gs[i]),
        i + 1 == gs.len() ==> preview_placement(gs, ov, padding, i).x + advance(ov, gs[i])
            == advance_sum(ov, gs, gs.len() as int),
{
    lemma_advance_sum_monotonic(ov, gs, i, gs.len() as int);
    lemma_advance_sum_monotonic(ov, gs, i + 1, gs.len() as int);
}

} // verus!
