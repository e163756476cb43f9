use vstd::prelude::*;
use crate::glyph::Glyph;
use crate::layout::{Placement, LayoutPlan, plan_fits};

verus! {

/// Whether the copied region of a placed glyph holds canvas point `(x, y)`.
pub open spec fn covers(p: Placement, g: Glyph, x: int, y: int) -> bool {
    &&& p.x <= x < p.x + p.copy_width
    &&& p.y <= y < p.y + g.height
}

/// The canvas pixel at `(x, y)` given placements `i..`: the first glyph whose copied
/// region holds the point supplies it, and a point that none holds is transparent.
pub open spec fn pixel_from(ps: Seq<Placement>, gs: Seq<Glyph>, x: int, y: int, i: int) -> u32
    decreases ps.len() - i,
{
    if i < 0 || i >= ps.len() {
        0
    } else if covers(ps[i], gs[i], x, y) {
        gs[i].rows@[y - ps[i].y]@[x - ps[i].x]
    } else {
        pixel_from(ps, gs, x, y, i + 1)
    }
}

pub open spec fn canvas_pixel(ps: Seq<Placement>, gs: Seq<Glyph>, x: int, y: int) -> u32 {
    pixel_from(ps, gs, x, y, 0)
}

/// The rows of a `width` by `height` canvas with the glyphs drawn at `ps`.
pub open spec fn canvas_rows(ps: Seq<Placement>, gs: Seq<Glyph>, width: nat, height: nat) -> Seq<Seq<u32>> {
    Seq::new(height, |y: int| Seq::new(width, |x: int| canvas_pixel(ps, gs, x, y)))
}

pub open spec fn rows_view(c: Seq<Vec<u32>>) -> Seq<Seq<u32>> {
    c.map_values(|r: Vec<u32>| r@)
}

pub open spec fn glyphs_wf(gs: Seq<Glyph>) -> bool {
    forall|i: int| 0 <= i < gs.len() ==> (#[trigger] gs[i]).wf()
}

fn pixel_at(plan: &LayoutPlan, gs: &Vec<Glyph>, x: u32, y: u32) -> (r: u32)
    requires
        plan_fits(*plan, gs@),
        glyphs_wf(gs@),
    ensures
        r == canvas_pixel(plan.placements@, gs@, x as int, y as int),
{
    let ps = &plan.placements;
    let mut i: usize = 0;
    while i < ps.len()
        invariant
            plan_fits(*plan, gs@),
            glyphs_wf(gs@),
            ps == &plan.placements,
            i <= ps@.len(),
            canvas_pixel(plan.placements@, gs@, x as int, y as int) == pixel_from(ps@, gs@, x as int, y as int, i as int),
        decreases ps@.len() - i,
    {
        let p = &ps[i];
        let g = &gs[i];
        if p.x <= x && (x as u64) < p.x as u64 + p.copy_width as u64
            && p.y <= y as i64 && (y as i64) < p.y + g.height as i64 {
            assert(g.wf());
            let row = &g.rows[(y as i64 - p.y) as usize];
            return row[(x - p.x) as usize];
        }
        i += 1;
    }
    0
}

/// Draws every glyph of the plan onto a transparent canvas, `result[y][x]` being
/// the pixel at column `x` of row `y`.
pub fn compose(plan: &LayoutPlan, gs: &Vec<Glyph>) -> (r: Vec<Vec<u32>>)
    requires
        plan_fits(*plan, gs@),
        glyphs_wf(gs@),
    ensures
        r@.len() == plan.height,
        forall|y: int| 0 <= y < r@.len() ==> (#[trigger] r@[y])@.len() == plan.width,
        rows_view(r@) == canvas_rows(plan.placements@, gs@, plan.width as nat, plan.height as nat),
{
    let mut canvas: Vec<Vec<u32>> = Vec::new();
    let mut y: u32 = 0;
    while y < plan.height
        invariant
            plan_fits(*plan, gs@),
            glyphs_wf(gs@),
            y <= plan.height,
            canvas@.len() == y,
            forall|yy: int| 0 <= yy < y ==> (#[trigger] canvas@[yy])@.len() == plan.width,
            forall|yy: int, xx: int| 0 <= yy < y && 0 <= xx < plan.width
                ==> (#[trigger] canvas@[yy]@[xx]) == canvas_pixel(plan.placements@, gs@, xx, yy),
        decreases plan.height - y,
    {
        let mut row: Vec<u32> = Vec::new();
        let mut x: u32 = 0;
        while x < plan.width
            invariant
                plan_fits(*plan, gs@),
                glyphs_wf(gs@),
                x <= plan.width,
                row@.len() == x,
                forall|xx: int| 0 <= xx < x ==> (#[trigger] row@[xx]) == canvas_pixel(plan.placements@, gs@, xx, y as int),
            decreases plan.width - x,
        {
            row.push(pixel_at(plan, gs, x, y));
            x += 1;
        }
        canvas.push(row);
        y += 1;
    }
    assert(rows_view(canvas@) =~= canvas_rows(plan.placements@, gs@, plan.width as nat, plan.height as nat)) by {
        assert forall|yy: int| 0 <= yy < plan.height implies
            rows_view(canvas@)[yy] =~= canvas_rows(plan.placements@, gs@, plan.width as nat, plan.height as nat)[yy] by {
            assert(rows_view(canvas@)[yy] == canvas@[yy]@);
        }
    }
    canvas
}

} // verus!
