use vstd::prelude::*;
use crate::text::string_from_chars;

verus! {

/// A decoded glyph bitmap: `rows[y][x]` is the RGBA pixel at column `x` of row `y`,
/// packed as `0xRRGGBBAA`.
pub struct Glyph {
    pub character: char,
    pub width: u32,
    pub height: u32,
    pub rows: Vec<Vec<u32>>,
}

impl Glyph {
    /// The pixel rows match the stated dimensions.
    pub open spec fn wf(&self) -> bool {
        &&& self.rows@.len() == self.height
        &&& forall|y: int| 0 <= y < self.rows@.len() ==> (#[trigger] self.rows@[y])@.len() == self.width
    }

    /// A glyph of the given width from its pixel rows; `None` when a row has
    /// another length or there are more rows than a `u32` counts.
    pub fn from_rows(character: char, width: u32, rows: Vec<Vec<u32>>) -> (r: Option<Glyph>)
        ensures
            r is Some <==> rows@.len() <= u32::MAX
                && forall|y: int| 0 <= y < rows@.len() ==> (#[trigger] rows@[y])@.len() == width,
            r matches Some(g) ==> g.wf() && g.character == character && g.width == width
                && g.rows@ == rows@,
    {
        if rows.len() > u32::MAX as usize {
            return None;
        }
        let mut y: usize = 0;
        while y < rows.len()
            invariant
                y <= rows@.len(),
                forall|j: int| 0 <= j < y ==> (#[trigger] rows@[j])@.len() == width,
            decreases rows@.len() - y,
        {
            if rows[y].len() != width as usize {
                return None;
            }
            y += 1;
        }
        let height = rows.len() as u32;
        Some(Glyph { character, width, height, rows })
    }
}

/// What the caller found on disk for one requested character.
pub enum GlyphLookup {
    Found(Glyph),
    Missing(char),
    Undecodable(char, String),
}

/// How a missing glyph file is treated.
#[derive(PartialEq, Eq, Structural, Clone, Copy, Debug)]
pub enum LoadPolicy {
    /// A missing glyph fails the whole operation.
    Strict,
    /// A missing glyph is skipped.
    Lenient,
}

pub enum FontError {
    DirectoryNotFound,
    MissingGlyph(char),
    DecodeError(char, String),
    NoGlyphsFound,
    PersistError(String),
    EncodeError(String),
    /// The canvas would not fit in 32-bit dimensions.
    TooLarge,
}

/// Whether a lookup stops the load under the policy.
pub open spec fn fails(l: GlyphLookup, policy: LoadPolicy) -> bool {
    match l {
        GlyphLookup::Found(_) => false,
        GlyphLookup::Missing(_) => policy == LoadPolicy::Strict,
        GlyphLookup::Undecodable(_, _) => true,
    }
}

/// The error a failing lookup reports.
pub open spec fn failure_of(l: GlyphLookup) -> FontError {
    match l {
        GlyphLookup::Found(g) => FontError::MissingGlyph(g.character),
        GlyphLookup::Missing(c) => FontError::MissingGlyph(c),
        GlyphLookup::Undecodable(c, msg) => FontError::DecodeError(c, msg),
    }
}

/// The glyphs found among the first `n` lookups, in order.
pub open spec fn found_upto(ls: Seq<GlyphLookup>, n: int) -> Seq<Glyph>
    decreases n,
{
    if n <= 0 {
        Seq::empty()
    } else {
        match ls[n - 1] {
            GlyphLookup::Found(g) => found_upto(ls, n - 1).push(g),
            _ => found_upto(ls, n - 1),
        }
    }
}

pub open spec fn found_glyphs(ls: Seq<GlyphLookup>) -> Seq<Glyph> {
    found_upto(ls, ls.len() as int)
}

/// Every found glyph is well formed.
pub open spec fn lookups_wf(ls: Seq<GlyphLookup>) -> bool {
    forall|k: int| 0 <= k < ls.len() ==> (#[trigger] ls[k] matches GlyphLookup::Found(g) ==> g.wf())
}

/// What loading the lookups under `policy` yields: the first failing lookup's
/// error, else every found glyph in request order.
pub open spec fn load_result(ls: Seq<GlyphLookup>, policy: LoadPolicy, r: Result<Vec<Glyph>, FontError>) -> bool {
    match r {
        Ok(gs) => (forall|k: int| 0 <= k < ls.len() ==> !fails(#[trigger] ls[k], policy))
            && gs@ == found_glyphs(ls),
        Err(e) => exists|k: int| 0 <= k < ls.len() && fails(#[trigger] ls[k], policy)
            && (forall|j: int| 0 <= j < k ==> !fails(#[trigger] ls[j], policy))
            && e == failure_of(ls[k]),
    }
}

proof fn lemma_found_wf(ls: Seq<GlyphLookup>, n: int)
    requires
        lookups_wf(ls),
        0 <= n <= ls.len(),
    ensures
        forall|i: int| 0 <= i < found_upto(ls, n).len() ==> (#[trigger] found_upto(ls, n)[i]).wf(),
    decreases n,
{
    if n > 0 {
        lemma_found_wf(ls, n - 1);
        let prev = found_upto(ls, n - 1);
        assert(ls[n - 1] matches GlyphLookup::Found(g) ==> g.wf());
        if let GlyphLookup::Found(g) = ls[n - 1] {
            assert forall|i: int| 0 <= i < found_upto(ls, n).len() implies (#[trigger] found_upto(ls, n)[i]).wf() by {
                if i < prev.len() {
                    assert(found_upto(ls, n)[i] == prev[i]);
                }
            }
        }
    }
}

/// Found glyphs of well-formed lookups are well formed.
pub proof fn lemma_found_glyphs_wf(ls: Seq<GlyphLookup>)
    requires
        lookups_wf(ls),
    ensures
        forall|i: int| 0 <= i < found_glyphs(ls).len() ==> (#[trigger] found_glyphs(ls)[i]).wf(),
{
    lemma_found_wf(ls, ls.len() as int);
}

/// Resolves the lookups of the requested characters, in order: a missing glyph
/// fails under `Strict` and is skipped under `Lenient`; an undecodable one always fails.
pub fn resolve_glyphs(lookups: Vec<GlyphLookup>, policy: LoadPolicy) -> (r: Result<Vec<Glyph>, FontError>)
    ensures
        load_result(lookups@, policy, r),
{
    let ghost ls = lookups@;
    let n = lookups.len();
    let mut gs: Vec<Glyph> = Vec::new();
    let mut rest = lookups;
    let mut i: usize = 0;
    while rest.len() > 0
        invariant
            i + rest@.len() == ls.len(),
            ls.len() == n,
            ls == lookups@,
            forall|j: int| 0 <= j < rest@.len() ==> rest@[j] == ls[i + j],
            forall|k: int| 0 <= k < i ==> !fails(#[trigger] ls[k], policy),
            gs@ == found_upto(ls, i as int),
        decreases rest@.len(),
    {
        let l = rest.remove(0);
        assert(l == ls[i as int]);
        match l {
            GlyphLookup::Found(g) => {
                gs.push(g);
            },
            GlyphLookup::Missing(c) => {
                if policy == LoadPolicy::Strict {
                    proof {
                        assert(fails(ls[i as int], policy));
                        assert(failure_of(ls[i as int]) == FontError::MissingGlyph(c));
                    }
                    return Err(FontError::MissingGlyph(c));
                }
            },
            GlyphLookup::Undecodable(c, msg) => {
                proof {
                    assert(fails(ls[i as int], policy));
                    assert(failure_of(ls[i as int]) == FontError::DecodeError(c, msg));
                }
                return Err(FontError::DecodeError(c, msg));
            },
        }
        i += 1;
    }
    Ok(gs)
}

proof fn lemma_strict_upto(ls: Seq<GlyphLookup>, n: int)
    requires
        0 <= n <= ls.len(),
        forall|k: int| 0 <= k < ls.len() ==> !fails(#[trigger] ls[k], LoadPolicy::Strict),
    ensures
        found_upto(ls, n).len() == n,
        forall|k: int| 0 <= k < n ==> ls[k] == GlyphLookup::Found(#[trigger] found_upto(ls, n)[k]),
    decreases n,
{
    if n > 0 {
        lemma_strict_upto(ls, n - 1);
        assert(!fails(ls[n - 1], LoadPolicy::Strict));
        let prev = found_upto(ls, n - 1);
        assert forall|k: int| 0 <= k < n implies ls[k] == GlyphLookup::Found(#[trigger] found_upto(ls, n)[k]) by {
            if k < n - 1 {
                assert(found_upto(ls, n)[k] == prev[k]);
            }
        }
    }
}

/// When a strict load succeeds, every requested character has its glyph, in
/// request order: one glyph per character.
pub proof fn lemma_strict_load_keeps_all(ls: Seq<GlyphLookup>)
    requires
        forall|k: int| 0 <= k < ls.len() ==> !fails(#[trigger] ls[k], LoadPolicy::Strict),
    ensures
        found_glyphs(ls).len() == ls.len(),
        forall|k: int| 0 <= k < ls.len() ==> ls[k] == GlyphLookup::Found(#[trigger] found_glyphs(ls)[k]),
{
    lemma_strict_upto(ls, ls.len() as int);
}

/// The first `n` lookups with every `Missing(c)` taken out.
pub open spec fn without_missing(ls: Seq<GlyphLookup>, c: char, n: int) -> Seq<GlyphLookup>
    decreases n,
{
    if n <= 0 {
        Seq::empty()
    } else if ls[n - 1] == GlyphLookup::Missing(c) {
        without_missing(ls, c, n - 1)
    } else {
        without_missing(ls, c, n - 1).push(ls[n - 1])
    }
}

proof fn lemma_found_prefix(s: Seq<GlyphLookup>, x: GlyphLookup, k: int)
    requires
        0 <= k <= s.len(),
    ensures
        found_upto(s.push(x), k) == found_upto(s, k),
    decreases k,
{
    if k > 0 {
        lemma_found_prefix(s, x, k - 1);
        assert(s.push(x)[k - 1] == s[k - 1]);
    }
}

proof fn lemma_without_missing(ls: Seq<GlyphLookup>, c: char, n: int)
    requires
        0 <= n <= ls.len(),
    ensures
        found_glyphs(without_missing(ls, c, n)) == found_upto(ls, n),
        (forall|j: int| 0 <= j < n ==> !fails(#[trigger] ls[j], LoadPolicy::Lenient))
            <==> (forall|j: int| 0 <= j < without_missing(ls, c, n).len()
                ==> !fails(#[trigger] without_missing(ls, c, n)[j], LoadPolicy::Lenient)),
    decreases n,
{
    if n > 0 {
        lemma_without_missing(ls, c, n - 1);
        let prev = without_missing(ls, c, n - 1);
        let cur = without_missing(ls, c, n);
        if ls[n - 1] != GlyphLookup::Missing(c) {
            lemma_found_prefix(prev, ls[n - 1], prev.len() as int);
            assert(cur[cur.len() - 1] == ls[n - 1]);
            if forall|j: int| 0 <= j < cur.len() ==> !fails(#[trigger] cur[j], LoadPolicy::Lenient) {
                assert forall|j: int| 0 <= j < prev.len() implies !fails(#[trigger] prev[j], LoadPolicy::Lenient) by {
                    assert(cur[j] == prev[j]);
                }
                assert(!fails(cur[cur.len() - 1], LoadPolicy::Lenient));
            }
            if forall|j: int| 0 <= j < n ==> !fails(#[trigger] ls[j], LoadPolicy::Lenient) {
                assert forall|j: int| 0 <= j < cur.len() implies !fails(#[trigger] cur[j], LoadPolicy::Lenient) by {
                    if j < prev.len() {
                        assert(cur[j] == prev[j]);
                    }
                }
            }
        }
    }
}

/// A character whose glyph file is missing changes nothing in a lenient load:
/// with every one of its occurrences taken out, the same glyphs are found, in the
/// same order, and the load fails exactly when it failed before.
pub proof fn lemma_missing_glyph_ignored(ls: Seq<GlyphLookup>, c: char)
    ensures
        found_glyphs(without_missing(ls, c, ls.len() as int)) == found_glyphs(ls),
        (forall|j: int| 0 <= j < ls.len() ==> !fails(#[trigger] ls[j], LoadPolicy::Lenient))
            <==> (forall|j: int| 0 <= j < without_missing(ls, c, ls.len() as int).len()
                ==> !fails(#[trigger] without_missing(ls, c, ls.len() as int)[j], LoadPolicy::Lenient)),
{
    lemma_without_missing(ls, c, ls.len() as int);
}

} // verus!
