use vstd::prelude::*;
use crate::glyph::Glyph;
use crate::layout::{advance, glyph_advance, override_of};
use crate::text::{decimal, push_decimal, push_all, push_str};

verus! {

/// The characters of the first `n` glyphs whose advance is `w`, in glyph order.
pub open spec fn chars_with(ov: Seq<(char, u32)>, gs: Seq<Glyph>, w: nat, n: int) -> Seq<char>
    decreases n,
{
    if n <= 0 {
        Seq::empty()
    } else if advance(ov, gs[n - 1]) == w {
        chars_with(ov, gs, w, n - 1).push(gs[n - 1].character)
    } else {
        chars_with(ov, gs, w, n - 1)
    }
}

/// Some group has advance `w`.
pub open spec fn has_group(groups: Seq<(u32, Vec<char>)>, w: nat) -> bool {
    exists|i: int| 0 <= i < groups.len() && (#[trigger] groups[i]).0 == w
}

/// `groups` lists each distinct advance once, in increasing order, with the
/// characters of the glyphs that have it.
pub open spec fn is_grouping(groups: Seq<(u32, Vec<char>)>, ov: Seq<(char, u32)>, gs: Seq<Glyph>) -> bool {
    &&& forall|i: int, j: int| 0 <= i < j < groups.len() ==> groups[i].0 < groups[j].0
    &&& forall|i: int| 0 <= i < groups.len() ==>
        (#[trigger] groups[i]).1@ == chars_with(ov, gs, groups[i].0 as nat, gs.len() as int)
    &&& forall|i: int| 0 <= i < groups.len() ==> (#[trigger] groups[i]).1@.len() > 0
    &&& forall|k: int| 0 <= k < gs.len() ==> has_group(groups, advance(ov, #[trigger] gs[k]))
}

proof fn lemma_chars_with_nonempty(ov: Seq<(char, u32)>, gs: Seq<Glyph>, w: nat, k: int, n: int)
    requires
        0 <= k < n,
        advance(ov, gs[k]) == w,
    ensures
        chars_with(ov, gs, w, n).len() > 0,
    decreases n,
{
    if k < n - 1 {
        lemma_chars_with_nonempty(ov, gs, w, k, n - 1);
    }
}

/// The smallest advance that is at least `lb`, if any.
fn min_advance_from(advs: &Vec<u32>, lb: u64) -> (r: Option<u32>)
    ensures
        r matches Some(m) ==> m >= lb
            && (exists|k: int| 0 <= k < advs@.len() && advs@[k] == m)
            && (forall|k: int| 0 <= k < advs@.len() && advs@[k] >= lb ==> advs@[k] >= m),
        r is None ==> forall|k: int| 0 <= k < advs@.len() ==> advs@[k] < lb,
{
    let mut best: Option<u32> = None;
    let mut i: usize = 0;
    while i < advs.len()
        invariant
            i <= advs@.len(),
            best matches Some(m) ==> m >= lb
                && (exists|k: int| 0 <= k < i && advs@[k] == m)
                && (forall|k: int| 0 <= k < i && advs@[k] >= lb ==> advs@[k] >= m),
            best is None ==> forall|k: int| 0 <= k < i ==> advs@[k] < lb,
        decreases advs@.len() - i,
    {
        let a = advs[i];
        if a as u64 >= lb {
            match best {
                Some(m) => {
                    if a < m {
                        best = Some(a);
                    }
                },
                None => {
                    best = Some(a);
                },
            }
        }
        i += 1;
    }
    best
}

/// Groups the glyphs' characters by advance width, widths in increasing order.
pub fn group_by_advance(gs: &Vec<Glyph>, ov: &Vec<(char, u32)>) -> (r: Vec<(u32, Vec<char>)>)
    ensures
        is_grouping(r@, ov@, gs@),
{
    let n = gs.len();
    let mut advs: Vec<u32> = Vec::new();
    let mut i: usize = 0;
    while i < n
        invariant
            n == gs@.len(),
            i <= n,
            advs@.len() == i,
            forall|k: int| 0 <= k < i ==> advs@[k] == advance(ov@, #[trigger] gs@[k]),
        decreases n - i,
    {
        advs.push(glyph_advance(ov, &gs[i]));
        i += 1;
    }
    let mut groups: Vec<(u32, Vec<char>)> = Vec::new();
    let mut lb: u64 = 0;
    loop
        invariant
            n == gs@.len(),
            advs@.len() == n,
            forall|k: int| 0 <= k < n ==> advs@[k] == advance(ov@, #[trigger] gs@[k]),
            lb <= 0x1_0000_0000,
            forall|i: int, j: int| 0 <= i < j < groups@.len() ==> groups@[i].0 < groups@[j].0,
            forall|i: int| 0 <= i < groups@.len() ==> (#[trigger] groups@[i]).0 < lb,
            forall|i: int| 0 <= i < groups@.len() ==>
                (#[trigger] groups@[i]).1@ == chars_with(ov@, gs@, groups@[i].0 as nat, n as int),
            forall|i: int| 0 <= i < groups@.len() ==> (#[trigger] groups@[i]).1@.len() > 0,
            forall|k: int| 0 <= k < n && #[trigger] advs@[k] < lb ==> has_group(groups@, advs@[k] as nat),
        ensures
            forall|i: int, j: int| 0 <= i < j < groups@.len() ==> groups@[i].0 < groups@[j].0,
            forall|i: int| 0 <= i < groups@.len() ==>
                (#[trigger] groups@[i]).1@ == chars_with(ov@, gs@, groups@[i].0 as nat, n as int),
            forall|i: int| 0 <= i < groups@.len() ==> (#[trigger] groups@[i]).1@.len() > 0,
            forall|k: int| 0 <= k < n ==> has_group(groups@, #[trigger] advs@[k] as nat),
        decreases 0x1_0000_0000 - lb,
    {
        match min_advance_from(&advs, lb) {
            None => {
                proof {
                    assert forall|k: int| 0 <= k < n implies has_group(groups@, #[trigger] advs@[k] as nat) by {
                        assert(advs@[k] < lb);
                    }
                }
                break;
            },
            Some(m) => {
                let mut chars: Vec<char> = Vec::new();
                let mut k: usize = 0;
                while k < n
                    invariant
                        n == gs@.len(),
                        advs@.len() == n,
                        forall|k: int| 0 <= k < n ==> advs@[k] == advance(ov@, #[trigger] gs@[k]),
                        k <= n,
                        chars@ == chars_with(ov@, gs@, m as nat, k as int),
                    decreases n - k,
                {
                    if advs[k] == m {
                        chars.push(gs[k].character);
                    }
                    k += 1;
                }
                proof {
                    let kk = choose|kk: int| 0 <= kk < advs@.len() && advs@[kk] == m;
                    lemma_chars_with_nonempty(ov@, gs@, m as nat, kk, n as int);
                }
                let ghost old_groups = groups@;
                groups.push((m, chars));
                proof {
                    assert(groups@[old_groups.len() as int].0 == m);
                    assert forall|k: int| 0 <= k < n && #[trigger] advs@[k] < m + 1 implies
                        has_group(groups@, advs@[k] as nat) by {
                        if advs@[k] < lb {
                            let i = choose|i: int| 0 <= i < old_groups.len() && (#[trigger] old_groups[i]).0 == advs@[k];
                            assert(groups@[i] == old_groups[i]);
                        } else {
                            assert(groups@[old_groups.len() as int].0 == advs@[k]);
                        }
                    }
                }
                lb = m as u64 + 1;
            },
        }
    }
    proof {
        assert forall|k: int| 0 <= k < gs@.len() implies has_group(groups@, advance(ov@, #[trigger] gs@[k])) by {
            assert(advs@[k] == advance(ov@, gs@[k]));
        }
    }
    groups
}

/// `[w, "chars"]` for one group.
pub open spec fn group_text(g: (u32, Vec<char>)) -> Seq<char> {
    seq!['['] + decimal(g.0 as nat) + seq![',', ' ', '"'] + g.1@ + seq!['"', ']']
}

/// The first `n` groups' texts joined by `", "`.
pub open spec fn groups_text(groups: Seq<(u32, Vec<char>)>, n: int) -> Seq<char>
    decreases n,
{
    if n <= 0 {
        Seq::empty()
    } else if n == 1 {
        group_text(groups[0])
    } else {
        groups_text(groups, n - 1) + seq![',', ' '] + group_text(groups[n - 1])
    }
}

/// The descriptor text: canvas width and height, then each advance group.
pub open spec fn config_text(width: nat, height: nat, groups: Seq<(u32, Vec<char>)>) -> Seq<char> {
    "width: "@ + decimal(width) + "\nheight: "@ + decimal(height) + "\nspace info: ["@
        + groups_text(groups, groups.len() as int) + "]"@
}

/// Writes the descriptor text.
pub fn format_config(width: u32, height: u32, groups: &Vec<(u32, Vec<char>)>) -> (r: Vec<char>)
    ensures
        r@ == config_text(width as nat, height as nat, groups@),
{
    let mut out: Vec<char> = Vec::new();
    push_str(&mut out, "width: ");
    push_decimal(&mut out, width);
    push_str(&mut out, "\nheight: ");
    push_decimal(&mut out, height);
    push_str(&mut out, "\nspace info: [");
    let ghost head = out@;
    let mut i: usize = 0;
    while i < groups.len()
        invariant
            i <= groups@.len(),
            out@ == head + groups_text(groups@, i as int),
        decreases groups@.len() - i,
    {
        let ghost before = out@;
        if i > 0 {
            push_str(&mut out, ", ");
        }
        out.push('[');
        push_decimal(&mut out, groups[i].0);
        push_str(&mut out, ", \"");
        push_all(&mut out, &groups[i].1);
        push_str(&mut out, "\"]");
        proof {
            reveal_strlit(", ");
            reveal_strlit(", \"");
            reveal_strlit("\"]");
            let g = groups@[i as int];
            if i == 0 {
                assert(out@ == before + group_text(g));
            } else {
                assert(out@ == before + seq![',', ' '] + group_text(g));
            }
        }
        i += 1;
    }
    push_str(&mut out, "]");
    out
}

proof fn lemma_chars_with_contains(ov: Seq<(char, u32)>, gs: Seq<Glyph>, k: int, n: int)
    requires
        0 <= k < n,
    ensures
        chars_with(ov, gs, advance(ov, gs[k]), n).contains(gs[k].character),
    decreases n,
{
    let w = advance(ov, gs[k]);
    if k < n - 1 {
        lemma_chars_with_contains(ov, gs, k, n - 1);
        let prev = chars_with(ov, gs, w, n - 1);
        let j = choose|j: int| 0 <= j < prev.len() && prev[j] == gs[k].character;
        if advance(ov, gs[n - 1]) == w {
            assert(chars_with(ov, gs, w, n)[j] == prev[j]);
        }
    } else {
        let cur = chars_with(ov, gs, w, n);
        assert(cur[cur.len() - 1] == gs[k].character);
    }
}

/// Each glyph's character is listed under its advance in the descriptor: the
/// override for the character when one is given, else the glyph's own width.
pub proof fn lemma_descriptor_advance(groups: Seq<(u32, Vec<char>)>, ov: Seq<(char, u32)>, gs: Seq<Glyph>, k: int)
    requires
        is_grouping(groups, ov, gs),
        0 <= k < gs.len(),
    ensures
        exists|i: int| 0 <= i < groups.len() && (#[trigger] groups[i]).0 == (match override_of(ov, gs[k].character) {
            Some(w) => w,
            None => gs[k].width,
        }) && groups[i].1@.contains(gs[k].character),
{
    assert(has_group(groups, advance(ov, gs[k])));
    let i = choose|i: int| 0 <= i < groups.len() && (#[trigger] groups[i]).0 == advance(ov, gs[k]);
    lemma_chars_with_contains(ov, gs, k, gs.len() as int);
    assert(groups[i].1@ == chars_with(ov, gs, groups[i].0 as nat, gs.len() as int));
}

} // verus!
