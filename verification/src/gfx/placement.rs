//! Which glyph images are uploaded and where they are placed. Every
//! distinct glyph (character + colours) is uploaded once; each frame then
//! only adds or removes placements, so a keystroke costs a few hundred
//! bytes. Measuring text and rasterizing glyphs happen in the application,
//! which hands this module pixel positions and finished images.

use vstd::prelude::*;

use super::kitty::{
    bytes_of, delete, delete_placement, delete_placement_text, delete_text, place, place_text,
    transmit, transmit_bytes, RESTORE_CURSOR, SAVE_CURSOR,
};
use super::raster::Glyph;

verus! {

/// Image ids are ours to pick; stay clear of small numbers other tools use.
pub const ID_BASE: u32 = 0x7474_7000;

/// Uploaded glyph images kept before starting afresh (theme previews can
/// otherwise pile up colour variants).
pub const MAX_IMAGES: usize = 1500;

/// A pixel position on screen.
pub type Pos = (u32, u32);

/// Everything glyph images depend on besides the glyph itself.
#[derive(Debug, Clone, Copy, PartialEq, Eq, Structural)]
pub struct RenderKey {
    /// Font size in pixels per em, as the bits of the float.
    pub px_bits: u32,
    pub height: u32,
    pub cell_w: u16,
    pub cell_h: u16,
    pub generation: u64,
}

/// A live placement of an image.
#[derive(Debug, Clone, Copy, PartialEq, Eq, Structural)]
pub struct Placed {
    pub image: u32,
    pub pid: u32,
}

// ---------------------------------------------------------------------------
// Keyed sequences
// ---------------------------------------------------------------------------

/// No two entries share a position.
pub open spec fn unique_positions<V>(s: Seq<(Pos, V)>) -> bool {
    forall|i: int, j: int| 0 <= i < j < s.len() ==> (#[trigger] s[i]).0 != (#[trigger] s[j]).0
}

pub open spec fn has_pos<V>(s: Seq<(Pos, V)>, pos: Pos) -> bool {
    exists|i: int| 0 <= i < s.len() && (#[trigger] s[i]).0 == pos
}

/// The index of the entry at `pos` (meaningful when there is one).
pub open spec fn pos_index<V>(s: Seq<(Pos, V)>, pos: Pos) -> int {
    choose|i: int| 0 <= i < s.len() && (#[trigger] s[i]).0 == pos
}

/// The value at `pos`, if any.
pub open spec fn at_pos<V>(s: Seq<(Pos, V)>, pos: Pos) -> Option<V> {
    if has_pos(s, pos) {
        Some(s[pos_index(s, pos)].1)
    } else {
        None
    }
}

/// No glyph is uploaded twice.
pub open spec fn unique_glyphs(s: Seq<(Glyph, u32)>) -> bool {
    forall|i: int, j: int| 0 <= i < j < s.len() ==> (#[trigger] s[i]).0 != (#[trigger] s[j]).0
}

/// The image uploaded for `g`, if any.
pub open spec fn image_of(s: Seq<(Glyph, u32)>, g: Glyph) -> Option<u32> {
    if exists|i: int| 0 <= i < s.len() && (#[trigger] s[i]).0 == g {
        Some(s[choose|i: int| 0 <= i < s.len() && (#[trigger] s[i]).0 == g].1)
    } else {
        None
    }
}

proof fn lemma_at_found<V>(s: Seq<(Pos, V)>, pos: Pos, i: int)
    requires
        unique_positions(s),
        0 <= i < s.len(),
        s[i].0 == pos,
    ensures
        has_pos(s, pos),
        pos_index(s, pos) == i,
        at_pos(s, pos) == Some(s[i].1),
{
    assert(has_pos(s, pos));
    let k = pos_index(s, pos);
    if k != i {
        if k < i {
            assert(s[k].0 != s[i].0);
        } else {
            assert(s[i].0 != s[k].0);
        }
    }
}

proof fn lemma_image_found(s: Seq<(Glyph, u32)>, g: Glyph, i: int)
    requires
        unique_glyphs(s),
        0 <= i < s.len(),
        s[i].0 == g,
    ensures
        image_of(s, g) == Some(s[i].1),
{
    assert(exists|i: int| 0 <= i < s.len() && (#[trigger] s[i]).0 == g);
    let k = choose|i: int| 0 <= i < s.len() && (#[trigger] s[i]).0 == g;
    if k != i {
        if k < i {
            assert(s[k].0 != s[i].0);
        } else {
            assert(s[i].0 != s[k].0);
        }
    }
}

// ---------------------------------------------------------------------------
// Exec lookups
// ---------------------------------------------------------------------------

fn same_glyph(a: &Glyph, b: &Glyph) -> (r: bool)
    ensures
        r == (*a == *b),
{
    let same_bg = match (a.bg, b.bg) {
        (None, None) => true,
        (Some(x), Some(y)) => {
            let e = x[0] == y[0] && x[1] == y[1] && x[2] == y[2];
            proof {
                if e {
                    assert(x =~= y);
                }
            }
            e
        },
        _ => false,
    };
    let same_fg = a.fg[0] == b.fg[0] && a.fg[1] == b.fg[1] && a.fg[2] == b.fg[2];
    proof {
        if same_fg {
            assert(a.fg =~= b.fg);
        }
    }
    a.ch == b.ch && same_fg && same_bg && a.underline == b.underline
}

fn find_wanted(s: &Vec<(Pos, Glyph)>, pos: Pos) -> (r: Option<usize>)
    ensures
        r matches Some(i) ==> i < s@.len() && s@[i as int].0 == pos,
        r is None ==> !has_pos(s@, pos),
{
    let mut i: usize = 0;
    while i < s.len()
        invariant
            i <= s@.len(),
            forall|j: int| 0 <= j < i ==> (#[trigger] s@[j]).0 != pos,
        decreases s@.len() - i,
    {
        if s[i].0.0 == pos.0 && s[i].0.1 == pos.1 {
            return Some(i);
        }
        i = i + 1;
    }
    None
}

fn find_placed(s: &Vec<(Pos, Placed)>, pos: Pos) -> (r: Option<usize>)
    ensures
        r matches Some(i) ==> i < s@.len() && s@[i as int].0 == pos,
        r is None ==> !has_pos(s@, pos),
{
    let mut i: usize = 0;
    while i < s.len()
        invariant
            i <= s@.len(),
            forall|j: int| 0 <= j < i ==> (#[trigger] s@[j]).0 != pos,
        decreases s@.len() - i,
    {
        if s[i].0.0 == pos.0 && s[i].0.1 == pos.1 {
            return Some(i);
        }
        i = i + 1;
    }
    None
}

fn find_image(s: &Vec<(Glyph, u32)>, g: &Glyph) -> (r: Option<u32>)
    requires
        unique_glyphs(s@),
    ensures
        r == image_of(s@, *g),
{
    let mut i: usize = 0;
    while i < s.len()
        invariant
            i <= s@.len(),
            unique_glyphs(s@),
            forall|j: int| 0 <= j < i ==> (#[trigger] s@[j]).0 != *g,
        decreases s@.len() - i,
    {
        if same_glyph(&s[i].0, g) {
            proof {
                lemma_image_found(s@, *g, i as int);
            }
            return Some(s[i].1);
        }
        i = i + 1;
    }
    None
}

// ---------------------------------------------------------------------------
// The wanted glyphs of a frame
// ---------------------------------------------------------------------------

/// The glyphs to show, one per position: the last glyph laid out at a
/// position wins, positions in order of first appearance.
pub open spec fn collected(entries: Seq<(Pos, Glyph)>) -> Seq<(Pos, Glyph)>
    decreases entries.len(),
{
    if entries.len() == 0 {
        Seq::empty()
    } else {
        let acc = collected(entries.drop_last());
        let e = entries.last();
        if has_pos(acc, e.0) {
            acc.update(pos_index(acc, e.0), e)
        } else {
            acc.push(e)
        }
    }
}

proof fn lemma_collected_unique(entries: Seq<(Pos, Glyph)>)
    ensures
        unique_positions(collected(entries)),
    decreases entries.len(),
{
    if entries.len() > 0 {
        let acc = collected(entries.drop_last());
        lemma_collected_unique(entries.drop_last());
        let e = entries.last();
        if has_pos(acc, e.0) {
            let k = pos_index(acc, e.0);
            let r = acc.update(k, e);
            assert forall|i: int, j: int| 0 <= i < j < r.len() implies (#[trigger] r[i]).0 != (
            #[trigger] r[j]).0 by {
                if i != k && j != k {
                    assert(r[i] == acc[i] && r[j] == acc[j]);
                } else if i == k {
                    assert(r[i].0 == acc[k].0);
                    assert(r[j] == acc[j]);
                } else {
                    assert(r[j].0 == acc[k].0);
                    assert(r[i] == acc[i]);
                }
            }
        } else {
            let r = acc.push(e);
            assert forall|i: int, j: int| 0 <= i < j < r.len() implies (#[trigger] r[i]).0 != (
            #[trigger] r[j]).0 by {
                if j == acc.len() {
                    assert(r[i] == acc[i]);
                    if acc[i].0 == e.0 {
                        assert(has_pos(acc, e.0));
                    }
                } else {
                    assert(r[i] == acc[i] && r[j] == acc[j]);
                }
            }
        }
    }
}

/// One glyph per position, the last laid out winning.
pub fn collect_wanted(entries: &Vec<(Pos, Glyph)>) -> (r: Vec<(Pos, Glyph)>)
    ensures
        r@ == collected(entries@),
        unique_positions(r@),
{
    let mut r: Vec<(Pos, Glyph)> = Vec::new();
    let mut i: usize = 0;
    while i < entries.len()
        invariant
            i <= entries@.len(),
            r@ == collected(entries@.take(i as int)),
            unique_positions(r@),
        decreases entries@.len() - i,
    {
        let e = entries[i];
        proof {
            assert(entries@.take(i + 1).drop_last() =~= entries@.take(i as int));
            assert(entries@.take(i + 1).last() == e);
        }
        match find_wanted(&r, e.0) {
            Some(j) => {
                proof {
                    lemma_at_found(r@, e.0, j as int);
                }
                r.set(j, e);
            },
            None => {
                r.push(e);
            },
        }
        i = i + 1;
        proof {
            lemma_collected_unique(entries@.take(i as int));
        }
    }
    assert(entries@.take(i as int) =~= entries@);
    r
}

/// The glyphs of `want` with no uploaded image yet, each once, in order.
pub open spec fn fresh_glyphs(want: Seq<(Pos, Glyph)>, images: Seq<(Glyph, u32)>) -> Seq<Glyph>
    decreases want.len(),
{
    if want.len() == 0 {
        Seq::empty()
    } else {
        let acc = fresh_glyphs(want.drop_last(), images);
        let g = want.last().1;
        if image_of(images, g) is Some || acc.contains(g) {
            acc
        } else {
            acc.push(g)
        }
    }
}

// ---------------------------------------------------------------------------
// Placement diff
// ---------------------------------------------------------------------------

/// A live placement stays when its position still wants a glyph whose
/// image is the one it shows.
pub open spec fn keeps(want: Seq<(Pos, Glyph)>, images: Seq<(Glyph, u32)>, e: (Pos, Placed)) -> bool {
    match at_pos(want, e.0) {
        Some(g) => image_of(images, g) == Some(e.1.image),
        None => false,
    }
}

/// The placements that stay, and the escapes deleting the others.
pub open spec fn retained(placed: Seq<(Pos, Placed)>, want: Seq<(Pos, Glyph)>, images: Seq<(Glyph, u32)>) -> (
    Seq<(Pos, Placed)>,
    Seq<u8>,
)
    decreases placed.len(),
{
    if placed.len() == 0 {
        (Seq::empty(), Seq::empty())
    } else {
        let (k, b) = retained(placed.drop_last(), want, images);
        let e = placed.last();
        if keeps(want, images, e) {
            (k.push(e), b)
        } else {
            (k, b + bytes_of(delete_placement_text(e.1.image, e.1.pid)))
        }
    }
}

/// The id after `n`, wrapping and never below `floor`.
pub open spec fn bump(n: u32, floor: u32) -> u32 {
    let m: u32 = if n == u32::MAX {
        0
    } else {
        (n + 1) as u32
    };
    if m < floor {
        floor
    } else {
        m
    }
}

/// Placing the wanted glyphs that have an image and no placement yet:
/// the placements after, the next placement id, and the escapes.
pub open spec fn additions(
    want: Seq<(Pos, Glyph)>,
    images: Seq<(Glyph, u32)>,
    start: Seq<(Pos, Placed)>,
    pid: u32,
    cw: u32,
    ch: u32,
) -> (Seq<(Pos, Placed)>, u32, Seq<u8>)
    decreases want.len(),
{
    if want.len() == 0 {
        (start, pid, Seq::empty())
    } else {
        let (p, next, bytes) = additions(want.drop_last(), images, start, pid, cw, ch);
        let (pos, g) = want.last();
        if has_pos(p, pos) {
            (p, next, bytes)
        } else {
            match image_of(images, g) {
                None => (p, next, bytes),
                Some(img) => (
                    p.push((pos, Placed { image: img, pid: next })),
                    bump(next, 1),
                    bytes + bytes_of(place_text(img, next, pos.0 / cw, pos.1 / ch, pos.0 % cw, pos.1 % ch)),
                ),
            }
        }
    }
}

pub proof fn lemma_additions_grow(
    want: Seq<(Pos, Glyph)>,
    images: Seq<(Glyph, u32)>,
    start: Seq<(Pos, Placed)>,
    pid: u32,
    cw: u32,
    ch: u32,
)
    ensures
        additions(want, images, start, pid, cw, ch).0.len() >= start.len(),
        additions(want, images, start, pid, cw, ch).0.take(start.len() as int) == start,
        (additions(want, images, start, pid, cw, ch).0.len() == start.len()) == (additions(
            want,
            images,
            start,
            pid,
            cw,
            ch,
        ).2.len() == 0),
    decreases want.len(),
{
    if want.len() > 0 {
        lemma_additions_grow(want.drop_last(), images, start, pid, cw, ch);
        let (p, next, bytes) = additions(want.drop_last(), images, start, pid, cw, ch);
        let (pos, g) = want.last();
        if !has_pos(p, pos) {
            if let Some(img) = image_of(images, g) {
                assert(p.push((pos, Placed { image: img, pid: next })).take(start.len() as int)
                    =~= p.take(start.len() as int));
                let t = place_text(img, next, pos.0 / cw, pos.1 / ch, pos.0 % cw, pos.1 % ch);
                assert(t.len() > 0) by {
                    reveal_strlit("\x1b[");
                }
                assert(bytes_of(t).len() == t.len());
            }
        }
    }
}

/// The escapes that bring the screen from `placed` to `want`: deletions,
/// then the new placements bracketed by a cursor save and restore.
pub open spec fn sync_bytes(
    placed: Seq<(Pos, Placed)>,
    want: Seq<(Pos, Glyph)>,
    images: Seq<(Glyph, u32)>,
    pid: u32,
    cw: u32,
    ch: u32,
) -> Seq<u8> {
    let (kept, del) = retained(placed, want, images);
    let (_, _, add) = additions(want, images, kept, pid, cw, ch);
    del + if add.len() == 0 {
        Seq::empty()
    } else {
        SAVE_CURSOR@ + add + RESTORE_CURSOR@
    }
}

// ---------------------------------------------------------------------------
// The state
// ---------------------------------------------------------------------------

/// What has been uploaded and placed, and the ids to use next.
pub struct Placements {
    /// What the uploaded images were rendered for.
    pub render_key: Option<RenderKey>,
    /// Uploaded glyph images.
    pub images: Vec<(Glyph, u32)>,
    /// Live placements by absolute pixel position.
    pub placed: Vec<(Pos, Placed)>,
    pub next_image: u32,
    pub next_pid: u32,
}

impl Placements {
    /// No glyph is uploaded twice and no position placed twice.
    pub open spec fn wf(&self) -> bool {
        unique_glyphs(self.images@) && unique_positions(self.placed@)
    }

    /// Nothing uploaded or placed.
    pub fn new() -> (p: Self)
        ensures
            p.wf(),
            p.render_key is None,
            p.images@.len() == 0,
            p.placed@.len() == 0,
            p.next_image == ID_BASE,
            p.next_pid == 1,
    {
        Placements {
            render_key: None,
            images: Vec::new(),
            placed: Vec::new(),
            next_image: ID_BASE,
            next_pid: 1,
        }
    }

    /// Forget and delete every image (and so every placement).
    pub fn purge(&mut self, buf: &mut Vec<u8>)
        ensures
            final(self).wf(),
            final(self).images@.len() == 0,
            final(self).placed@.len() == 0,
            final(self).render_key == old(self).render_key,
            final(self).next_image == old(self).next_image,
            final(self).next_pid == old(self).next_pid,
            final(buf)@ == old(buf)@ + deletions(old(self).images@),
    {
        let ghost start = buf@;
        let mut i: usize = 0;
        while i < self.images.len()
            invariant
                i <= self.images@.len(),
                buf@ == start + deletions(self.images@.take(i as int)),
            decreases self.images@.len() - i,
        {
            delete(buf, self.images[i].1);
            proof {
                assert(self.images@.take(i + 1).drop_last() =~= self.images@.take(i as int));
            }
            i = i + 1;
        }
        assert(self.images@.take(i as int) =~= self.images@);
        self.images.clear();
        self.placed.clear();
    }

    /// Assume nothing on screen is current (e.g. the terminal was cleared).
    pub fn invalidate(&mut self)
        ensures
            *final(self) == (Placements { render_key: None, ..*old(self) }),
    {
        self.render_key = None;
    }

    /// Starts a frame rendered for `key`: uploaded images made for another
    /// key are deleted first.
    pub fn begin_frame(&mut self, key: RenderKey, buf: &mut Vec<u8>)
        requires
            old(self).wf(),
        ensures
            final(self).wf(),
            final(self).render_key == Some(key),
            old(self).render_key == Some(key) ==> *final(self) == *old(self) && final(buf)@ == old(
                buf,
            )@,
            old(self).render_key != Some(key) ==> final(self).images@.len() == 0
                && final(self).placed@.len() == 0 && final(self).next_image == old(self).next_image
                && final(self).next_pid == old(self).next_pid && final(buf)@ == old(buf)@
                + deletions(old(self).images@),
    {
        let same = match self.render_key {
            Some(k) => k == key,
            None => false,
        };
        if !same {
            self.purge(buf);
            self.render_key = Some(key);
        }
    }

    /// The glyphs of `want` that still need an image.
    pub fn missing(&self, want: &Vec<(Pos, Glyph)>) -> (r: Vec<Glyph>)
        requires
            self.wf(),
        ensures
            r@ == fresh_glyphs(want@, self.images@),
    {
        let mut r: Vec<Glyph> = Vec::new();
        let mut i: usize = 0;
        while i < want.len()
            invariant
                i <= want@.len(),
                self.wf(),
                r@ == fresh_glyphs(want@.take(i as int), self.images@),
            decreases want@.len() - i,
        {
            let g = want[i].1;
            proof {
                assert(want@.take(i + 1).drop_last() =~= want@.take(i as int));
                assert(want@.take(i + 1).last().1 == g);
            }
            let known = find_image(&self.images, &g);
            let mut seen = false;
            let mut j: usize = 0;
            while j < r.len()
                invariant
                    j <= r@.len(),
                    seen == exists|k: int| 0 <= k < j && r@[k] == g,
                decreases r@.len() - j,
            {
                if same_glyph(&r[j], &g) {
                    seen = true;
                }
                j = j + 1;
            }
            if known.is_none() && !seen {
                r.push(g);
            }
            i = i + 1;
        }
        assert(want@.take(i as int) =~= want@);
        r
    }

    /// Uploads `rgba` (`w`×`h`) as the image for a glyph not uploaded yet,
    /// under the next image id.
    pub fn add_image(&mut self, g: Glyph, w: u32, h: u32, rgba: &[u8], buf: &mut Vec<u8>)
        requires
            old(self).wf(),
            image_of(old(self).images@, g) is None,
            rgba@.len() == w * h * 4,
        ensures
            final(self).wf(),
            final(self).images@ == old(self).images@.push((g, old(self).next_image)),
            final(self).next_image == bump(old(self).next_image, ID_BASE),
            final(self).placed == old(self).placed,
            final(self).next_pid == old(self).next_pid,
            final(self).render_key == old(self).render_key,
            final(buf)@ == old(buf)@ + transmit_bytes(rgba@, old(self).next_image, w, h),
    {
        let id = self.next_image;
        let n = if id == u32::MAX {
            0
        } else {
            id + 1
        };
        self.next_image = if n < ID_BASE {
            ID_BASE
        } else {
            n
        };
        transmit(buf, id, w, h, rgba);
        let ghost before = self.images@;
        self.images.push((g, id));
        proof {
            assert forall|i: int, j: int| 0 <= i < j < self.images@.len() implies (
            #[trigger] self.images@[i]).0 != (#[trigger] self.images@[j]).0 by {
                if j == before.len() {
                    assert(self.images@[i] == before[i]);
                    if before[i].0 == g {
                        assert(exists|i: int| 0 <= i < before.len() && (#[trigger] before[i]).0 == g);
                    }
                } else {
                    assert(self.images@[i] == before[i] && self.images@[j] == before[j]);
                }
            }
        }
    }

    /// Brings the placements to `want`, appending the escapes to `buf`;
    /// `cell` is the cell size in pixels (a placement is addressed as a
    /// cell plus a pixel offset). Starts afresh next frame once too many
    /// images have piled up.
    pub fn sync(&mut self, want: &Vec<(Pos, Glyph)>, cell: Option<(u16, u16)>, buf: &mut Vec<u8>)
        requires
            old(self).wf(),
            unique_positions(want@),
            cell matches Some(c) ==> c.0 > 0 && c.1 > 0,
            forall|k: int|
                0 <= k < want@.len() ==> (#[trigger] want@[k]).0.0 / cell_w(cell) < u32::MAX
                    && want@[k].0.1 / cell_h(cell) < u32::MAX,
        ensures
            final(self).wf(),
            ({
                let (kept, _) = retained(old(self).placed@, want@, old(self).images@);
                let (p, next, _) = additions(
                    want@,
                    old(self).images@,
                    kept,
                    old(self).next_pid,
                    cell_w(cell),
                    cell_h(cell),
                );
                &&& final(self).placed@ == p
                &&& final(self).next_pid == next
            }),
            final(buf)@ == old(buf)@ + sync_bytes(
                old(self).placed@,
                want@,
                old(self).images@,
                old(self).next_pid,
                cell_w(cell),
                cell_h(cell),
            ),
            final(self).images == old(self).images,
            final(self).next_image == old(self).next_image,
            final(self).render_key == if old(self).images@.len() > MAX_IMAGES {
                None
            } else {
                old(self).render_key
            },
    {
        let ghost start = buf@;
        let ghost placed0 = self.placed@;
        // Drop placements that moved or changed.
        let mut kept: Vec<(Pos, Placed)> = Vec::new();
        let mut i: usize = 0;
        while i < self.placed.len()
            invariant
                i <= self.placed@.len(),
                self.placed@ == placed0,
                placed0 == old(self).placed@,
                self.images == old(self).images,
                self.next_pid == old(self).next_pid,
                self.next_image == old(self).next_image,
                self.render_key == old(self).render_key,
                unique_positions(placed0),
                unique_glyphs(self.images@),
                unique_positions(want@),
                (kept@, buf@.skip(start.len() as int)) == retained(
                    placed0.take(i as int),
                    want@,
                    self.images@,
                ),
                buf@.take(start.len() as int) == start,
                buf@.len() >= start.len(),
                forall|a: int, b: int|
                    0 <= a < kept@.len() && 0 <= b < kept@.len() && a != b ==> (#[trigger] kept@[a]).0
                        != (#[trigger] kept@[b]).0,
                forall|a: int|
                    0 <= a < kept@.len() ==> exists|b: int|
                        0 <= b < i && (#[trigger] kept@[a]) == placed0[b],
            decreases self.placed@.len() - i,
        {
            let e = self.placed[i];
            proof {
                assert(placed0.take(i + 1).drop_last() =~= placed0.take(i as int));
                assert(placed0.take(i + 1).last() == e);
            }
            let keep = match find_wanted(want, e.0) {
                Some(j) => {
                    proof {
                        lemma_at_found(want@, e.0, j as int);
                    }
                    match find_image(&self.images, &want[j].1) {
                        Some(img) => img == e.1.image,
                        None => false,
                    }
                },
                None => false,
            };
            let ghost before = buf@;
            if keep {
                proof {
                    assert forall|a: int| 0 <= a < kept@.len() implies (#[trigger] kept@[a]).0 != e.0 by {
                        let b = choose|b: int| 0 <= b < i && kept@[a] == placed0[b];
                        assert(placed0[b].0 != placed0[i as int].0);
                    }
                }
                kept.push(e);
            } else {
                delete_placement(buf, e.1.image, e.1.pid);
            }
            proof {
                assert(buf@.take(start.len() as int) =~= start);
                assert(buf@.skip(start.len() as int) =~= before.skip(start.len() as int) + (if keep {
                    Seq::empty()
                } else {
                    bytes_of(delete_placement_text(e.1.image, e.1.pid))
                }));
                assert forall|a: int| 0 <= a < kept@.len() implies exists|b: int|
                    0 <= b < i + 1 && (#[trigger] kept@[a]) == placed0[b] by {
                    if a == kept@.len() - 1 && keep {
                        assert(kept@[a] == placed0[i as int]);
                    } else {
                        let b = choose|b: int| 0 <= b < i && kept@[a] == placed0[b];
                    }
                }
            }
            i = i + 1;
        }
        proof {
            assert(placed0.take(i as int) =~= placed0);
        }
        let ghost kept0 = kept@;
        let ghost del = buf@.skip(start.len() as int);
        let (cw, ch): (u32, u32) = match cell {
            Some(c) => (c.0 as u32, c.1 as u32),
            None => (1, 1),
        };
        // Place what is new.
        let ghost mid = buf@;
        let mut added: Vec<u8> = Vec::new();
        let mut k: usize = 0;
        while k < want.len()
            invariant
                k <= want@.len(),
                self.images == old(self).images,
                self.next_image == old(self).next_image,
                self.render_key == old(self).render_key,
                mid == start + del,
                kept0 == retained(old(self).placed@, want@, old(self).images@).0,
                del == retained(old(self).placed@, want@, old(self).images@).1,
                cw == cell_w(cell),
                ch == cell_h(cell),
                cw > 0,
                ch > 0,
                unique_glyphs(self.images@),
                forall|q: int|
                    0 <= q < want@.len() ==> (#[trigger] want@[q]).0.0 / cw < u32::MAX && want@[q].0.1
                        / ch < u32::MAX,
                (kept@, self.next_pid, added@) == additions(
                    want@.take(k as int),
                    self.images@,
                    kept0,
                    old(self).next_pid,
                    cw,
                    ch,
                ),
                unique_positions(kept@),
            decreases want@.len() - k,
        {
            let (pos, g) = want[k];
            proof {
                assert(want@.take(k + 1).drop_last() =~= want@.take(k as int));
                assert(want@.take(k + 1).last() == (pos, g));
            }
            if find_placed(&kept, pos).is_none() {
                match find_image(&self.images, &g) {
                    Some(image) => {
                        let pid = self.next_pid;
                        let n = if pid == u32::MAX {
                            0
                        } else {
                            pid + 1
                        };
                        self.next_pid = if n < 1 {
                            1
                        } else {
                            n
                        };
                        let (x, y) = pos;
                        place(&mut added, image, pid, x / cw, y / ch, x % cw, y % ch);
                        let ghost before = kept@;
                        kept.push((pos, Placed { image, pid }));
                        proof {
                            assert forall|a: int, b: int|
                                0 <= a < b < kept@.len() implies (#[trigger] kept@[a]).0 != (
                            #[trigger] kept@[b]).0 by {
                                if b == before.len() {
                                    assert(kept@[a] == before[a]);
                                    if before[a].0 == pos {
                                        assert(has_pos(before, pos));
                                    }
                                } else {
                                    assert(kept@[a] == before[a] && kept@[b] == before[b]);
                                }
                            }
                        }
                    },
                    None => {},
                }
            } else {
            }
            k = k + 1;
        }
        proof {
            assert(want@.take(k as int) =~= want@);
            lemma_additions_grow(want@, self.images@, kept0, old(self).next_pid, cw, ch);
        }
        if added.len() > 0 {
            buf.push(SAVE_CURSOR[0]);
            buf.push(SAVE_CURSOR[1]);
            let mut j: usize = 0;
            let ghost before = buf@;
            while j < added.len()
                invariant
                    j <= added@.len(),
                    buf@ == before + added@.take(j as int),
                decreases added@.len() - j,
            {
                buf.push(added[j]);
                j = j + 1;
                assert(added@.take(j as int) =~= added@.take((j - 1) as int).push(added@[j - 1]));
            }
            buf.push(RESTORE_CURSOR[0]);
            buf.push(RESTORE_CURSOR[1]);
            proof {
                assert(added@.take(j as int) =~= added@);
                assert(buf@ =~= mid + (SAVE_CURSOR@ + added@ + RESTORE_CURSOR@));
            }
        } else {
            assert(buf@ =~= mid + Seq::<u8>::empty());
        }
        proof {
            assert(mid =~= start + del);
            assert(buf@ =~= start + sync_bytes(
                old(self).placed@,
                want@,
                old(self).images@,
                old(self).next_pid,
                cw,
                ch,
            ));
        }
        self.placed = kept;
        if self.images.len() > MAX_IMAGES {
            self.render_key = None;
        }
    }
}

/// Cell width in pixels, one when the size is unknown.
pub open spec fn cell_w(cell: Option<(u16, u16)>) -> u32 {
    match cell {
        Some(c) => c.0 as u32,
        None => 1,
    }
}

/// Cell height in pixels, one when the size is unknown.
pub open spec fn cell_h(cell: Option<(u16, u16)>) -> u32 {
    match cell {
        Some(c) => c.1 as u32,
        None => 1,
    }
}

/// The escapes deleting every image in `images`.
pub open spec fn deletions(images: Seq<(Glyph, u32)>) -> Seq<u8>
    decreases images.len(),
{
    if images.len() == 0 {
        Seq::empty()
    } else {
        deletions(images.drop_last()) + bytes_of(delete_text(images.last().1))
    }
}


// ---------------------------------------------------------------------------
// Laws
// ---------------------------------------------------------------------------

/// The placements `p` show exactly `want`: each is wanted with the image
/// it shows, and each wanted glyph that has an image is placed.
pub open spec fn shows(p: Seq<(Pos, Placed)>, want: Seq<(Pos, Glyph)>, images: Seq<(Glyph, u32)>) -> bool {
    &&& forall|i: int| 0 <= i < p.len() ==> keeps(want, images, #[trigger] p[i])
    &&& forall|k: int|
        0 <= k < want.len() && image_of(images, want[k].1) is Some ==> has_pos(p, (#[trigger] want[k]).0)
}

proof fn lemma_retained_keeps(placed: Seq<(Pos, Placed)>, want: Seq<(Pos, Glyph)>, images: Seq<(Glyph, u32)>)
    ensures
        forall|i: int|
            0 <= i < retained(placed, want, images).0.len() ==> keeps(
                want,
                images,
                #[trigger] retained(placed, want, images).0[i],
            ),
        (forall|i: int| 0 <= i < placed.len() ==> keeps(want, images, #[trigger] placed[i])) ==> (
        retained(placed, want, images).0 == placed && retained(placed, want, images).1.len() == 0),
    decreases placed.len(),
{
    if placed.len() > 0 {
        let t = placed.drop_last();
        lemma_retained_keeps(t, want, images);
        let (k, b) = retained(t, want, images);
        let e = placed.last();
        if keeps(want, images, e) {
            assert forall|i: int| 0 <= i < k.push(e).len() implies keeps(
                want,
                images,
                #[trigger] k.push(e)[i],
            ) by {
                if i < k.len() {
                    assert(k.push(e)[i] == k[i]);
                }
            }
        }
        if forall|i: int| 0 <= i < placed.len() ==> keeps(want, images, #[trigger] placed[i]) {
            assert forall|i: int| 0 <= i < t.len() implies keeps(want, images, #[trigger] t[i]) by {
                assert(t[i] == placed[i]);
            }
            assert(keeps(want, images, placed[placed.len() - 1]));
            assert(k.push(e) =~= placed);
        }
    }
}

proof fn lemma_additions_show(
    want: Seq<(Pos, Glyph)>,
    images: Seq<(Glyph, u32)>,
    start: Seq<(Pos, Placed)>,
    pid: u32,
    cw: u32,
    ch: u32,
    n: int,
)
    requires
        unique_positions(want),
        0 <= n <= want.len(),
        forall|i: int| 0 <= i < start.len() ==> keeps(want, images, #[trigger] start[i]),
    ensures
        ({
            let p = additions(want.take(n), images, start, pid, cw, ch).0;
            &&& forall|i: int| 0 <= i < p.len() ==> keeps(want, images, #[trigger] p[i])
            &&& forall|k: int|
                0 <= k < n && image_of(images, want[k].1) is Some ==> has_pos(p, (#[trigger] want[k]).0)
        }),
    decreases n,
{
    if n > 0 {
        lemma_additions_show(want, images, start, pid, cw, ch, n - 1);
        let w = want.take(n);
        assert(w.drop_last() =~= want.take(n - 1));
        assert(w.last() == want[n - 1]);
        let (p, next, bytes) = additions(want.take(n - 1), images, start, pid, cw, ch);
        let (pos, g) = want[n - 1];
        let q = additions(w, images, start, pid, cw, ch).0;
        if !has_pos(p, pos) {
            if let Some(img) = image_of(images, g) {
                let e = (pos, Placed { image: img, pid: next });
                assert(q == p.push(e));
                lemma_at_found(want, pos, n - 1);
                assert(keeps(want, images, e));
                assert forall|i: int| 0 <= i < q.len() implies keeps(want, images, #[trigger] q[i]) by {
                    if i < p.len() {
                        assert(q[i] == p[i]);
                    }
                }
                assert forall|k: int|
                    0 <= k < n && image_of(images, want[k].1) is Some implies has_pos(
                    q,
                    (#[trigger] want[k]).0,
                ) by {
                    if k < n - 1 {
                        let j = choose|j: int| 0 <= j < p.len() && (#[trigger] p[j]).0 == want[k].0;
                        assert(q[j] == p[j]);
                    } else {
                        assert(q[p.len() as int] == e);
                    }
                }
            } else {
                assert(q == p);
            }
        } else {
            assert(q == p);
        }
    }
}

proof fn lemma_additions_none(
    want: Seq<(Pos, Glyph)>,
    images: Seq<(Glyph, u32)>,
    start: Seq<(Pos, Placed)>,
    pid: u32,
    cw: u32,
    ch: u32,
    n: int,
)
    requires
        0 <= n <= want.len(),
        forall|k: int|
            0 <= k < want.len() && image_of(images, want[k].1) is Some ==> has_pos(
                start,
                (#[trigger] want[k]).0,
            ),
    ensures
        additions(want.take(n), images, start, pid, cw, ch) == (start, pid, Seq::<u8>::empty()),
    decreases n,
{
    if n > 0 {
        lemma_additions_none(want, images, start, pid, cw, ch, n - 1);
        let w = want.take(n);
        assert(w.drop_last() =~= want.take(n - 1));
        assert(w.last() == want[n - 1]);
    }
}

/// After a frame is synced, the placements show exactly what was wanted.
pub proof fn law_sync_shows_want(
    placed: Seq<(Pos, Placed)>,
    want: Seq<(Pos, Glyph)>,
    images: Seq<(Glyph, u32)>,
    pid: u32,
    cw: u32,
    ch: u32,
)
    requires
        unique_positions(want),
    ensures
        shows(
            additions(want, images, retained(placed, want, images).0, pid, cw, ch).0,
            want,
            images,
        ),
{
    lemma_retained_keeps(placed, want, images);
    lemma_additions_show(want, images, retained(placed, want, images).0, pid, cw, ch, want.len() as int);
    assert(want.take(want.len() as int) =~= want);
}

/// An unchanged frame sends nothing: when the placements already show
/// what is wanted, syncing keeps them and emits no escapes.
pub proof fn law_unchanged_frame_sends_nothing(
    placed: Seq<(Pos, Placed)>,
    want: Seq<(Pos, Glyph)>,
    images: Seq<(Glyph, u32)>,
    pid: u32,
    cw: u32,
    ch: u32,
)
    requires
        shows(placed, want, images),
    ensures
        sync_bytes(placed, want, images, pid, cw, ch).len() == 0,
        additions(want, images, retained(placed, want, images).0, pid, cw, ch).0 == placed,
{
    lemma_retained_keeps(placed, want, images);
    lemma_additions_none(want, images, placed, pid, cw, ch, want.len() as int);
    assert(want.take(want.len() as int) =~= want);
}

} // verus!
