use vstd::prelude::*;
use crate::ppu::{Ppu, PpuModel, palette_rgb, tile_color, paint_row, set_pixel_fb, palette_color,
    lemma_paint_row_set, lemma_paint_row_ext, rgba_byte};
use vstd::arithmetic::div_mod::lemma_fundamental_div_mod_converse;

verus! {

impl PpuModel {
    /// Sprite height in lines: 16 in 8x16 mode, else 8.
    pub open spec fn sprite_height(self) -> int {
        if self.lcdc & 0x04 != 0 { 16 } else { 8 }
    }

    /// The screen line of the top of OAM entry i.
    pub open spec fn sprite_top(self, i: int) -> int {
        self.oam[4 * i] - 16
    }

    /// The X byte of OAM entry i (the screen column of its left edge, plus 8).
    pub open spec fn sprite_xbyte(self, i: int) -> u8 {
        self.oam[4 * i + 1]
    }

    pub open spec fn sprite_attr(self, i: int) -> u8 {
        self.oam[4 * i + 3]
    }

    /// Whether OAM entry i covers the current line.
    pub open spec fn on_line(self, i: int) -> bool {
        self.sprite_top(i) <= self.ly < self.sprite_top(i) + self.sprite_height()
    }

    /// The OAM entries among the first n that the line shows, in OAM order,
    /// at most ten of them.
    pub open spec fn visible_upto(self, n: int) -> Seq<int>
        decreases n,
    {
        if n <= 0 {
            Seq::empty()
        } else {
            let v = self.visible_upto(n - 1);
            if v.len() < 10 && self.on_line(n - 1) { v.push(n - 1) } else { v }
        }
    }

    /// The (at most ten) sprites selected for the current line.
    pub open spec fn visible(self) -> Seq<int> {
        self.visible_upto(40)
    }

    /// The tile row (0..8) and tile number that OAM entry i draws on the current line.
    pub open spec fn sprite_tile_row(self, i: int) -> (int, u8) {
        let line0 = self.ly - self.sprite_top(i);
        let line = if self.sprite_attr(i) & 0x40 != 0 { self.sprite_height() - 1 - line0 } else { line0 };
        let tile = self.oam[4 * i + 2];
        if self.lcdc & 0x04 != 0 {
            if line >= 8 { (line - 8, (tile & 0xFE) | 1) } else { (line, tile & 0xFE) }
        } else {
            (line, tile)
        }
    }

    /// The colour number OAM entry i has at screen column x of the current line.
    pub open spec fn sprite_color_num(self, i: int, x: int) -> u8 {
        let px = x - (self.sprite_xbyte(i) - 8);
        let bit = if self.sprite_attr(i) & 0x20 != 0 { px } else { 7 - px };
        let (line, tile) = self.sprite_tile_row(i);
        tile_color(self.vram, 0x8000 + tile * 16 + line * 2, bit as u8)
    }

    /// Whether OAM entry i would draw a pixel at column x: it covers x, the
    /// pixel is not transparent, and it is not hidden behind the background.
    pub open spec fn paints(self, i: int, x: int) -> bool {
        let sx = self.sprite_xbyte(i) - 8;
        &&& sx <= x < sx + 8
        &&& self.sprite_color_num(i, x) != 0
        &&& !(self.sprite_attr(i) & 0x80 != 0 && self.bg_index(x) != 0)
    }

    /// The colour OAM entry i draws at column x.
    pub open spec fn sprite_rgb(self, i: int, x: int) -> (u8, u8, u8) {
        let pal = if self.sprite_attr(i) & 0x10 != 0 { self.obp1 } else { self.obp0 };
        palette_rgb(pal, self.sprite_color_num(i, x))
    }

    /// Whether sprite i is drawn over sprite j: the smaller X wins, and of
    /// two at the same X the later OAM entry wins.
    pub open spec fn beats(self, i: int, j: int) -> bool {
        self.sprite_xbyte(i) < self.sprite_xbyte(j)
            || (self.sprite_xbyte(i) == self.sprite_xbyte(j) && i > j)
    }

    /// Whether sprite i is the one shown at column x of the current line.
    pub open spec fn is_shown(self, i: int, x: int) -> bool {
        &&& self.visible().contains(i)
        &&& self.paints(i, x)
        &&& forall|j: int| #![trigger self.paints(j, x)]
            self.visible().contains(j) && self.paints(j, x) && j != i ==> self.beats(i, j)
    }

    /// The colour of column x with sprites drawn over the background.
    pub open spec fn composed_rgb(self, x: int) -> (u8, u8, u8) {
        if exists|i: int| self.is_shown(i, x) {
            self.sprite_rgb(choose|i: int| self.is_shown(i, x), x)
        } else {
            self.bg_rgb(x)
        }
    }

    /// Column x after drawing the first t sprites of `order` over the background.
    pub open spec fn layer(self, order: Seq<(u8, usize)>, t: int, x: int) -> (u8, u8, u8)
        decreases t,
    {
        if t <= 0 {
            self.bg_rgb(x)
        } else if self.paints(order[t - 1].1 as int, x) {
            self.sprite_rgb(order[t - 1].1 as int, x)
        } else {
            self.layer(order, t - 1, x)
        }
    }

    /// The position in `order`, below t, of the last sprite that paints x (-1 if none).
    pub open spec fn top(self, order: Seq<(u8, usize)>, t: int, x: int) -> int
        decreases t,
    {
        if t <= 0 {
            -1
        } else if self.paints(order[t - 1].1 as int, x) {
            t - 1
        } else {
            self.top(order, t - 1, x)
        }
    }

    /// `order` lists the visible sprites in drawing order: lowest priority first.
    pub open spec fn is_draw_order(self, order: Seq<(u8, usize)>) -> bool {
        &&& forall|a: int| 0 <= a < order.len() ==> order[a].0 == self.sprite_xbyte(order[a].1 as int)
        &&& forall|a: int, b: int| 0 <= a < b < order.len()
            ==> self.beats(order[b].1 as int, order[a].1 as int)
        &&& forall|a: int| 0 <= a < order.len() ==> self.visible().contains(#[trigger] order[a].1 as int)
        &&& forall|i: int| self.visible().contains(i) ==> exists|a: int| 0 <= a < order.len() && order[a].1 == i
    }
}

proof fn lemma_top(p: PpuModel, order: Seq<(u8, usize)>, t: int, x: int)
    requires
        0 <= t <= order.len(),
    ensures
        -1 <= p.top(order, t, x) < t,
        p.top(order, t, x) >= 0 ==> p.paints(order[p.top(order, t, x)].1 as int, x),
        forall|a: int| p.top(order, t, x) < a < t ==> !p.paints(#[trigger] order[a].1 as int, x),
        p.layer(order, t, x) == (if p.top(order, t, x) >= 0 {
            p.sprite_rgb(order[p.top(order, t, x)].1 as int, x)
        } else {
            p.bg_rgb(x)
        }),
    decreases t,
{
    if t > 0 {
        lemma_top(p, order, t - 1, x);
    }
}

/// Painting the sprites in drawing order leaves, at each column, the sprite
/// that wins priority there.
proof fn lemma_layer_is_composed(p: PpuModel, order: Seq<(u8, usize)>, x: int)
    requires
        p.is_draw_order(order),
    ensures
        p.layer(order, order.len() as int, x) == p.composed_rgb(x),
{
    let n = order.len() as int;
    lemma_top(p, order, n, x);
    let m = p.top(order, n, x);
    if m >= 0 {
        let i0 = order[m].1 as int;
        assert forall|j: int| #![trigger p.paints(j, x)]
            p.visible().contains(j) && p.paints(j, x) && j != i0 implies p.beats(i0, j) by {
            let a = choose|a: int| 0 <= a < order.len() && order[a].1 == j;
            if a > m {
                assert(!p.paints(order[a].1 as int, x));
            }
            assert(a != m);
        }
        assert(p.is_shown(i0, x));
        let c = choose|i: int| p.is_shown(i, x);
        if c != i0 {
            assert(p.beats(c, i0));
            assert(p.beats(i0, c));
        }
    } else {
        assert forall|i: int| !p.is_shown(i, x) by {
            if p.is_shown(i, x) {
                let a = choose|a: int| 0 <= a < order.len() && order[a].1 == i;
                assert(!p.paints(order[a].1 as int, x));
            }
        }
    }
}

impl PpuModel {
    proof fn lemma_visible_len(self, n: int)
        ensures
            self.visible_upto(n).len() <= 10,
            forall|a: int| 0 <= a < self.visible_upto(n).len() ==> 0 <= #[trigger] self.visible_upto(n)[a] < n,
            forall|a: int, b: int| 0 <= a < b < self.visible_upto(n).len()
                ==> self.visible_upto(n)[a] < self.visible_upto(n)[b],
        decreases n,
    {
        if n > 0 {
            self.lemma_visible_len(n - 1);
        }
    }

    proof fn lemma_visible_full(self, n: int, m: int)
        requires
            n <= m,
            self.visible_upto(n).len() >= 10,
        ensures
            self.visible_upto(m) == self.visible_upto(n),
        decreases m - n,
    {
        if m > n {
            self.lemma_visible_full(n, m - 1);
        }
    }
}

impl Ppu {
    /// Draws the sprites of the current line over the background that was
    /// drawn from `start`.
    pub(crate) fn render_sprites(&mut self, ly: u8, bg_color_idx: &[u8; 160], Ghost(start): Ghost<PpuModel>)
        requires
            old(self).wf(),
            start.wf(),
            ly == start.ly,
            ly < 144,
            old(self)@ == (PpuModel {
                framebuffer: paint_row(start.framebuffer, ly as int, 160, |c: int| start.bg_rgb(c)),
                window_line: old(self)@.window_line,
                ..start
            }),
            forall|c: int| 0 <= c < 160 ==> bg_color_idx@[c] == start.bg_index(c),
        ensures
            final(self)@ == (PpuModel {
                framebuffer: paint_row(start.framebuffer, ly as int, 160, |c: int| start.composed_rgb(c)),
                ..old(self)@
            }),
    {
        let tall = self.lcdc & 0x04 != 0;
        let sprite_h: i16 = if tall { 16 } else { 8 };

        // Select up to ten sprites on this line, keeping them in drawing order
        // (highest X first; of equal X, OAM order).
        let mut order: Vec<(u8, usize)> = Vec::new();
        let mut i: usize = 0;
        proof {
            start.lemma_visible_len(0);
        }
        while i < 40
            invariant_except_break
                0 <= i <= 40,
                order.len() < 10,
                order.len() == start.visible_upto(i as int).len(),
                forall|a: int| 0 <= a < order.len() ==> (order@[a].1 as int) < i,
                forall|a: int| 0 <= a < order.len()
                    ==> start.visible_upto(i as int).contains(#[trigger] order@[a].1 as int),
                forall|j: int| start.visible_upto(i as int).contains(j)
                    ==> exists|a: int| 0 <= a < order.len() && order@[a].1 == j,
            invariant
                self@ == old(self)@,
                old(self)@ == (PpuModel {
                    framebuffer: paint_row(start.framebuffer, ly as int, 160, |c: int| start.bg_rgb(c)),
                    window_line: old(self)@.window_line,
                    ..start
                }),
                start.wf(),
                ly == start.ly,
                sprite_h == start.sprite_height(),
                tall == (start.lcdc & 0x04 != 0),
                forall|a: int| 0 <= a < order.len() ==> order@[a].0 == start.sprite_xbyte(order@[a].1 as int),
                forall|a: int, b: int| 0 <= a < b < order.len()
                    ==> start.beats(order@[b].1 as int, order@[a].1 as int),
            ensures
                start.is_draw_order(order@),
            decreases 40 - i,
        {
            let base = i * 4;
            let sy = self.oam[base] as i16 - 16;
            proof {
                start.lemma_visible_len(i as int);
                start.lemma_visible_len(i as int + 1);
            }
            assert(self.oam@[base as int] == start.oam[4 * i]);
            if (ly as i16) >= sy && (ly as i16) < sy + sprite_h {
                assert(start.on_line(i as int));
                let xb = self.oam[base + 1];
                let mut k: usize = 0;
                while k < order.len() && order[k].0 >= xb
                    invariant
                        0 <= k <= order.len(),
                        forall|a: int| 0 <= a < k ==> order@[a].0 >= xb,
                    decreases order.len() - k,
                {
                    k += 1;
                }
                let ghost old_order = order@;
                order.insert(k, (xb, i));
                proof {
                    lemma_insert_in_order(start, old_order, k as int, xb, i as int);
                }
                if order.len() >= 10 {
                    proof {
                        start.lemma_visible_full(i as int + 1, 40);
                    }
                    break;
                }
            } else {
                proof {
                    assert(!start.on_line(i as int));
                    assert(start.visible_upto(i as int + 1) == start.visible_upto(i as int));
                }
            }
            i += 1;
        }

        // Draw them, lowest priority first, so that the winner is drawn last.
        proof {
            assert forall|c: int| 0 <= c < 160 implies
                #[trigger] start.layer(order@, 0, c) == start.bg_rgb(c) by {}
            lemma_paint_row_ext(start.framebuffer, ly as int, 160,
                |c: int| start.bg_rgb(c), |c: int| start.layer(order@, 0, c));
        }
        let mut t: usize = 0;
        while t < order.len()
            invariant
                self.wf(),
                old(self)@ == (PpuModel {
                    framebuffer: paint_row(start.framebuffer, ly as int, 160, |c: int| start.bg_rgb(c)),
                    window_line: old(self)@.window_line,
                    ..start
                }),
                start.wf(),
                ly == start.ly,
                ly < 144,
                sprite_h == start.sprite_height(),
                tall == (start.lcdc & 0x04 != 0),
                start.is_draw_order(order@),
                0 <= t <= order.len(),
                forall|c: int| 0 <= c < 160 ==> bg_color_idx@[c] == start.bg_index(c),
                self@ == (PpuModel {
                    framebuffer: paint_row(start.framebuffer, ly as int, 160,
                        |c: int| start.layer(order@, t as int, c)),
                    ..old(self)@
                }),
            decreases order.len() - t,
        {
            let ghost s = order@[t as int].1 as int;
            proof {
                assert(start.visible().contains(s));
                start.lemma_visible_len(40);
                let vi = choose|c: int| 0 <= c < start.visible().len() && start.visible()[c] == s;
                lemma_visible_on_line(start, 40, vi);
            }
            let base = order[t].1 * 4;
            let sy = self.oam[base] as i16 - 16;
            let sx = self.oam[base + 1] as i16 - 8;
            let mut tile_num = self.oam[base + 2];
            let attr = self.oam[base + 3];
            let behind_bg = attr & 0x80 != 0;
            let yflip = attr & 0x40 != 0;
            let xflip = attr & 0x20 != 0;
            let palette = if attr & 0x10 != 0 { self.obp1 } else { self.obp0 };
            let mut line = ly as i16 - sy;
            if yflip {
                line = sprite_h - 1 - line;
            }
            if tall {
                tile_num &= 0xFE;
                if line >= 8 {
                    tile_num |= 1;
                    line -= 8;
                }
            }
            assert((line as int, tile_num) == start.sprite_tile_row(s));
            let tile_addr = 0x8000u16 + (tile_num as u16) * 16 + (line as u16) * 2;
            let lo = self.vram[(tile_addr - 0x8000) as usize];
            let hi = self.vram[(tile_addr + 1 - 0x8000) as usize];
            proof {
                lemma_paint_row_ext(start.framebuffer, ly as int, 160,
                    |c: int| start.layer(order@, t as int, c),
                    |c: int| if sx <= c < sx + 0 && start.paints(s, c) {
                        start.sprite_rgb(s, c)
                    } else {
                        start.layer(order@, t as int, c)
                    });
            }
            let mut px: i16 = 0;
            while px < 8
                invariant
                    self.wf(),
                    old(self)@ == (PpuModel {
                        framebuffer: paint_row(start.framebuffer, ly as int, 160, |c: int| start.bg_rgb(c)),
                        window_line: old(self)@.window_line,
                        ..start
                    }),
                    start.wf(),
                    ly == start.ly,
                    ly < 144,
                    0 <= px <= 8,
                    0 <= t < order.len(),
                    s == order@[t as int].1 as int,
                    0 <= s < 40,
                    sx == start.sprite_xbyte(s) - 8,
                    behind_bg == (start.sprite_attr(s) & 0x80 != 0),
                    xflip == (start.sprite_attr(s) & 0x20 != 0),
                    palette == (if start.sprite_attr(s) & 0x10 != 0 { start.obp1 } else { start.obp0 }),
                    0x8000 <= tile_addr <= 0x9FFE,
                    tile_addr as int == 0x8000 + start.sprite_tile_row(s).1 * 16 + start.sprite_tile_row(s).0 * 2,
                    lo == start.vram[tile_addr - 0x8000],
                    hi == start.vram[tile_addr + 1 - 0x8000],
                    forall|c: int| 0 <= c < 160 ==> bg_color_idx@[c] == start.bg_index(c),
                    self@ == (PpuModel {
                        framebuffer: paint_row(start.framebuffer, ly as int, 160,
                            |c: int| if sx <= c < sx + px && start.paints(s, c) {
                                start.sprite_rgb(s, c)
                            } else {
                                start.layer(order@, t as int, c)
                            }),
                        ..old(self)@
                    }),
                decreases 8 - px,
            {
                let bit: u8 = if xflip { px as u8 } else { (7 - px) as u8 };
                let color_num = (((hi >> bit) & 1) << 1) | ((lo >> bit) & 1);
                let screen_x = sx + px;
                let ghost f_old = |c: int| if sx <= c < sx + px && start.paints(s, c) {
                    start.sprite_rgb(s, c)
                } else {
                    start.layer(order@, t as int, c)
                };
                let ghost f_new = |c: int| if sx <= c < sx + px + 1 && start.paints(s, c) {
                    start.sprite_rgb(s, c)
                } else {
                    start.layer(order@, t as int, c)
                };
                if color_num != 0 && screen_x >= 0 && screen_x < 160 {
                    if !(behind_bg && bg_color_idx[screen_x as usize] != 0) {
                        assert(color_num == start.sprite_color_num(s, screen_x as int));
                        assert(color_num <= 3) by (bit_vector)
                            requires color_num == (((hi >> bit) & 1) << 1) | ((lo >> bit) & 1);
                        let color = palette_color(palette, color_num);
                        proof {
                            assert(start.paints(s, screen_x as int));
                            lemma_paint_row_set(start.framebuffer, ly as int, f_old, f_new, screen_x as int);
                        }
                        self.set_pixel(screen_x as usize, ly as usize, color);
                    } else {
                        proof {
                            assert(!start.paints(s, screen_x as int));
                            lemma_paint_row_ext(start.framebuffer, ly as int, 160, f_old, f_new);
                        }
                    }
                } else {
                    proof {
                        if 0 <= screen_x < 160 {
                            assert(color_num == start.sprite_color_num(s, screen_x as int));
                        }
                        lemma_paint_row_ext(start.framebuffer, ly as int, 160, f_old, f_new);
                    }
                }
                px += 1;
            }
            proof {
                lemma_paint_row_ext(start.framebuffer, ly as int, 160,
                    |c: int| if sx <= c < sx + 8 && start.paints(s, c) {
                        start.sprite_rgb(s, c)
                    } else {
                        start.layer(order@, t as int, c)
                    },
                    |c: int| start.layer(order@, t as int + 1, c));
            }
            t += 1;
        }
        proof {
            assert forall|c: int| 0 <= c < 160 implies
                start.layer(order@, order.len() as int, c) == start.composed_rgb(c) by {
                lemma_layer_is_composed(start, order@, c);
            }
            lemma_paint_row_ext(start.framebuffer, ly as int, 160,
                |c: int| start.layer(order@, order.len() as int, c), |c: int| start.composed_rgb(c));
        }
    }
}

/// Inserting sprite i, the next sprite on the line, at the first position
/// whose X is below its own keeps the list in drawing order.
proof fn lemma_insert_in_order(start: PpuModel, old_order: Seq<(u8, usize)>, k: int, xb: u8, i: int)
    requires
        0 <= k <= old_order.len(),
        0 <= i < 40,
        old_order.len() < 10,
        start.on_line(i),
        xb == start.sprite_xbyte(i),
        old_order.len() == start.visible_upto(i).len(),
        forall|a: int| 0 <= a < k ==> old_order[a].0 >= xb,
        k < old_order.len() ==> old_order[k].0 < xb,
        forall|a: int| 0 <= a < old_order.len() ==> old_order[a].0 == start.sprite_xbyte(old_order[a].1 as int),
        forall|a: int| 0 <= a < old_order.len() ==> (old_order[a].1 as int) < i,
        forall|a: int, b: int| 0 <= a < b < old_order.len()
            ==> start.beats(old_order[b].1 as int, old_order[a].1 as int),
        forall|a: int| 0 <= a < old_order.len()
            ==> start.visible_upto(i).contains(#[trigger] old_order[a].1 as int),
        forall|j: int| start.visible_upto(i).contains(j)
            ==> exists|a: int| 0 <= a < old_order.len() && old_order[a].1 == j,
    ensures
        ({
            let new_order = old_order.insert(k, (xb, i as usize));
            &&& new_order.len() == start.visible_upto(i + 1).len()
            &&& forall|a: int| 0 <= a < new_order.len() ==> new_order[a].0 == start.sprite_xbyte(new_order[a].1 as int)
            &&& forall|a: int| 0 <= a < new_order.len() ==> (new_order[a].1 as int) < i + 1
            &&& forall|a: int, b: int| 0 <= a < b < new_order.len()
                ==> start.beats(new_order[b].1 as int, new_order[a].1 as int)
            &&& forall|a: int| 0 <= a < new_order.len()
                ==> start.visible_upto(i + 1).contains(#[trigger] new_order[a].1 as int)
            &&& forall|j: int| #[trigger] start.visible_upto(i + 1).contains(j)
                ==> exists|a: int| 0 <= a < new_order.len() && new_order[a].1 == j
        }),
{
    let new_order = old_order.insert(k, (xb, i as usize));
                    old_order.insert_ensures(k, (xb, i as usize));
                    let v0 = start.visible_upto(i);
                    let v1 = start.visible_upto(i + 1);
                    assert(v1 == v0.push(i));
                    assert forall|x: int| v0.contains(x) implies v1.contains(x) by {
                        let c = choose|c: int| 0 <= c < v0.len() && v0[c] == x;
                        assert(v1[c] == x);
                    }
                    assert forall|a: int, b: int| 0 <= a < b < new_order.len()
                        implies start.beats(new_order[b].1 as int, new_order[a].1 as int) by {
                        if b < k {
                        } else if b == k {
                            assert(new_order[a] == old_order[a]);
                        } else if a < k {
                            assert(new_order[b] == old_order[b - 1]);
                        } else if a == k {
                            assert(new_order[b] == old_order[b - 1]);
                            if k < old_order.len() {
                                assert(old_order[k].0 < xb);
                                if b - 1 > k {
                                    assert(start.beats(old_order[b - 1].1 as int, old_order[k].1 as int));
                                }
                            }
                        } else {
                            assert(new_order[b] == old_order[b - 1]);
                            assert(new_order[a] == old_order[a - 1]);
                        }
                    }
                    assert forall|a: int| 0 <= a < new_order.len()
                        implies v1.contains(#[trigger] new_order[a].1 as int) by {
                        if a < k {
                            assert(new_order[a] == old_order[a]);
                            assert(v0.contains(old_order[a].1 as int));
                        } else if a > k {
                            assert(new_order[a] == old_order[a - 1]);
                            assert(v0.contains(old_order[a - 1].1 as int));
                        } else {
                            assert(v1[v1.len() - 1] == i);
                        }
                    }
                    assert forall|j: int| v1.contains(j)
                        implies exists|a: int| 0 <= a < new_order.len() && new_order[a].1 == j by {
                        let c = choose|c: int| 0 <= c < v1.len() && v1[c] == j;
                        if c < v0.len() {
                            assert(v0[c] == j);
                            assert(v0.contains(j));
                            let a = choose|a: int| 0 <= a < old_order.len() && old_order[a].1 == j;
                            if a < k {
                                assert(new_order[a].1 == j);
                            } else {
                                assert(new_order[a + 1].1 == j);
                            }
                        } else {
                            assert(new_order[k].1 == j);
                        }
                    }
                    assert forall|a: int| 0 <= a < new_order.len() implies
        new_order[a].0 == start.sprite_xbyte(new_order[a].1 as int) && (new_order[a].1 as int) < i + 1 by {
        if a < k {
            assert(new_order[a] == old_order[a]);
        } else if a > k {
            assert(new_order[a] == old_order[a - 1]);
        }
    }
}

/// At most one sprite is shown at any column.
pub proof fn law_one_sprite_shown(p: PpuModel, x: int, i: int, j: int)
    requires
        p.is_shown(i, x),
        p.is_shown(j, x),
    ensures
        i == j,
{
    if i != j {
        assert(p.beats(i, j));
        assert(p.beats(j, i));
    }
}

/// The sprite shown at a column has the smallest X of all selected sprites
/// that draw a pixel there; among equal X, the later OAM entry.
pub proof fn law_sprite_priority(p: PpuModel, x: int, i: int, j: int)
    requires
        p.is_shown(i, x),
        p.visible().contains(j),
        p.paints(j, x),
        j != i,
    ensures
        p.sprite_xbyte(i) <= p.sprite_xbyte(j),
        p.sprite_xbyte(i) == p.sprite_xbyte(j) ==> i > j,
{
}

/// At most ten sprites are selected per line, the first ten in OAM order
/// that cover it, each one covering it.
pub proof fn law_ten_sprites_per_line(p: PpuModel, a: int)
    requires
        0 <= a < p.visible().len(),
    ensures
        p.visible().len() <= 10,
        p.on_line(p.visible()[a]),
        0 <= p.visible()[a] < 40,
{
    p.lemma_visible_len(40);
    lemma_visible_on_line(p, 40, a);
}

/// Every visible sprite covers the current line and is a valid OAM entry.
proof fn lemma_visible_on_line(p: PpuModel, n: int, a: int)
    requires
        0 <= a < p.visible_upto(n).len(),
    ensures
        p.on_line(p.visible_upto(n)[a]),
        0 <= p.visible_upto(n)[a] < n,
    decreases n,
{
    if n > 0 {
        let v = p.visible_upto(n - 1);
        if a < v.len() {
            lemma_visible_on_line(p, n - 1, a);
        }
    }
}

/// The sprite shown at a column is drawn through OBP1 when bit 4 of its
/// attributes is set and through OBP0 otherwise, and that colour is what the
/// rendered line holds at the column.
pub proof fn law_sprite_palette(p: PpuModel, x: int, i: int, ch: int)
    requires
        p.wf(),
        p.ly < 144,
        p.lcdc & 0x02 != 0,
        0 <= x < 160,
        0 <= ch < 4,
        p.is_shown(i, x),
    ensures
        ({
            let pal = if p.oam[4 * i + 3] & 0x10 != 0 { p.obp1 } else { p.obp0 };
            let rgb = palette_rgb(pal, p.sprite_color_num(i, x));
            &&& p.composed_rgb(x) == rgb
            &&& p.render_line().framebuffer[(p.ly * 160 + x) * 4 + ch] == rgba_byte(rgb, ch)
        }),
{
    let k = choose|k: int| p.is_shown(k, x);
    law_one_sprite_shown(p, x, k, i);
    let idx = (p.ly * 160 + x) * 4 + ch;
    lemma_fundamental_div_mod_converse(idx - p.ly * 640, 4, x, ch);
}

} // verus!
