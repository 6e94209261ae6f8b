use vstd::prelude::*;

verus! {

/// Width of the display in pixels.
pub const WIDTH: usize = 64;

/// Height of the display in pixels.
pub const HEIGHT: usize = 32;

/// Whether bit `b` (0 = leftmost) of a sprite byte is lit.
pub open spec fn sprite_bit(value: u8, b: int) -> bool {
    value & (0x80u8 >> (b as u8)) != 0
}

/// The column hit by bit `b` of a sprite byte blitted at column `x`.
pub open spec fn blit_column(x: u8, b: int) -> int {
    (x + b) % 64
}

/// Whether a sprite byte blitted at column `x` touches column `cx`.
pub open spec fn touches(x: u8, cx: int) -> bool {
    exists|b: int| 0 <= b < 8 && cx == blit_column(x, b)
}

/// The 64x32 monochrome framebuffer.
///
/// Sprites are drawn by XOR; a blit reports a collision when it erases a
/// lit pixel.  The `updated` flag is set by every write and is meant to be
/// cleared by the host once it has redrawn the frame.
pub struct Display {
    vram: [[bool; HEIGHT]; WIDTH],
    /// Set whenever the frame may have changed; the host clears it.
    pub updated: bool,
}

impl Display {
    /// Whether an update is pending, for use in contracts.
    pub closed spec fn spec_updated(self) -> bool {
        self.updated
    }

    /// The pixel at column `x`, row `y`, for use in contracts.
    pub closed spec fn pixel(self, x: int, y: int) -> bool {
        self.vram@[x]@[y]
    }

    /// Whether blitting `value` at `(x, y)` would erase a lit pixel.
    pub open spec fn collides(self, x: u8, y: u8, value: u8) -> bool {
        exists|b: int|
            0 <= b < 8 && sprite_bit(value, b) && self.pixel(blit_column(x, b), (y % 32) as int)
    }

    /// A display with every pixel off and no update pending.
    pub fn new() -> (r: Self)
        ensures
            forall|x: int, y: int| 0 <= x < 64 && 0 <= y < 32 ==> !r.pixel(x, y),
            !r.spec_updated(),
    {
        Display { vram: [[false; HEIGHT]; WIDTH], updated: false }
    }

    /// Clear every pixel and flag the frame as updated.
    pub fn clear(&mut self)
        ensures
            forall|x: int, y: int| 0 <= x < 64 && 0 <= y < 32 ==> !final(self).pixel(x, y),
            final(self).spec_updated(),
    {
        self.updated = true;
        self.vram = [[false; HEIGHT]; WIDTH];
    }

    /// Blit one sprite byte: XOR its eight bits into row `y mod 32`,
    /// starting at column `x` and wrapping columns modulo 64.
    ///
    /// Returns 1 when some lit pixel was erased by the XOR, otherwise 0.
    pub fn set(&mut self, x: u8, y: u8, value: u8) -> (r: u8)
        ensures
            r == (if old(self).collides(x, y, value) {
                1u8
            } else {
                0u8
            }),
            final(self).spec_updated(),
            forall|b: int|
                0 <= b < 8 ==> final(self).pixel(blit_column(x, b), (y % 32) as int) == (old(
                    self,
                ).pixel(blit_column(x, b), (y % 32) as int) != sprite_bit(value, b)),
            forall|cx: int, cy: int|
                0 <= cx < 64 && 0 <= cy < 32 && !(cy == y % 32 && touches(x, cx))
                    ==> final(self).pixel(cx, cy) == old(self).pixel(cx, cy),
    {
        self.updated = true;
        let yy = (y % 32) as usize;
        let x0 = (x % 64) as usize;
        let mut result: u8 = 0;
        proof {
            lemma_blit_columns_shifted(x);
        }
        let mut b: usize = 0;
        while b < 8
            invariant
                b <= 8,
                yy == y % 32,
                x0 == x % 64,
                x0 < 64,
                self.spec_updated(),
                forall|bb: int| 0 <= bb < 8 ==> blit_column(x, bb) == shifted_column(x0 as int, bb),
                forall|bb: int|
                    0 <= bb < b ==> self.pixel(blit_column(x, bb), yy as int) == (old(self).pixel(
                        blit_column(x, bb),
                        yy as int,
                    ) != sprite_bit(value, bb)),
                forall|cx: int, cy: int|
                    0 <= cx < 64 && 0 <= cy < 32 && !(cy == yy && (exists|bb: int|
                        0 <= bb < b && cx == blit_column(x, bb))) ==> self.pixel(cx, cy) == old(
                        self,
                    ).pixel(cx, cy),
                result == (if exists|bb: int|
                    0 <= bb < b && sprite_bit(value, bb) && old(self).pixel(
                        blit_column(x, bb),
                        yy as int,
                    ) {
                    1u8
                } else {
                    0u8
                }),
            decreases 8 - b,
        {
            let col = if x0 + b < 64 {
                x0 + b
            } else {
                x0 + b - 64
            };
            proof {
                assert(col == shifted_column(x0 as int, b as int));
                assert(forall|bb: int| 0 <= bb < b ==> col != blit_column(x, bb));
            }
            let mask: u8 = 0x80u8 >> (b as u8);
            let pix = (value & mask) != 0;
            let old_px = self.vram[col][yy];
            proof {
                assert(old_px == old(self).pixel(blit_column(x, b as int), yy as int));
                assert(pix == sprite_bit(value, b as int));
            }
            if old_px && pix {
                result = 1;
                proof {
                    assert(sprite_bit(value, b as int) && old(self).pixel(
                        blit_column(x, b as int),
                        yy as int,
                    ));
                }
            }
            self.vram[col][yy] = old_px != pix;
            proof {
                assert(self.pixel(blit_column(x, b as int), yy as int) == (old(self).pixel(
                    blit_column(x, b as int),
                    yy as int,
                ) != sprite_bit(value, b as int)));
            }
            b = b + 1;
        }
        result
    }

    /// Read the pixel at column `x`, row `y`.
    pub fn get(&self, x: usize, y: usize) -> (r: bool)
        requires
            x < 64,
            y < 32,
        ensures
            r == self.pixel(x as int, y as int),
    {
        self.vram[x][y]
    }

    /// The whole framebuffer, column-major: `r[x][y]` is the pixel
    /// at column `x`, row `y`.
    pub fn get_vram(&self) -> (r: &[[bool; HEIGHT]; WIDTH])
        ensures
            forall|x: int, y: int|
                0 <= x < 64 && 0 <= y < 32 ==> r@[x]@[y] == self.pixel(x, y),
    {
        &self.vram
    }
}

/// The column hit by bit `b`, written without the modulo: either
/// `x0 + b` or wrapped once past the right edge.
pub open spec fn shifted_column(x0: int, b: int) -> int {
    if x0 + b < 64 {
        x0 + b
    } else {
        x0 + b - 64
    }
}

/// For a sprite at column `x`, the wrapped column of each bit agrees with
/// the piecewise form over `x % 64`.
proof fn lemma_blit_columns_shifted(x: u8)
    ensures
        forall|b: int| 0 <= b < 8 ==> blit_column(x, b) == shifted_column((x % 64) as int, b),
{
    assert forall|b: int| 0 <= b < 8 implies blit_column(x, b) == shifted_column(
        (x % 64) as int,
        b,
    ) by {
        let x0 = (x % 64) as int;
        vstd::arithmetic::div_mod::lemma_add_mod_noop(x as int, b, 64);
        vstd::arithmetic::div_mod::lemma_small_mod(b as nat, 64);
        assert((x + b) % 64 == (x0 + b) % 64);
        if x0 + b < 64 {
            vstd::arithmetic::div_mod::lemma_small_mod((x0 + b) as nat, 64);
        } else {
            assert((x0 + b) % 64 == (x0 + b - 64) % 64) by {
                vstd::arithmetic::div_mod::lemma_mod_sub_multiples_vanish(x0 + b, 64);
            }
            vstd::arithmetic::div_mod::lemma_small_mod((x0 + b - 64) as nat, 64);
        }
    }
}

/// Every byte other than zero has some lit sprite bit.
proof fn lemma_nonzero_has_bit(v: u8)
    requires
        v != 0,
    ensures
        exists|b: int| 0 <= b < 8 && sprite_bit(v, b),
{
    assert(v & (0x80u8 >> 0u8) != 0 || v & (0x80u8 >> 1u8) != 0 || v & (0x80u8 >> 2u8) != 0 || v
        & (0x80u8 >> 3u8) != 0 || v & (0x80u8 >> 4u8) != 0 || v & (0x80u8 >> 5u8) != 0 || v & (
    0x80u8 >> 6u8) != 0 || v & (0x80u8 >> 7u8) != 0) by (bit_vector)
        requires
            v != 0,
    ;
    if v & (0x80u8 >> 0u8) != 0 {
        assert(sprite_bit(v, 0));
    } else if v & (0x80u8 >> 1u8) != 0 {
        assert(sprite_bit(v, 1));
    } else if v & (0x80u8 >> 2u8) != 0 {
        assert(sprite_bit(v, 2));
    } else if v & (0x80u8 >> 3u8) != 0 {
        assert(sprite_bit(v, 3));
    } else if v & (0x80u8 >> 4u8) != 0 {
        assert(sprite_bit(v, 4));
    } else if v & (0x80u8 >> 5u8) != 0 {
        assert(sprite_bit(v, 5));
    } else if v & (0x80u8 >> 6u8) != 0 {
        assert(sprite_bit(v, 6));
    } else {
        assert(sprite_bit(v, 7));
    }
}

/// A blit onto a fully cleared display never collides.
pub proof fn lemma_no_collision_on_clear(d: Display, x: u8, y: u8, value: u8)
    requires
        forall|cx: int, cy: int| 0 <= cx < 64 && 0 <= cy < 32 ==> !d.pixel(cx, cy),
    ensures
        !d.collides(x, y, value),
{
    assert forall|b: int| 0 <= b < 8 implies !(sprite_bit(value, b) && d.pixel(
        blit_column(x, b),
        (y % 32) as int,
    )) by {
        vstd::arithmetic::div_mod::lemma_mod_bound(x + b, 64);
    }
}

/// Blitting the same byte twice onto a cleared display: the first blit
/// draws the byte's bits and cannot collide; the second collides exactly
/// when the byte has a lit bit, and puts every pixel of the row back off.
pub proof fn lemma_blit_twice_restores(
    d0: Display,
    d1: Display,
    d2: Display,
    x: u8,
    y: u8,
    value: u8,
)
    requires
        forall|cx: int, cy: int| 0 <= cx < 64 && 0 <= cy < 32 ==> !d0.pixel(cx, cy),
        forall|b: int|
            0 <= b < 8 ==> d1.pixel(blit_column(x, b), (y % 32) as int) == (d0.pixel(
                blit_column(x, b),
                (y % 32) as int,
            ) != sprite_bit(value, b)),
        forall|b: int|
            0 <= b < 8 ==> d2.pixel(blit_column(x, b), (y % 32) as int) == (d1.pixel(
                blit_column(x, b),
                (y % 32) as int,
            ) != sprite_bit(value, b)),
    ensures
        !d0.collides(x, y, value),
        d1.collides(x, y, value) <==> value != 0,
        forall|b: int| 0 <= b < 8 ==> !d2.pixel(blit_column(x, b), (y % 32) as int),
{
    lemma_no_collision_on_clear(d0, x, y, value);
    assert forall|b: int| 0 <= b < 8 implies !d2.pixel(blit_column(x, b), (y % 32) as int) by {
        vstd::arithmetic::div_mod::lemma_mod_bound(x + b, 64);
        assert(0 <= blit_column(x, b) < 64);
        assert(!d0.pixel(blit_column(x, b), (y % 32) as int));
        assert(d1.pixel(blit_column(x, b), (y % 32) as int) == sprite_bit(value, b));
    }
    if value != 0 {
        lemma_nonzero_has_bit(value);
        let b = choose|b: int| 0 <= b < 8 && sprite_bit(value, b);
        vstd::arithmetic::div_mod::lemma_mod_bound(x + b, 64);
        assert(d1.pixel(blit_column(x, b), (y % 32) as int));
    } else {
        assert forall|b: int| 0 <= b < 8 implies !sprite_bit(value, b) by {
            assert(0u8 & (0x80u8 >> (b as u8)) == 0) by (bit_vector);
        }
    }
}

} // verus!
