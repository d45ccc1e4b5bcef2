//! The 64 x 32 monochrome display.

use vstd::prelude::*;

verus! {

/// Pixels per display row.
pub const DISPLAY_WIDTH: usize = 64;

/// Rows of the display.
pub const DISPLAY_HEIGHT: usize = 32;

/// Pixels of the display.
pub const VRAM_SIZE: usize = DISPLAY_WIDTH * DISPLAY_HEIGHT;

/// The index in the row-major pixel buffer of the pixel that the coordinates
/// `(x, y)` address: both wrap around the display's edges.
pub open spec fn pixel_index(x: int, y: int) -> int {
    (x % 64) + (y % 32) * 64
}

fn at(x: usize, y: usize) -> (index: usize)
    ensures
        index == pixel_index(x as int, y as int),
        index < VRAM_SIZE,
{
    (x % DISPLAY_WIDTH) + (y % DISPLAY_HEIGHT) * DISPLAY_WIDTH
}

/// Whether bit `column` of a sprite row is set. Column 0 is the leftmost
/// pixel of the row and the most significant bit of the byte.
pub open spec fn sprite_bit(row: u8, column: int) -> bool {
    (row >> ((7 - column) as u8)) & 1 == 1
}

/// The sprite column that falls on the pixel with index `p` when the
/// sprite's left edge is at `x`: the distance from `x` to the pixel's
/// column, going right and wrapping at the display's edge.
pub open spec fn sprite_column(x: int, p: int) -> int {
    (p % 64 - x % 64) % 64
}

/// Whether the sprite row `row`, drawn with its left edge at `(x, y)`, has
/// a set bit on the pixel with index `p`.
pub open spec fn row_hits(x: int, y: int, row: u8, p: int) -> bool {
    &&& p / 64 == y % 32
    &&& sprite_column(x, p) < 8
    &&& sprite_bit(row, sprite_column(x, p))
}

/// The pixels after one sprite row was drawn at `(x, y)`: each pixel under
/// a set bit is flipped.
pub open spec fn blit_row(pixels: Seq<bool>, x: int, y: int, row: u8) -> Seq<bool> {
    Seq::new(pixels.len(), |p: int| pixels[p] != row_hits(x, y, row, p))
}

/// Whether drawing one sprite row at `(x, y)` puts a set bit on a pixel that
/// is on.
pub open spec fn row_collides(pixels: Seq<bool>, x: int, y: int, row: u8) -> bool {
    exists|p: int| 0 <= p < pixels.len() && pixels[p] && #[trigger] row_hits(x, y, row, p)
}

/// The pixels after a sprite was drawn with its top left corner at
/// `(x, y)`: its rows are drawn in order, one display row apart.
pub open spec fn blit(pixels: Seq<bool>, x: int, y: int, sprite: Seq<u8>) -> Seq<bool>
    decreases sprite.len(),
{
    if sprite.len() == 0 {
        pixels
    } else {
        blit_row(blit(pixels, x, y, sprite.drop_last()), x, y + sprite.len() - 1, sprite.last())
    }
}

/// Whether row `r` of the sprite collides with the pixels that the rows
/// above it have left.
pub open spec fn collides_at_row(pixels: Seq<bool>, x: int, y: int, sprite: Seq<u8>, r: int) -> bool {
    row_collides(blit(pixels, x, y, sprite.take(r)), x, y + r, sprite[r])
}

/// The collision signal of a draw: whether any set bit of the sprite fell
/// on a pixel that was on when that bit was drawn.
pub open spec fn blit_collides(pixels: Seq<bool>, x: int, y: int, sprite: Seq<u8>) -> bool {
    exists|r: int| 0 <= r < sprite.len() && #[trigger] collides_at_row(pixels, x, y, sprite, r)
}

/// The sprite row that falls on the pixel with index `p` when the sprite's
/// top edge is at `y`: the distance from `y` to the pixel's row, going down
/// and wrapping at the display's edge.
pub open spec fn sprite_row(y: int, p: int) -> int {
    (p / 64 - y) % 32
}

/// Whether a sprite of at most 32 rows, drawn at `(x, y)`, has a set bit on
/// the pixel with index `p`.
pub open spec fn sprite_hits(x: int, y: int, sprite: Seq<u8>, p: int) -> bool {
    &&& sprite_row(y, p) < sprite.len()
    &&& sprite_column(x, p) < 8
    &&& sprite_bit(sprite[sprite_row(y, p)], sprite_column(x, p))
}

/// The pixels with each one flipped that lies under a set bit of the sprite.
pub open spec fn stamp(pixels: Seq<bool>, x: int, y: int, sprite: Seq<u8>) -> Seq<bool> {
    Seq::new(pixels.len(), |p: int| pixels[p] != sprite_hits(x, y, sprite, p))
}

/// Whether a pixel that is on lies under a set bit of the sprite.
pub open spec fn overlaps(pixels: Seq<bool>, x: int, y: int, sprite: Seq<u8>) -> bool {
    exists|p: int| 0 <= p < pixels.len() && pixels[p] && #[trigger] sprite_hits(x, y, sprite, p)
}

/// The pixels after the leftmost `columns` bits of a sprite row were drawn.
spec fn blit_columns(pixels: Seq<bool>, x: int, y: int, row: u8, columns: int) -> Seq<bool> {
    Seq::new(
        pixels.len(),
        |p: int| pixels[p] != (row_hits(x, y, row, p) && sprite_column(x, p) < columns),
    )
}

/// Whether one of the leftmost `columns` bits of a sprite row is set and
/// falls on a pixel that is on.
spec fn columns_collide(pixels: Seq<bool>, x: int, y: int, row: u8, columns: int) -> bool {
    exists|p: int|
        0 <= p < pixels.len() && pixels[p] && #[trigger] row_hits(x, y, row, p) && sprite_column(
            x,
            p,
        ) < columns
}

/// Bit `c` of a sprite row at `(x, y)` falls on exactly one pixel.
proof fn lemma_pixel_under(x: int, y: int, c: int, p: int)
    requires
        0 <= c < 64,
        0 <= p < 2048,
    ensures
        (p / 64 == y % 32 && sprite_column(x, p) == c) <==> p == pixel_index(x + c, y),
        0 <= pixel_index(x + c, y) < 2048,
{
}

/// Whether the pixel with index `p` lies under bit `c` of a sprite row at
/// `(x, y)`.
spec fn under(x: int, y: int, c: int, p: int) -> bool {
    p / 64 == y % 32 && sprite_column(x, p) == c
}

/// Bit `c` of a sprite row at `(x, y)` falls on the pixel `(x + c, y)` and
/// on no other.
proof fn lemma_under(x: int, y: int, c: int)
    requires
        0 <= c < 64,
    ensures
        0 <= pixel_index(x + c, y) < 2048,
        pixel_index(x + c, y) == pixel_index((x % 64 + c) % 64, y % 32),
        forall|p: int| 0 <= p < 2048 ==> (#[trigger] under(x, y, c, p) <==> p == pixel_index(x + c, y)),
{
    assert forall|p: int| 0 <= p < 2048 implies (#[trigger] under(x, y, c, p) <==> p == pixel_index(
        x + c,
        y,
    )) by {
        lemma_pixel_under(x, y, c, p);
    }
    lemma_pixel_under(x, y, c, 0);
}

/// Drawing bit `c` of a sprite row changes the one pixel under it.
proof fn lemma_draw_column(pixels: Seq<bool>, x: int, y: int, row: u8, c: int)
    requires
        pixels.len() == 2048,
        0 <= c < 8,
    ensures
        0 <= pixel_index(x + c, y) < 2048,
        pixel_index(x + c, y) == pixel_index((x % 64 + c) % 64, y % 32),
        blit_columns(pixels, x, y, row, c)[pixel_index(x + c, y)] == pixels[pixel_index(x + c, y)],
        blit_columns(pixels, x, y, row, c + 1) == blit_columns(pixels, x, y, row, c).update(
            pixel_index(x + c, y),
            pixels[pixel_index(x + c, y)] != sprite_bit(row, c),
        ),
        columns_collide(pixels, x, y, row, c + 1) == (columns_collide(pixels, x, y, row, c) || (
            pixels[pixel_index(x + c, y)] && sprite_bit(row, c))),
{
    let index = pixel_index(x + c, y);
    let lit = pixels[index];
    let bit = sprite_bit(row, c);
    lemma_under(x, y, c);
    assert(under(x, y, c, index));
    let before = blit_columns(pixels, x, y, row, c);
    let after = blit_columns(pixels, x, y, row, c + 1);
    assert forall|p: int| 0 <= p < 2048 implies #[trigger] after[p] == before.update(
        index,
        lit != bit,
    )[p] by {
        assert(under(x, y, c, p) <==> p == index);
    }
    assert(after =~= before.update(index, lit != bit));
    if columns_collide(pixels, x, y, row, c + 1) {
        let p = choose|p: int|
            0 <= p < pixels.len() && pixels[p] && #[trigger] row_hits(x, y, row, p)
                && sprite_column(x, p) < c + 1;
        assert(under(x, y, c, p) <==> p == index);
        if p != index {
            assert(row_hits(x, y, row, p) && sprite_column(x, p) < c);
        }
    }
    if columns_collide(pixels, x, y, row, c) {
        let p = choose|p: int|
            0 <= p < pixels.len() && pixels[p] && #[trigger] row_hits(x, y, row, p)
                && sprite_column(x, p) < c;
        assert(row_hits(x, y, row, p) && sprite_column(x, p) < c + 1);
    }
    if lit && bit {
        assert(row_hits(x, y, row, index) && sprite_column(x, index) < c + 1);
    }
}

/// Drawing the first `r + 1` rows of a sprite is drawing the first `r` and
/// then row `r`.
proof fn lemma_blit_next_row(pixels: Seq<bool>, x: int, y: int, sprite: Seq<u8>, r: int)
    requires
        0 <= r < sprite.len(),
    ensures
        blit(pixels, x, y, sprite.take(r + 1)) == blit_row(
            blit(pixels, x, y, sprite.take(r)),
            x,
            y + r,
            sprite[r],
        ),
        blit_collides(pixels, x, y, sprite.take(r + 1)) == (blit_collides(
            pixels,
            x,
            y,
            sprite.take(r),
        ) || row_collides(blit(pixels, x, y, sprite.take(r)), x, y + r, sprite[r])),
{
    let head = sprite.take(r);
    let next = sprite.take(r + 1);
    assert(next.drop_last() == head);
    assert(next.last() == sprite[r]);
    assert(next.take(r) == head);
    assert forall|k: int| 0 <= k < r implies collides_at_row(pixels, x, y, head, k)
        == collides_at_row(pixels, x, y, next, k) by {
        assert(head.take(k) == next.take(k));
    }
    if blit_collides(pixels, x, y, next) {
        let k = choose|k: int| 0 <= k < next.len() && #[trigger] collides_at_row(pixels, x, y, next, k);
        if k < r {
            assert(collides_at_row(pixels, x, y, head, k));
        }
    }
    if blit_collides(pixels, x, y, head) {
        let k = choose|k: int| 0 <= k < head.len() && #[trigger] collides_at_row(pixels, x, y, head, k);
        assert(collides_at_row(pixels, x, y, next, k));
    }
    if row_collides(blit(pixels, x, y, head), x, y + r, sprite[r]) {
        assert(collides_at_row(pixels, x, y, next, r));
    }
}

/// The display row that a sprite row lands on determines which row of the
/// sprite it is, as long as the sprite has at most 32 rows.
proof fn lemma_sprite_row(y: int, r: int, p: int)
    requires
        0 <= r < 32,
        0 <= p < 2048,
    ensures
        p / 64 == (y + r) % 32 <==> sprite_row(y, p) == r,
{
}

/// Row `r` of a sprite of at most 32 rows hits the pixels that the sprite
/// hits in that display row.
proof fn lemma_last_row_hits(x: int, y: int, sprite: Seq<u8>, p: int)
    requires
        0 < sprite.len() <= 32,
        0 <= p < 2048,
    ensures
        sprite_hits(x, y, sprite, p) == (sprite_hits(x, y, sprite.drop_last(), p) != row_hits(
            x,
            y + sprite.len() - 1,
            sprite.last(),
            p,
        )),
        !(sprite_hits(x, y, sprite.drop_last(), p) && row_hits(
            x,
            y + sprite.len() - 1,
            sprite.last(),
            p,
        )),
{
    let n = sprite.len() - 1;
    lemma_sprite_row(y, n, p);
    if sprite_row(y, p) < n {
        assert(sprite.drop_last()[sprite_row(y, p)] == sprite[sprite_row(y, p)]);
    }
}

/// A sprite of at most 32 rows touches no pixel twice: drawing it flips
/// exactly the pixels under its set bits, and it collides exactly when one
/// of those pixels was on.
pub proof fn lemma_blit_is_stamp(pixels: Seq<bool>, x: int, y: int, sprite: Seq<u8>)
    requires
        pixels.len() == VRAM_SIZE,
        sprite.len() <= 32,
    ensures
        blit(pixels, x, y, sprite) == stamp(pixels, x, y, sprite),
        blit_collides(pixels, x, y, sprite) == overlaps(pixels, x, y, sprite),
    decreases sprite.len(),
{
    if sprite.len() == 0 {
        assert(blit(pixels, x, y, sprite) =~= stamp(pixels, x, y, sprite));
        assert(!overlaps(pixels, x, y, sprite));
        assert(!blit_collides(pixels, x, y, sprite));
    } else {
        let head = sprite.drop_last();
        let n = sprite.len() - 1;
        let last = sprite.last();
        lemma_blit_is_stamp(pixels, x, y, head);
        assert(sprite.take(n) == head);
        assert(sprite.take(n + 1) == sprite);
        lemma_blit_next_row(pixels, x, y, sprite, n);
        let below = blit(pixels, x, y, head);
        assert forall|p: int| 0 <= p < 2048 implies #[trigger] blit(pixels, x, y, sprite)[p] == stamp(
            pixels,
            x,
            y,
            sprite,
        )[p] by {
            lemma_last_row_hits(x, y, sprite, p);
        }
        assert(blit(pixels, x, y, sprite) =~= stamp(pixels, x, y, sprite));
        if overlaps(pixels, x, y, sprite) {
            let p = choose|p: int|
                0 <= p < pixels.len() && pixels[p] && #[trigger] sprite_hits(x, y, sprite, p);
            lemma_last_row_hits(x, y, sprite, p);
            if sprite_hits(x, y, head, p) {
                assert(overlaps(pixels, x, y, head));
            } else {
                assert(below[p] && row_hits(x, y + n, last, p));
                assert(row_collides(below, x, y + n, last));
            }
        }
        if overlaps(pixels, x, y, head) {
            let p = choose|p: int|
                0 <= p < pixels.len() && pixels[p] && #[trigger] sprite_hits(x, y, head, p);
            lemma_last_row_hits(x, y, sprite, p);
            assert(sprite_hits(x, y, sprite, p));
        }
        if row_collides(below, x, y + n, last) {
            let p = choose|p: int|
                0 <= p < below.len() && below[p] && #[trigger] row_hits(x, y + n, last, p);
            lemma_last_row_hits(x, y, sprite, p);
            assert(pixels[p] && sprite_hits(x, y, sprite, p));
        }
    }
}

/// A draw leaves as many pixels as there were.
pub proof fn lemma_blit_len(pixels: Seq<bool>, x: int, y: int, sprite: Seq<u8>)
    ensures
        blit(pixels, x, y, sprite).len() == pixels.len(),
    decreases sprite.len(),
{
    if sprite.len() > 0 {
        lemma_blit_len(pixels, x, y, sprite.drop_last());
    }
}

/// Two sprite rows can be drawn in either order.
proof fn lemma_rows_commute(pixels: Seq<bool>, x: int, ya: int, a: u8, yb: int, b: u8)
    ensures
        blit_row(blit_row(pixels, x, ya, a), x, yb, b) == blit_row(
            blit_row(pixels, x, yb, b),
            x,
            ya,
            a,
        ),
{
    assert(blit_row(blit_row(pixels, x, ya, a), x, yb, b) =~= blit_row(
        blit_row(pixels, x, yb, b),
        x,
        ya,
        a,
    ));
}

/// A sprite row drawn before a sprite can as well be drawn after it.
proof fn lemma_row_then_blit(pixels: Seq<bool>, x: int, y: int, sprite: Seq<u8>, ya: int, a: u8)
    ensures
        blit(blit_row(pixels, x, ya, a), x, y, sprite) == blit_row(
            blit(pixels, x, y, sprite),
            x,
            ya,
            a,
        ),
    decreases sprite.len(),
{
    if sprite.len() > 0 {
        let n = sprite.len() - 1;
        lemma_row_then_blit(pixels, x, y, sprite.drop_last(), ya, a);
        lemma_rows_commute(blit(pixels, x, y, sprite.drop_last()), x, ya, a, y + n, sprite.last());
    }
}

/// Drawing the same sprite twice at the same place restores the pixels,
/// whatever they were.
pub proof fn lemma_draw_twice(pixels: Seq<bool>, x: int, y: int, sprite: Seq<u8>)
    ensures
        blit(blit(pixels, x, y, sprite), x, y, sprite) == pixels,
    decreases sprite.len(),
{
    if sprite.len() > 0 {
        let head = sprite.drop_last();
        let n = sprite.len() - 1;
        let last = sprite.last();
        let below = blit(pixels, x, y, head);
        lemma_draw_twice(pixels, x, y, head);
        lemma_row_then_blit(below, x, y, head, y + n, last);
        assert(blit_row(blit_row(pixels, x, y + n, last), x, y + n, last) =~= pixels);
    }
}

/// A byte that is not zero has a set bit, and only such a byte has one.
proof fn lemma_some_bit(row: u8)
    ensures
        row != 0 <==> exists|c: int| 0 <= c < 8 && #[trigger] sprite_bit(row, c),
{
    assert(row != 0 ==> ((row >> 7u8) & 1 == 1 || (row >> 6u8) & 1 == 1 || (row >> 5u8) & 1 == 1
        || (row >> 4u8) & 1 == 1 || (row >> 3u8) & 1 == 1 || (row >> 2u8) & 1 == 1 || (row >> 1u8)
        & 1 == 1 || (row >> 0u8) & 1 == 1)) by (bit_vector);
    if row != 0 {
        assert(sprite_bit(row, 0) || sprite_bit(row, 1) || sprite_bit(row, 2) || sprite_bit(row, 3)
            || sprite_bit(row, 4) || sprite_bit(row, 5) || sprite_bit(row, 6) || sprite_bit(
            row,
            7,
        ));
    } else {
        assert forall|c: int| 0 <= c < 8 implies !#[trigger] sprite_bit(row, c) by {
            let k = (7 - c) as u8;
            assert(k < 8 ==> (0u8 >> k) & 1 != 1) by (bit_vector);
        }
    }
}

/// Bit `c` of row `r` of a sprite of at most 32 rows lies on the pixel
/// `(x + c, y + r)`, both coordinates wrapped.
proof fn lemma_bit_position(x: int, y: int, sprite: Seq<u8>, r: int, c: int)
    requires
        sprite.len() <= 32,
        0 <= r < sprite.len(),
        0 <= c < 8,
    ensures
        0 <= pixel_index(x + c, y + r) < 2048,
        sprite_row(y, pixel_index(x + c, y + r)) == r,
        sprite_column(x, pixel_index(x + c, y + r)) == c,
        sprite_hits(x, y, sprite, pixel_index(x + c, y + r)) == sprite_bit(sprite[r], c),
{
    let p = pixel_index(x + c, y + r);
    lemma_pixel_under(x, y + r, c, p);
    lemma_sprite_row(y, r, p);
}

/// On a display with every pixel off, the first draw of a sprite of at
/// most 32 rows shows the sprite and reports no collision. Drawing it again
/// at the same place turns every pixel off again, and reports a collision
/// unless the sprite has no set bit at all.
pub proof fn lemma_draw_twice_on_clear(x: int, y: int, sprite: Seq<u8>)
    requires
        sprite.len() <= 32,
    ensures
        ({
            let clear = Seq::new(VRAM_SIZE as nat, |p: int| false);
            let drawn = blit(clear, x, y, sprite);
            &&& !blit_collides(clear, x, y, sprite)
            &&& forall|p: int| 0 <= p < VRAM_SIZE ==> drawn[p] == sprite_hits(x, y, sprite, p)
            &&& blit(drawn, x, y, sprite) == clear
            &&& blit_collides(drawn, x, y, sprite) == exists|r: int|
                0 <= r < sprite.len() && #[trigger] sprite[r] != 0
        }),
{
    let clear = Seq::new(VRAM_SIZE as nat, |p: int| false);
    let drawn = blit(clear, x, y, sprite);
    lemma_blit_is_stamp(clear, x, y, sprite);
    lemma_blit_is_stamp(drawn, x, y, sprite);
    lemma_draw_twice(clear, x, y, sprite);
    assert(!overlaps(clear, x, y, sprite));
    if overlaps(drawn, x, y, sprite) {
        let p = choose|p: int|
            0 <= p < drawn.len() && drawn[p] && #[trigger] sprite_hits(x, y, sprite, p);
        let r = sprite_row(y, p);
        lemma_some_bit(sprite[r]);
        assert(sprite_bit(sprite[r], sprite_column(x, p)));
        assert(sprite[r] != 0);
    }
    if exists|r: int| 0 <= r < sprite.len() && #[trigger] sprite[r] != 0 {
        let r = choose|r: int| 0 <= r < sprite.len() && #[trigger] sprite[r] != 0;
        lemma_some_bit(sprite[r]);
        let c = choose|c: int| 0 <= c < 8 && #[trigger] sprite_bit(sprite[r], c);
        lemma_bit_position(x, y, sprite, r, c);
        let p = pixel_index(x + c, y + r);
        assert(drawn[p] && sprite_hits(x, y, sprite, p));
    }
}

/// Where a sprite of at most 32 rows is drawn at `(x, y)`, bit `c` of its
/// row `r` flips the pixel in column `(x + c) mod 64` of row
/// `(y + r) mod 32`: what extends past the right or bottom edge comes back
/// in at the left or top.
pub proof fn lemma_draw_wraps(pixels: Seq<bool>, x: int, y: int, sprite: Seq<u8>, r: int, c: int)
    requires
        pixels.len() == VRAM_SIZE,
        sprite.len() <= 32,
        0 <= r < sprite.len(),
        0 <= c < 8,
    ensures
        pixel_index(x + c, y + r) == (x + c) % 64 + ((y + r) % 32) * 64,
        blit(pixels, x, y, sprite)[pixel_index(x + c, y + r)] == (pixels[pixel_index(x + c, y + r)]
            != sprite_bit(sprite[r], c)),
{
    lemma_blit_is_stamp(pixels, x, y, sprite);
    lemma_bit_position(x, y, sprite, r, c);
}

/// Only the position modulo the display's width and height matters to a
/// draw.
pub proof fn lemma_draw_periodic(
    pixels: Seq<bool>,
    x1: int,
    y1: int,
    x2: int,
    y2: int,
    sprite: Seq<u8>,
)
    requires
        x1 % 64 == x2 % 64,
        y1 % 32 == y2 % 32,
    ensures
        blit(pixels, x1, y1, sprite) == blit(pixels, x2, y2, sprite),
        blit_collides(pixels, x1, y1, sprite) == blit_collides(pixels, x2, y2, sprite),
{
    lemma_blit_periodic(pixels, x1, y1, x2, y2, sprite);
    assert forall|r: int| 0 <= r < sprite.len() implies collides_at_row(pixels, x1, y1, sprite, r)
        == collides_at_row(pixels, x2, y2, sprite, r) by {
        lemma_blit_periodic(pixels, x1, y1, x2, y2, sprite.take(r));
        lemma_row_periodic(blit(pixels, x1, y1, sprite.take(r)), x1, y1 + r, x2, y2 + r, sprite[r]);
    }
    if blit_collides(pixels, x1, y1, sprite) {
        let r = choose|r: int| 0 <= r < sprite.len() && #[trigger] collides_at_row(pixels, x1, y1, sprite, r);
        assert(collides_at_row(pixels, x2, y2, sprite, r));
    }
    if blit_collides(pixels, x2, y2, sprite) {
        let r = choose|r: int| 0 <= r < sprite.len() && #[trigger] collides_at_row(pixels, x2, y2, sprite, r);
        assert(collides_at_row(pixels, x1, y1, sprite, r));
    }
}

/// Only the position modulo the display's width and height matters to a
/// sprite row.
proof fn lemma_row_periodic(pixels: Seq<bool>, x1: int, y1: int, x2: int, y2: int, row: u8)
    requires
        x1 % 64 == x2 % 64,
        y1 % 32 == y2 % 32,
    ensures
        blit_row(pixels, x1, y1, row) == blit_row(pixels, x2, y2, row),
        row_collides(pixels, x1, y1, row) == row_collides(pixels, x2, y2, row),
{
    assert forall|p: int| row_hits(x1, y1, row, p) == row_hits(x2, y2, row, p) by {
        assert(sprite_column(x1, p) == sprite_column(x2, p));
    }
    assert(blit_row(pixels, x1, y1, row) =~= blit_row(pixels, x2, y2, row));
    if row_collides(pixels, x1, y1, row) {
        let p = choose|p: int| 0 <= p < pixels.len() && pixels[p] && #[trigger] row_hits(x1, y1, row, p);
        assert(row_hits(x2, y2, row, p));
    }
    if row_collides(pixels, x2, y2, row) {
        let p = choose|p: int| 0 <= p < pixels.len() && pixels[p] && #[trigger] row_hits(x2, y2, row, p);
        assert(row_hits(x1, y1, row, p));
    }
}

/// Only the position modulo the display's width and height matters to the
/// pixels that a draw leaves.
proof fn lemma_blit_periodic(pixels: Seq<bool>, x1: int, y1: int, x2: int, y2: int, sprite: Seq<u8>)
    requires
        x1 % 64 == x2 % 64,
        y1 % 32 == y2 % 32,
    ensures
        blit(pixels, x1, y1, sprite) == blit(pixels, x2, y2, sprite),
    decreases sprite.len(),
{
    if sprite.len() > 0 {
        let n = sprite.len() - 1;
        lemma_blit_periodic(pixels, x1, y1, x2, y2, sprite.drop_last());
        lemma_row_periodic(
            blit(pixels, x1, y1, sprite.drop_last()),
            x1,
            y1 + n,
            x2,
            y2 + n,
            sprite.last(),
        );
    }
}

fn bit_at(row: u8, column: usize) -> (set: bool)
    requires
        column < 8,
    ensures
        set == sprite_bit(row, column as int),
{
    (row >> (7 - column)) & 1 == 1
}

/// The pixels as colours, four bytes each: red, green, blue and opacity.
/// A pixel that is on is white, one that is off is black, and both are
/// opaque.
pub open spec fn rgba(pixels: Seq<bool>) -> Seq<u8> {
    Seq::new(4 * pixels.len(), |k: int| if k % 4 == 3 || pixels[k / 4] { 255u8 } else { 0u8 })
}

/// The display: one `bool` per pixel, row by row from the top left.
pub struct Display {
    pub framebuffer: [bool; VRAM_SIZE],
}

impl View for Display {
    type V = Seq<bool>;

    /// The pixels, row-major: 2048 of them.
    open spec fn view(&self) -> Seq<bool> {
        self.framebuffer@
    }
}

impl Display {
    /// A display with every pixel off.
    pub fn new() -> (display: Display)
        ensures
            display@ == Seq::new(VRAM_SIZE as nat, |p: int| false),
    {
        Display { framebuffer: [false; VRAM_SIZE] }
    }

    /// Turns the pixel at `(x, y)` on or off. Coordinates past the right or
    /// bottom edge wrap around.
    pub fn draw_pixel(&mut self, x: usize, y: usize, on: bool)
        ensures
            final(self)@ == old(self)@.update(pixel_index(x as int, y as int), on),
    {
        let index = at(x, y);
        self.framebuffer[index] = on;
    }

    /// Draws one sprite row with its left edge at `(x, y)`.
    fn draw_row(&mut self, x: usize, y: usize, row: u8) -> (collision: bool)
        ensures
            final(self)@ == blit_row(old(self)@, x as int, y as int, row),
            collision == row_collides(old(self)@, x as int, y as int, row),
    {
        let ghost before = self@;
        let mut collision = false;
        let mut column: usize = 0;
        assert(self@ == blit_columns(before, x as int, y as int, row, 0));
        while column < 8
            invariant
                column <= 8,
                before.len() == VRAM_SIZE,
                self@ == blit_columns(before, x as int, y as int, row, column as int),
                collision == columns_collide(before, x as int, y as int, row, column as int),
            decreases 8 - column,
        {
            let x_actual = (x % DISPLAY_WIDTH + column) % DISPLAY_WIDTH;
            let y_actual = y % DISPLAY_HEIGHT;
            proof {
                lemma_draw_column(before, x as int, y as int, row, column as int);
            }
            let lit = self.framebuffer[at(x_actual, y_actual)];
            let bit = bit_at(row, column);
            self.draw_pixel(x_actual, y_actual, lit != bit);
            if lit && bit {
                collision = true;
            }
            column += 1;
        }
        assert(self@ == blit_row(before, x as int, y as int, row));
        collision
    }

    /// Draws a sprite with its top left corner at `(x, y)`. Each byte of
    /// `sprite` is one row of eight pixels, the most significant bit
    /// leftmost. Set bits flip the pixels under them; pixels past the
    /// right or bottom edge wrap around. Returns whether a set bit fell on
    /// a pixel that was on.
    pub fn draw_sprite(&mut self, x: usize, y: usize, sprite: &[u8]) -> (collision: bool)
        ensures
            final(self)@ == blit(old(self)@, x as int, y as int, sprite@),
            collision == blit_collides(old(self)@, x as int, y as int, sprite@),
            sprite@.len() <= 32 ==> final(self)@ == stamp(old(self)@, x as int, y as int, sprite@),
            sprite@.len() <= 32 ==> collision == overlaps(old(self)@, x as int, y as int, sprite@),
    {
        let mut collision = false;
        let mut row: usize = 0;
        assert(sprite@.take(0).len() == 0);
        while row < sprite.len()
            invariant
                row <= sprite.len(),
                self@.len() == VRAM_SIZE,
                self@ == blit(old(self)@, x as int, y as int, sprite@.take(row as int)),
                collision == blit_collides(old(self)@, x as int, y as int, sprite@.take(row as int)),
            decreases sprite.len() - row,
        {
            let ghost before = self@;
            let y_actual = (y % DISPLAY_HEIGHT + row % DISPLAY_HEIGHT) % DISPLAY_HEIGHT;
            let collided = self.draw_row(x, y_actual, sprite[row]);
            proof {
                lemma_row_periodic(
                    before,
                    x as int,
                    y_actual as int,
                    x as int,
                    y + row,
                    sprite@[row as int],
                );
                lemma_blit_next_row(old(self)@, x as int, y as int, sprite@, row as int);
            }
            collision = collision || collided;
            row += 1;
        }
        proof {
            assert(sprite@.take(sprite.len() as int) == sprite@);
            if sprite@.len() <= 32 {
                lemma_blit_is_stamp(old(self)@, x as int, y as int, sprite@);
            }
        }
        collision
    }

    /// The frame as colours for a canvas: see [`rgba`].
    pub fn to_rgba(&self) -> (frame: Vec<u8>)
        ensures
            frame@ == rgba(self@),
    {
        let mut frame: Vec<u8> = Vec::new();
        let mut p: usize = 0;
        while p < VRAM_SIZE
            invariant
                p <= VRAM_SIZE,
                frame@ == rgba(self@.take(p as int)),
            decreases VRAM_SIZE - p,
        {
            let level: u8 = if self.framebuffer[p] { 255 } else { 0 };
            frame.push(level);
            frame.push(level);
            frame.push(level);
            frame.push(255);
            p += 1;
            assert(frame@ =~= rgba(self@.take(p as int)));
        }
        assert(self@.take(VRAM_SIZE as int) == self@);
        frame
    }

    /// Turns every pixel off.
    pub fn clear(&mut self)
        ensures
            final(self)@ == Seq::new(VRAM_SIZE as nat, |p: int| false),
    {
        self.framebuffer = [false; VRAM_SIZE];
    }
}

} // verus!
