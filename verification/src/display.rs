//! Drawing on the display cells.

use vstd::prelude::*;
use crate::machine::{
    column_offset, row_offset, sprite_covers, sprite_pixel, MEMORY, SPRITE_WIDTH, VRAM_HEIGHT,
    VRAM_SIZE, VRAM_WIDTH,
};

verus! {

/// Sets every display cell to 0.
pub(crate) fn clear_cells(vram: &mut [u8; VRAM_SIZE])
    ensures
        forall|cell: int| 0 <= cell < VRAM_SIZE ==> final(vram)@[cell] == 0,
{
    let mut index: usize = 0;
    while index < VRAM_SIZE
        invariant
            index <= VRAM_SIZE,
            forall|cell: int| 0 <= cell < index ==> vram@[cell] == 0,
        decreases VRAM_SIZE - index,
    {
        vram[index] = 0;
        index += 1;
    }
}

/// Whether the sprite covers `cell` with a pixel of a row above `row_limit`,
/// or of that row and left of `column_limit`: what a draw has reached when it
/// stands at that row and column.
#[verifier::opaque]
spec fn covers_before(
    memory: Seq<u8>,
    address: u16,
    clip: bool,
    vx: u8,
    vy: u8,
    rows: u8,
    cell: int,
    row_limit: int,
    column_limit: int,
) -> bool {
    let column = column_offset(vx as int % 64, cell);
    let row = row_offset(vy as int % 32, cell);
    sprite_covers(memory, address, clip, vx, vy, rows, cell) && (row < row_limit || (row
        == row_limit && column < column_limit))
}

/// The index of the cell `column` steps right of the sprite's corner and
/// `row` steps below it, going round the display.
#[verifier::opaque]
spec fn cell_at(vx: u8, vy: u8, row: int, column: int) -> int {
    (vx as int % 64 + column) % 64 + 64 * ((vy as int % 32 + row) % 32)
}

/// Going `steps` to the right of `left` round a row of 64 cells ends at
/// `position` exactly when `position` lies `steps` to the right of `left`.
proof fn lemma_round_the_row(left: int, steps: int, position: int)
    requires
        0 <= left < 64,
        0 <= steps < 64,
        0 <= position < 64,
    ensures
        (position == (left + steps) % 64) == ((position - left) % 64 == steps),
{
    if left + steps < 64 {
        assert((left + steps) % 64 == left + steps);
    } else {
        assert((left + steps) % 64 == left + steps - 64);
    }
    if position >= left {
        assert((position - left) % 64 == position - left);
    } else {
        assert((position - left) % 64 == position - left + 64);
    }
}

/// Going `steps` down from `top` round a column of 32 cells ends at
/// `position` exactly when `position` lies `steps` below `top`.
proof fn lemma_round_the_column(top: int, steps: int, position: int)
    requires
        0 <= top < 32,
        0 <= steps < 32,
        0 <= position < 32,
    ensures
        (position == (top + steps) % 32) == ((position - top) % 32 == steps),
{
    if top + steps < 32 {
        assert((top + steps) % 32 == top + steps);
    } else {
        assert((top + steps) % 32 == top + steps - 32);
    }
    if position >= top {
        assert((position - top) % 32 == position - top);
    } else {
        assert((position - top) % 32 == position - top + 32);
    }
}

/// On the display, the cell `column` steps right of `left` and `row` steps
/// below `top`, going round, is the only one with those two offsets.
pub(crate) proof fn lemma_cell_of_offsets(left: int, top: int, column: int, row: int, cell: int)
    requires
        0 <= left < 64,
        0 <= top < 32,
        0 <= column < 64,
        0 <= row < 32,
        0 <= cell < 2048,
    ensures
        (cell == (left + column) % 64 + 64 * ((top + row) % 32)) == (column_offset(left, cell)
            == column && row_offset(top, cell) == row),
{
    let x = cell % 64;
    let y = cell / 64;
    let target_x = (left + column) % 64;
    let target_y = (top + row) % 32;
    assert(cell == x + 64 * y);
    assert((cell == target_x + 64 * target_y) == (x == target_x && y == target_y));
    lemma_round_the_row(left, column, x);
    lemma_round_the_column(top, row, y);
}

/// Check to see if a sprite should be clipped: whether the cell `indexer`
/// steps past `origin` lies beyond `bounds`.
/// The COSMAC VIP clips the sprite if it overflows off screen for the draw opcode Dxyn
pub(crate) fn cosmac_sprite_bounds_check(
    clip: bool,
    origin: usize,
    indexer: usize,
    bounds: usize,
) -> (clipped: bool)
    requires
        origin < bounds <= 64,
        indexer <= 16,
    ensures
        clipped == (clip && origin + indexer >= bounds),
{
    clip && origin + indexer >= bounds
}

/// Before the first pixel of the first row the sprite covers nothing.
proof fn lemma_covers_start(
    memory: Seq<u8>,
    address: u16,
    clip: bool,
    vx: u8,
    vy: u8,
    rows: u8,
    cell: int,
)
    ensures
        !covers_before(memory, address, clip, vx, vy, rows, cell, 0, 0),
{
    reveal(covers_before);
}

/// One pixel further covers one cell more, if the sprite's bit is set.
proof fn lemma_covers_step(
    memory: Seq<u8>,
    address: u16,
    clip: bool,
    vx: u8,
    vy: u8,
    rows: u8,
    row: int,
    column: int,
    cell: int,
)
    requires
        0 <= row < rows < 16,
        0 <= column < 8,
        clip ==> vx as int % 64 + column < 64 && vy as int % 32 + row < 32,
        0 <= cell < VRAM_SIZE,
    ensures
        covers_before(memory, address, clip, vx, vy, rows, cell, row, column + 1) == (
        covers_before(memory, address, clip, vx, vy, rows, cell, row, column) || (cell == cell_at(
            vx,
            vy,
            row,
            column,
        ) && sprite_pixel(memory[(address + row) % 4096], column as u8))),
        cell == cell_at(vx, vy, row, column) ==> !covers_before(
            memory,
            address,
            clip,
            vx,
            vy,
            rows,
            cell,
            row,
            column,
        ),
{
    reveal(covers_before);
    reveal(cell_at);
    lemma_cell_of_offsets(vx as int % 64, vy as int % 32, column, row, cell);
}

/// The rest of a row covers nothing once the row is through or the sprite
/// is cut off at the right edge.
proof fn lemma_covers_row_end(
    memory: Seq<u8>,
    address: u16,
    clip: bool,
    vx: u8,
    vy: u8,
    rows: u8,
    row: int,
    column: int,
    cell: int,
)
    requires
        0 <= column <= 8,
        column == 8 || (clip && vx as int % 64 + column >= 64),
    ensures
        covers_before(memory, address, clip, vx, vy, rows, cell, row + 1, 0) == covers_before(
            memory,
            address,
            clip,
            vx,
            vy,
            rows,
            cell,
            row,
            column,
        ),
{
    reveal(covers_before);
}

/// The rest of the sprite covers nothing once all rows are through or the
/// sprite is cut off at the bottom edge.
proof fn lemma_covers_end(
    memory: Seq<u8>,
    address: u16,
    clip: bool,
    vx: u8,
    vy: u8,
    rows: u8,
    row: int,
    cell: int,
)
    requires
        0 <= row <= rows,
        row == rows || (clip && vy as int % 32 + row >= 32),
    ensures
        covers_before(memory, address, clip, vx, vy, rows, cell, row, 0) == sprite_covers(
            memory,
            address,
            clip,
            vx,
            vy,
            rows,
            cell,
        ),
{
    reveal(covers_before);
}

/// The cells `now` are the cells `before` with every cell inverted that the
/// sprite covers before `(row_limit, column_limit)`; each holds 0 or 1.
#[verifier::opaque]
spec fn drawn_until(
    before: Seq<u8>,
    now: Seq<u8>,
    memory: Seq<u8>,
    address: u16,
    clip: bool,
    vx: u8,
    vy: u8,
    rows: u8,
    row_limit: int,
    column_limit: int,
) -> bool {
    &&& before.len() == VRAM_SIZE
    &&& now.len() == VRAM_SIZE
    &&& forall|cell: int| 0 <= cell < VRAM_SIZE ==> before[cell] <= 1 && now[cell] <= 1
    &&& forall|cell: int|
        0 <= cell < VRAM_SIZE ==> (now[cell] == 1) == ((before[cell] == 1) != covers_before(
            memory,
            address,
            clip,
            vx,
            vy,
            rows,
            cell,
            row_limit,
            column_limit,
        ))
}

/// Some cell that was lit in `before` is covered by the sprite before
/// `(row_limit, column_limit)`.
#[verifier::opaque]
spec fn collided_until(
    before: Seq<u8>,
    memory: Seq<u8>,
    address: u16,
    clip: bool,
    vx: u8,
    vy: u8,
    rows: u8,
    row_limit: int,
    column_limit: int,
) -> bool {
    exists|cell: int|
        0 <= cell < VRAM_SIZE && before[cell] == 1 && #[trigger] covers_before(
            memory,
            address,
            clip,
            vx,
            vy,
            rows,
            cell,
            row_limit,
            column_limit,
        )
}

/// Nothing is drawn before the first pixel of the first row.
proof fn lemma_draw_start(
    before: Seq<u8>,
    memory: Seq<u8>,
    address: u16,
    clip: bool,
    vx: u8,
    vy: u8,
    rows: u8,
)
    requires
        before.len() == VRAM_SIZE,
        forall|cell: int| 0 <= cell < VRAM_SIZE ==> before[cell] <= 1,
    ensures
        drawn_until(before, before, memory, address, clip, vx, vy, rows, 0, 0),
        !collided_until(before, memory, address, clip, vx, vy, rows, 0, 0),
{
    reveal(drawn_until);
    reveal(collided_until);
    assert forall|cell: int| !#[trigger] covers_before(
        memory,
        address,
        clip,
        vx,
        vy,
        rows,
        cell,
        0,
        0,
    ) by {
        lemma_covers_start(memory, address, clip, vx, vy, rows, cell);
    }
}

/// One pixel further: the cell at `(row, column)` from the corner is
/// inverted if the sprite's bit there is set.
proof fn lemma_draw_pixel(
    before: Seq<u8>,
    now: Seq<u8>,
    memory: Seq<u8>,
    address: u16,
    clip: bool,
    vx: u8,
    vy: u8,
    rows: u8,
    row: int,
    column: int,
    flipped: u8,
)
    requires
        0 <= row < rows < 16,
        0 <= column < 8,
        clip ==> vx as int % 64 + column < 64 && vy as int % 32 + row < 32,
        drawn_until(before, now, memory, address, clip, vx, vy, rows, row, column),
        flipped == 1 - now[cell_at(vx, vy, row, column)],
    ensures
        0 <= cell_at(vx, vy, row, column) < VRAM_SIZE,
        now[cell_at(vx, vy, row, column)] == before[cell_at(vx, vy, row, column)],
        drawn_until(
            before,
            if sprite_pixel(memory[(address + row) % 4096], column as u8) {
                now.update(cell_at(vx, vy, row, column), flipped)
            } else {
                now
            },
            memory,
            address,
            clip,
            vx,
            vy,
            rows,
            row,
            column + 1,
        ),
        collided_until(before, memory, address, clip, vx, vy, rows, row, column + 1) == (
        collided_until(before, memory, address, clip, vx, vy, rows, row, column) || (sprite_pixel(
            memory[(address + row) % 4096],
            column as u8,
        ) && now[cell_at(vx, vy, row, column)] == 1)),
{
    reveal(drawn_until);
    reveal(collided_until);
    let target = cell_at(vx, vy, row, column);
    let lit = sprite_pixel(memory[(address + row) % 4096], column as u8);
    let after = if lit {
        now.update(target, flipped)
    } else {
        now
    };
    assert forall|cell: int| 0 <= cell < VRAM_SIZE implies #[trigger] covers_before(
        memory,
        address,
        clip,
        vx,
        vy,
        rows,
        cell,
        row,
        column + 1,
    ) == (covers_before(memory, address, clip, vx, vy, rows, cell, row, column) || (cell == target
        && lit)) by {
        lemma_covers_step(memory, address, clip, vx, vy, rows, row, column, cell);
    }
    assert(0 <= target < VRAM_SIZE) by {
        reveal(cell_at);
    }
    lemma_covers_step(memory, address, clip, vx, vy, rows, row, column, target);
    let old_hit = collided_until(before, memory, address, clip, vx, vy, rows, row, column);
    let new_hit = collided_until(before, memory, address, clip, vx, vy, rows, row, column + 1);
    if old_hit {
        let cell = choose|cell: int|
            0 <= cell < VRAM_SIZE && before[cell] == 1 && #[trigger] covers_before(
                memory,
                address,
                clip,
                vx,
                vy,
                rows,
                cell,
                row,
                column,
            );
        assert(covers_before(memory, address, clip, vx, vy, rows, cell, row, column + 1));
    }
    if lit && now[target] == 1 {
        assert(covers_before(memory, address, clip, vx, vy, rows, target, row, column + 1));
    }
    if new_hit {
        let cell = choose|cell: int|
            0 <= cell < VRAM_SIZE && before[cell] == 1 && #[trigger] covers_before(
                memory,
                address,
                clip,
                vx,
                vy,
                rows,
                cell,
                row,
                column + 1,
            );
        if covers_before(memory, address, clip, vx, vy, rows, cell, row, column) {
        } else {
            assert(cell == target && lit);
        }
    }
}

/// The rest of a row adds nothing once the row is through or the sprite is
/// cut off at the right edge.
proof fn lemma_draw_row_end(
    before: Seq<u8>,
    now: Seq<u8>,
    memory: Seq<u8>,
    address: u16,
    clip: bool,
    vx: u8,
    vy: u8,
    rows: u8,
    row: int,
    column: int,
)
    requires
        0 <= column <= 8,
        column == 8 || (clip && vx as int % 64 + column >= 64),
        drawn_until(before, now, memory, address, clip, vx, vy, rows, row, column),
    ensures
        drawn_until(before, now, memory, address, clip, vx, vy, rows, row + 1, 0),
        collided_until(before, memory, address, clip, vx, vy, rows, row + 1, 0) == collided_until(
            before,
            memory,
            address,
            clip,
            vx,
            vy,
            rows,
            row,
            column,
        ),
{
    reveal(drawn_until);
    reveal(collided_until);
    assert forall|cell: int| 0 <= cell < VRAM_SIZE implies #[trigger] covers_before(
        memory,
        address,
        clip,
        vx,
        vy,
        rows,
        cell,
        row + 1,
        0,
    ) == covers_before(memory, address, clip, vx, vy, rows, cell, row, column) by {
        lemma_covers_row_end(memory, address, clip, vx, vy, rows, row, column, cell);
    }
    if collided_until(before, memory, address, clip, vx, vy, rows, row, column) {
        let cell = choose|cell: int|
            0 <= cell < VRAM_SIZE && before[cell] == 1 && #[trigger] covers_before(
                memory,
                address,
                clip,
                vx,
                vy,
                rows,
                cell,
                row,
                column,
            );
        assert(covers_before(memory, address, clip, vx, vy, rows, cell, row + 1, 0));
    }
    if collided_until(before, memory, address, clip, vx, vy, rows, row + 1, 0) {
        let cell = choose|cell: int|
            0 <= cell < VRAM_SIZE && before[cell] == 1 && #[trigger] covers_before(
                memory,
                address,
                clip,
                vx,
                vy,
                rows,
                cell,
                row + 1,
                0,
            );
        assert(covers_before(memory, address, clip, vx, vy, rows, cell, row, column));
    }
}

/// The rest of the sprite adds nothing once all rows are through or the
/// sprite is cut off at the bottom edge.
proof fn lemma_draw_end(
    before: Seq<u8>,
    now: Seq<u8>,
    memory: Seq<u8>,
    address: u16,
    clip: bool,
    vx: u8,
    vy: u8,
    rows: u8,
    row: int,
)
    requires
        0 <= row <= rows,
        row == rows || (clip && vy as int % 32 + row >= 32),
        drawn_until(before, now, memory, address, clip, vx, vy, rows, row, 0),
    ensures
        forall|cell: int| 0 <= cell < VRAM_SIZE ==> now[cell] <= 1,
        forall|cell: int|
            0 <= cell < VRAM_SIZE ==> (now[cell] == 1) == ((before[cell] == 1) != sprite_covers(
                memory,
                address,
                clip,
                vx,
                vy,
                rows,
                cell,
            )),
        collided_until(before, memory, address, clip, vx, vy, rows, row, 0) == exists|cell: int|
            0 <= cell < VRAM_SIZE && before[cell] == 1 && #[trigger] sprite_covers(
                memory,
                address,
                clip,
                vx,
                vy,
                rows,
                cell,
            ),
{
    reveal(drawn_until);
    reveal(collided_until);
    assert forall|cell: int| 0 <= cell < VRAM_SIZE implies #[trigger] covers_before(
        memory,
        address,
        clip,
        vx,
        vy,
        rows,
        cell,
        row,
        0,
    ) == sprite_covers(memory, address, clip, vx, vy, rows, cell) by {
        lemma_covers_end(memory, address, clip, vx, vy, rows, row, cell);
    }
    if collided_until(before, memory, address, clip, vx, vy, rows, row, 0) {
        let cell = choose|cell: int|
            0 <= cell < VRAM_SIZE && before[cell] == 1 && #[trigger] covers_before(
                memory,
                address,
                clip,
                vx,
                vy,
                rows,
                cell,
                row,
                0,
            );
        assert(sprite_covers(memory, address, clip, vx, vy, rows, cell));
    }
    if exists|cell: int|
        0 <= cell < VRAM_SIZE && before[cell] == 1 && #[trigger] sprite_covers(
            memory,
            address,
            clip,
            vx,
            vy,
            rows,
            cell,
        ) {
        let cell = choose|cell: int|
            0 <= cell < VRAM_SIZE && before[cell] == 1 && #[trigger] sprite_covers(
                memory,
                address,
                clip,
                vx,
                vy,
                rows,
                cell,
            );
        assert(covers_before(memory, address, clip, vx, vy, rows, cell, row, 0));
    }
}

/// Draws the sprite of `rows` rows that `ram` holds from `address` on, with
/// its top left corner at `(vx, vy)`: every cell that the sprite covers is
/// inverted. Returns whether a lit cell was turned off.
pub(crate) fn draw_sprite(
    vram: &mut [u8; VRAM_SIZE],
    ram: &[u8; MEMORY],
    address: u16,
    clip: bool,
    vx: u8,
    vy: u8,
    rows: u8,
) -> (collided: bool)
    requires
        rows < 16,
        forall|cell: int| 0 <= cell < VRAM_SIZE ==> old(vram)@[cell] <= 1,
    ensures
        forall|cell: int| 0 <= cell < VRAM_SIZE ==> final(vram)@[cell] <= 1,
        forall|cell: int|
            0 <= cell < VRAM_SIZE ==> (final(vram)@[cell] == 1) == ((old(vram)@[cell] == 1)
                != sprite_covers(ram@, address, clip, vx, vy, rows, cell)),
        collided == exists|cell: int|
            0 <= cell < VRAM_SIZE && old(vram)@[cell] == 1 && #[trigger] sprite_covers(
                ram@,
                address,
                clip,
                vx,
                vy,
                rows,
                cell,
            ),
{
    let left: usize = vx as usize % VRAM_WIDTH;
    let top: usize = vy as usize % VRAM_HEIGHT;
    let mut collided: bool = false;
    let mut i: usize = 0;
    proof {
        lemma_draw_start(vram@, ram@, address, clip, vx, vy, rows);
    }
    while i < rows as usize && !cosmac_sprite_bounds_check(clip, top, i, VRAM_HEIGHT)
        invariant
            i <= rows < 16,
            left == vx as int % 64,
            top == vy as int % 32,
            drawn_until(old(vram)@, vram@, ram@, address, clip, vx, vy, rows, i as int, 0),
            collided == collided_until(old(vram)@, ram@, address, clip, vx, vy, rows, i as int, 0),
        decreases rows - i,
    {
        let pixel: u8 = ram[(address as usize + i) % MEMORY];
        let y_coord: usize = (top + i) % VRAM_HEIGHT;
        let mut j: u8 = 0;
        while j < SPRITE_WIDTH && !cosmac_sprite_bounds_check(clip, left, j as usize, VRAM_WIDTH)
            invariant
                i < rows < 16,
                j <= 8,
                left == vx as int % 64,
                top == vy as int % 32,
                !clip || top + i < 32,
                y_coord == (top + i) % 32,
                pixel == ram@[(address + i) % 4096],
                drawn_until(
                    old(vram)@,
                    vram@,
                    ram@,
                    address,
                    clip,
                    vx,
                    vy,
                    rows,
                    i as int,
                    j as int,
                ),
                collided == collided_until(
                    old(vram)@,
                    ram@,
                    address,
                    clip,
                    vx,
                    vy,
                    rows,
                    i as int,
                    j as int,
                ),
            decreases 8 - j,
        {
            let x_coord: usize = (left + j as usize) % VRAM_WIDTH;
            let pixel_index: usize = x_coord + VRAM_WIDTH * y_coord;
            let lit: bool = (pixel & (0x80u8 >> j)) != 0;
            assert(pixel_index == cell_at(vx, vy, i as int, j as int)) by {
                reveal(cell_at);
            }
            let cell: u8 = vram[pixel_index];
            assert(cell <= 1) by {
                reveal(drawn_until);
            }
            assert(cell <= 1 ==> (cell ^ 1) == 1 - cell) by (bit_vector);
            proof {
                lemma_draw_pixel(
                    old(vram)@,
                    vram@,
                    ram@,
                    address,
                    clip,
                    vx,
                    vy,
                    rows,
                    i as int,
                    j as int,
                    cell ^ 1,
                );
            }
            if lit {
                if cell == 1 {
                    collided = true;
                }
                vram[pixel_index] = cell ^ 1;
            }
            j += 1;
        }
        proof {
            lemma_draw_row_end(
                old(vram)@,
                vram@,
                ram@,
                address,
                clip,
                vx,
                vy,
                rows,
                i as int,
                j as int,
            );
        }
        i += 1;
    }
    proof {
        lemma_draw_end(old(vram)@, vram@, ram@, address, clip, vx, vy, rows, i as int);
    }
    collided
}

} // verus!
