use vstd::prelude::*;

verus! {

/// Bit `col` of a sprite row, counting from the most significant bit.
pub open spec fn sprite_bit(b: u8, col: int) -> bool {
    (b >> ((7 - col) as u8)) & 1u8 == 1u8
}

/// Whether cell `(cx, cy)` is toggled by the rows of `rows` drawn at `(x, y)`
/// before row `r`, column `c` (rows in order, columns left to right).
/// Coordinates wrap at 64 columns and 32 rows.
pub open spec fn covered_before(
    x: int,
    y: int,
    rows: Seq<u8>,
    r: int,
    c: int,
    cx: int,
    cy: int,
) -> bool {
    let row = (cy - y) % 32;
    let col = (cx - x) % 64;
    &&& col < 8
    &&& row < rows.len()
    &&& (row < r || (row == r && col < c))
    &&& sprite_bit(rows[row], col)
}

/// Whether the whole sprite toggles cell `(cx, cy)`.
pub open spec fn covered(x: int, y: int, rows: Seq<u8>, cx: int, cy: int) -> bool {
    covered_before(x, y, rows, rows.len() as int, 0, cx, cy)
}

/// The display after drawing `rows` at `(x, y)`: each covered cell flips.
pub open spec fn drawn(screen: Seq<bool>, x: int, y: int, rows: Seq<u8>) -> Seq<bool> {
    Seq::new(screen.len(), |k: int| screen[k] != covered(x, y, rows, k % 64, k / 64))
}

/// Whether drawing `rows` at `(x, y)` turns some lit cell off.
pub open spec fn collides(screen: Seq<bool>, x: int, y: int, rows: Seq<u8>) -> bool {
    exists|k: int| 0 <= k < screen.len() && screen[k] && #[trigger] covered(x, y, rows, k % 64, k / 64)
}

/// A cell index lies at column `k % 64`, row `k / 64`; the cell that column `c`
/// of row `r` lands on is the only one whose offsets from `(x, y)` are `(c, r)`.
proof fn lemma_target(x: int, y: int, r: int, c: int, k: int)
    requires
        0 <= x,
        0 <= y,
        0 <= r < 32,
        0 <= c < 64,
        0 <= k < 2048,
    ensures
        ((k / 64 - y) % 32 == r && (k % 64 - x) % 64 == c) <==> k == (x + c) % 64 + 64 * ((y + r)
            % 32),
{
}

/// Draws the `n` rows of memory at `start` as a sprite at `(x, y)`, flipping
/// each covered cell; returns whether a lit cell went dark.
pub fn draw_sprite(screen: &mut Vec<bool>, ram: &Vec<u8>, start: usize, n: usize, x: u8, y: u8) -> (r: bool)
    requires
        old(screen)@.len() == 2048,
        ram@.len() == 4096,
        start + n <= ram@.len(),
        n < 32,
    ensures
        final(screen)@ == drawn(old(screen)@, x as int, y as int, ram@.subrange(start as int, start + n)),
        r == collides(old(screen)@, x as int, y as int, ram@.subrange(start as int, start + n)),
{
    let ghost rows = ram@.subrange(start as int, start + n);
    let ghost s0 = screen@;
    let mut flipped = false;
    let mut r: usize = 0;
    while r < n
        invariant
            rows == ram@.subrange(start as int, start + n),
            start + n <= ram@.len(),
            ram@.len() == 4096,
            n < 32,
            r <= n,
            screen@.len() == 2048,
            s0.len() == 2048,
            forall|k: int| 0 <= k < 2048 ==> #[trigger] screen@[k] == (s0[k] != covered_before(x as int, y as int, rows, r as int, 0, k % 64, k / 64)),
            flipped == exists|k: int| 0 <= k < 2048 && s0[k] && #[trigger] covered_before(x as int, y as int, rows, r as int, 0, k % 64, k / 64),
        decreases n - r,
    {
        let pixels = ram[start + r];
        assert(pixels == rows[r as int]);
        let mut c: usize = 0;
        while c < 8
            invariant
                rows == ram@.subrange(start as int, start + n),
                pixels == rows[r as int],
                start + n <= ram@.len(),
                ram@.len() == 4096,
                n < 32,
                r < n,
                c <= 8,
                screen@.len() == 2048,
                s0.len() == 2048,
                forall|k: int| 0 <= k < 2048 ==> #[trigger] screen@[k] == (s0[k] != covered_before(x as int, y as int, rows, r as int, c as int, k % 64, k / 64)),
                flipped == exists|k: int| 0 <= k < 2048 && s0[k] && #[trigger] covered_before(x as int, y as int, rows, r as int, c as int, k % 64, k / 64),
            decreases 8 - c,
        {
            let ghost fl0 = flipped;
            let bit: u8 = (pixels >> (7 - c as u8)) & 1;
            let idx: usize = (x as usize + c) % SCREEN_W + SCREEN_W * ((y as usize + r) % SCREEN_H);
            let ghost xi = x as int;
            let ghost yi = y as int;
            proof {
                lemma_target(xi, yi, r as int, c as int, idx as int);
                assert(sprite_bit(pixels, c as int) == (bit == 1u8));
                assert(!covered_before(xi, yi, rows, r as int, c as int, idx as int % 64, idx as int / 64));
                assert forall|k: int| 0 <= k < 2048 implies #[trigger] covered_before(xi, yi, rows, r as int, c + 1, k % 64, k / 64)
                    == (covered_before(xi, yi, rows, r as int, c as int, k % 64, k / 64) || (k == idx && bit == 1u8)) by {
                    lemma_target(xi, yi, r as int, c as int, k);
                    if k == idx {
                        assert((k / 64 - yi) % 32 == r);
                        assert((k % 64 - xi) % 64 == c);
                        assert(rows[r as int] == pixels);
                        assert(rows.len() == n);
                        assert(sprite_bit(rows[r as int], c as int) == (bit == 1u8));
                        assert(covered_before(xi, yi, rows, r as int, c + 1, k % 64, k / 64) == (bit == 1u8));
                    } else {
                        let row = (k / 64 - yi) % 32;
                        let col = (k % 64 - xi) % 64;
                        assert(!(row == r && col == c));
                        assert(covered_before(xi, yi, rows, r as int, c + 1, k % 64, k / 64) == covered_before(xi, yi, rows, r as int, c as int, k % 64, k / 64));
                    }
                }
            }
            if bit == 1 {
                let lit = screen[idx];
                flipped = flipped || lit;
                screen.set(idx, !lit);
            }
            proof {
                if flipped {
                    if fl0 {
                        let k0 = choose|k: int| 0 <= k < 2048 && s0[k] && #[trigger] covered_before(xi, yi, rows, r as int, c as int, k % 64, k / 64);
                        assert(covered_before(xi, yi, rows, r as int, c + 1, k0 % 64, k0 / 64));
                    } else {
                        assert(covered_before(xi, yi, rows, r as int, c + 1, idx as int % 64, idx as int / 64));
                    }
                } else {
                    assert forall|k: int| 0 <= k < 2048 && s0[k] implies !#[trigger] covered_before(xi, yi, rows, r as int, c + 1, k % 64, k / 64) by {
                        if covered_before(xi, yi, rows, r as int, c as int, k % 64, k / 64) {
                            assert(fl0);
                        }
                    }
                }
            }
            c = c + 1;
        }
        proof {
            assert forall|k: int| 0 <= k < 2048 implies #[trigger] covered_before(x as int, y as int, rows, r as int, 8, k % 64, k / 64)
                == covered_before(x as int, y as int, rows, r + 1, 0, k % 64, k / 64) by {}
            if flipped {
                let k0 = choose|k: int| 0 <= k < 2048 && s0[k] && #[trigger] covered_before(x as int, y as int, rows, r as int, 8, k % 64, k / 64);
                assert(covered_before(x as int, y as int, rows, r + 1, 0, k0 % 64, k0 / 64));
            } else {
                assert forall|k: int| 0 <= k < 2048 && s0[k] implies !#[trigger] covered_before(x as int, y as int, rows, r + 1, 0, k % 64, k / 64) by {
                    assert(!covered_before(x as int, y as int, rows, r as int, 8, k % 64, k / 64));
                }
            }
        }
        r = r + 1;
    }
    assert(screen@ =~= drawn(s0, x as int, y as int, rows));
    proof {
        if flipped {
            let k0 = choose|k: int| 0 <= k < 2048 && s0[k] && #[trigger] covered_before(x as int, y as int, rows, n as int, 0, k % 64, k / 64);
            assert(covered(x as int, y as int, rows, k0 % 64, k0 / 64));
        }
    }
    flipped
}

const SCREEN_W: usize = 64;

const SCREEN_H: usize = 32;

} // verus!
