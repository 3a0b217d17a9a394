//! Coverage of a raster by a disc: the cells of a grid whose centre lies
//! inside a circle are counted.

use vstd::prelude::*;

verus! {

/// Width of the raster, in cells.
pub const GRID_WIDTH: i32 = 100;

/// Height of the raster, in cells.
pub const GRID_HEIGHT: i32 = 100;

/// Both coordinates of the circle's centre.
pub const CIRCLE_CENTER: i32 = 50;

/// Square of the circle's radius.
pub const RADIUS_SQUARED: i32 = 1600;

/// The cell `(x, y)` lies strictly inside the circle.
pub open spec fn covered(x: int, y: int) -> bool {
    (x - 50) * (x - 50) + (y - 50) * (y - 50) < 1600
}

/// Number of covered cells among the first `width` cells of row `y`.
pub open spec fn row_hits(y: int, width: int) -> int
    decreases width,
{
    if width <= 0 {
        0
    } else {
        row_hits(y, width - 1) + if covered(width - 1, y) {
            1int
        } else {
            0int
        }
    }
}

/// Number of covered cells in the first `height` rows, each `width` cells
/// wide.
pub open spec fn grid_hits(height: int, width: int) -> int
    decreases height,
{
    if height <= 0 {
        0
    } else {
        grid_hits(height - 1, width) + row_hits(height - 1, width)
    }
}

/// A row holds at most as many covered cells as it has cells.
proof fn lemma_row_hits_bounded(y: int, width: int)
    requires
        0 <= width,
    ensures
        0 <= row_hits(y, width) <= width,
    decreases width,
{
    if width > 0 {
        lemma_row_hits_bounded(y, width - 1);
    }
}

/// A row too far from the centre holds no covered cell.
proof fn lemma_row_outside(y: int, width: int)
    requires
        (y - 50) * (y - 50) >= 1600,
    ensures
        row_hits(y, width) == 0,
    decreases width,
{
    if width > 0 {
        lemma_row_outside(y, width - 1);
        assert((width - 1 - 50) * (width - 1 - 50) >= 0) by (nonlinear_arith);
    }
}

/// In a row that the circle crosses, the covered cells are those within
/// `half` of the centre's column, where `half` is the largest distance that
/// stays inside; this counts them among the first `width` cells.
proof fn lemma_row_prefix(y: int, half: int, width: int)
    requires
        0 <= half < 50,
        half * half + (y - 50) * (y - 50) < 1600 <= (half + 1) * (half + 1) + (y - 50) * (y - 50),
        0 <= width <= 100,
    ensures
        row_hits(y, width) == if width <= 50 - half {
            0
        } else if width <= 50 + half + 1 {
            width - (50 - half)
        } else {
            2 * half + 1
        },
    decreases width,
{
    if width > 0 {
        lemma_row_prefix(y, half, width - 1);
        let dx = width - 1 - 50;
        let rest = (y - 50) * (y - 50);
        assert(dx * dx + rest < 1600 <==> -half <= dx <= half) by (nonlinear_arith)
            requires
                0 <= half,
                half * half + rest < 1600 <= (half + 1) * (half + 1) + rest,
        ;
    }
}

/// A row that the circle crosses holds `2 * half + 1` covered cells.
proof fn lemma_row_inside(y: int, half: int)
    requires
        0 <= half < 50,
        half * half + (y - 50) * (y - 50) < 1600 <= (half + 1) * (half + 1) + (y - 50) * (y - 50),
    ensures
        row_hits(y, 100) == 2 * half + 1,
{
    lemma_row_prefix(y, half, 100);
}

/// The count over rows 0 to 19, row by row.
proof fn lemma_rows_0_to_19()
    ensures
        grid_hits(20, 100) == 333,
{
    assert(grid_hits(0, 100) == 0);
    lemma_row_outside(0, 100);
    assert(grid_hits(1, 100) == 0);
    lemma_row_outside(1, 100);
    assert(grid_hits(2, 100) == 0);
    lemma_row_outside(2, 100);
    assert(grid_hits(3, 100) == 0);
    lemma_row_outside(3, 100);
    assert(grid_hits(4, 100) == 0);
    lemma_row_outside(4, 100);
    assert(grid_hits(5, 100) == 0);
    lemma_row_outside(5, 100);
    assert(grid_hits(6, 100) == 0);
    lemma_row_outside(6, 100);
    assert(grid_hits(7, 100) == 0);
    lemma_row_outside(7, 100);
    assert(grid_hits(8, 100) == 0);
    lemma_row_outside(8, 100);
    assert(grid_hits(9, 100) == 0);
    lemma_row_outside(9, 100);
    assert(grid_hits(10, 100) == 0);
    lemma_row_outside(10, 100);
    assert(grid_hits(11, 100) == 0);
    lemma_row_inside(11, 8);
    assert(grid_hits(12, 100) == 17);
    lemma_row_inside(12, 12);
    assert(grid_hits(13, 100) == 42);
    lemma_row_inside(13, 15);
    assert(grid_hits(14, 100) == 73);
    lemma_row_inside(14, 17);
    assert(grid_hits(15, 100) == 108);
    lemma_row_inside(15, 19);
    assert(grid_hits(16, 100) == 147);
    lemma_row_inside(16, 21);
    assert(grid_hits(17, 100) == 190);
    lemma_row_inside(17, 22);
    assert(grid_hits(18, 100) == 235);
    lemma_row_inside(18, 23);
    assert(grid_hits(19, 100) == 282);
    lemma_row_inside(19, 25);
    assert(grid_hits(20, 100) == 333);
}

/// The count over rows 20 to 39, row by row.
proof fn lemma_rows_20_to_39()
    requires
        grid_hits(20, 100) == 333,
    ensures
        grid_hits(40, 100) == 1681,
{
    lemma_row_inside(20, 26);
    assert(grid_hits(21, 100) == 386);
    lemma_row_inside(21, 27);
    assert(grid_hits(22, 100) == 441);
    lemma_row_inside(22, 28);
    assert(grid_hits(23, 100) == 498);
    lemma_row_inside(23, 29);
    assert(grid_hits(24, 100) == 557);
    lemma_row_inside(24, 30);
    assert(grid_hits(25, 100) == 618);
    lemma_row_inside(25, 31);
    assert(grid_hits(26, 100) == 681);
    lemma_row_inside(26, 31);
    assert(grid_hits(27, 100) == 744);
    lemma_row_inside(27, 32);
    assert(grid_hits(28, 100) == 809);
    lemma_row_inside(28, 33);
    assert(grid_hits(29, 100) == 876);
    lemma_row_inside(29, 34);
    assert(grid_hits(30, 100) == 945);
    lemma_row_inside(30, 34);
    assert(grid_hits(31, 100) == 1014);
    lemma_row_inside(31, 35);
    assert(grid_hits(32, 100) == 1085);
    lemma_row_inside(32, 35);
    assert(grid_hits(33, 100) == 1156);
    lemma_row_inside(33, 36);
    assert(grid_hits(34, 100) == 1229);
    lemma_row_inside(34, 36);
    assert(grid_hits(35, 100) == 1302);
    lemma_row_inside(35, 37);
    assert(grid_hits(36, 100) == 1377);
    lemma_row_inside(36, 37);
    assert(grid_hits(37, 100) == 1452);
    lemma_row_inside(37, 37);
    assert(grid_hits(38, 100) == 1527);
    lemma_row_inside(38, 38);
    assert(grid_hits(39, 100) == 1604);
    lemma_row_inside(39, 38);
    assert(grid_hits(40, 100) == 1681);
}

/// The count over rows 40 to 59, row by row.
proof fn lemma_rows_40_to_59()
    requires
        grid_hits(40, 100) == 1681,
    ensures
        grid_hits(60, 100) == 3255,
{
    lemma_row_inside(40, 38);
    assert(grid_hits(41, 100) == 1758);
    lemma_row_inside(41, 38);
    assert(grid_hits(42, 100) == 1835);
    lemma_row_inside(42, 39);
    assert(grid_hits(43, 100) == 1914);
    lemma_row_inside(43, 39);
    assert(grid_hits(44, 100) == 1993);
    lemma_row_inside(44, 39);
    assert(grid_hits(45, 100) == 2072);
    lemma_row_inside(45, 39);
    assert(grid_hits(46, 100) == 2151);
    lemma_row_inside(46, 39);
    assert(grid_hits(47, 100) == 2230);
    lemma_row_inside(47, 39);
    assert(grid_hits(48, 100) == 2309);
    lemma_row_inside(48, 39);
    assert(grid_hits(49, 100) == 2388);
    lemma_row_inside(49, 39);
    assert(grid_hits(50, 100) == 2467);
    lemma_row_inside(50, 39);
    assert(grid_hits(51, 100) == 2546);
    lemma_row_inside(51, 39);
    assert(grid_hits(52, 100) == 2625);
    lemma_row_inside(52, 39);
    assert(grid_hits(53, 100) == 2704);
    lemma_row_inside(53, 39);
    assert(grid_hits(54, 100) == 2783);
    lemma_row_inside(54, 39);
    assert(grid_hits(55, 100) == 2862);
    lemma_row_inside(55, 39);
    assert(grid_hits(56, 100) == 2941);
    lemma_row_inside(56, 39);
    assert(grid_hits(57, 100) == 3020);
    lemma_row_inside(57, 39);
    assert(grid_hits(58, 100) == 3099);
    lemma_row_inside(58, 39);
    assert(grid_hits(59, 100) == 3178);
    lemma_row_inside(59, 38);
    assert(grid_hits(60, 100) == 3255);
}

/// The count over rows 60 to 79, row by row.
proof fn lemma_rows_60_to_79()
    requires
        grid_hits(60, 100) == 3255,
    ensures
        grid_hits(80, 100) == 4627,
{
    lemma_row_inside(60, 38);
    assert(grid_hits(61, 100) == 3332);
    lemma_row_inside(61, 38);
    assert(grid_hits(62, 100) == 3409);
    lemma_row_inside(62, 38);
    assert(grid_hits(63, 100) == 3486);
    lemma_row_inside(63, 37);
    assert(grid_hits(64, 100) == 3561);
    lemma_row_inside(64, 37);
    assert(grid_hits(65, 100) == 3636);
    lemma_row_inside(65, 37);
    assert(grid_hits(66, 100) == 3711);
    lemma_row_inside(66, 36);
    assert(grid_hits(67, 100) == 3784);
    lemma_row_inside(67, 36);
    assert(grid_hits(68, 100) == 3857);
    lemma_row_inside(68, 35);
    assert(grid_hits(69, 100) == 3928);
    lemma_row_inside(69, 35);
    assert(grid_hits(70, 100) == 3999);
    lemma_row_inside(70, 34);
    assert(grid_hits(71, 100) == 4068);
    lemma_row_inside(71, 34);
    assert(grid_hits(72, 100) == 4137);
    lemma_row_inside(72, 33);
    assert(grid_hits(73, 100) == 4204);
    lemma_row_inside(73, 32);
    assert(grid_hits(74, 100) == 4269);
    lemma_row_inside(74, 31);
    assert(grid_hits(75, 100) == 4332);
    lemma_row_inside(75, 31);
    assert(grid_hits(76, 100) == 4395);
    lemma_row_inside(76, 30);
    assert(grid_hits(77, 100) == 4456);
    lemma_row_inside(77, 29);
    assert(grid_hits(78, 100) == 4515);
    lemma_row_inside(78, 28);
    assert(grid_hits(79, 100) == 4572);
    lemma_row_inside(79, 27);
    assert(grid_hits(80, 100) == 4627);
}

/// The count over rows 80 to 99, row by row.
proof fn lemma_rows_80_to_99()
    requires
        grid_hits(80, 100) == 4627,
    ensures
        grid_hits(100, 100) == 5013,
{
    lemma_row_inside(80, 26);
    assert(grid_hits(81, 100) == 4680);
    lemma_row_inside(81, 25);
    assert(grid_hits(82, 100) == 4731);
    lemma_row_inside(82, 23);
    assert(grid_hits(83, 100) == 4778);
    lemma_row_inside(83, 22);
    assert(grid_hits(84, 100) == 4823);
    lemma_row_inside(84, 21);
    assert(grid_hits(85, 100) == 4866);
    lemma_row_inside(85, 19);
    assert(grid_hits(86, 100) == 4905);
    lemma_row_inside(86, 17);
    assert(grid_hits(87, 100) == 4940);
    lemma_row_inside(87, 15);
    assert(grid_hits(88, 100) == 4971);
    lemma_row_inside(88, 12);
    assert(grid_hits(89, 100) == 4996);
    lemma_row_inside(89, 8);
    assert(grid_hits(90, 100) == 5013);
    lemma_row_outside(90, 100);
    assert(grid_hits(91, 100) == 5013);
    lemma_row_outside(91, 100);
    assert(grid_hits(92, 100) == 5013);
    lemma_row_outside(92, 100);
    assert(grid_hits(93, 100) == 5013);
    lemma_row_outside(93, 100);
    assert(grid_hits(94, 100) == 5013);
    lemma_row_outside(94, 100);
    assert(grid_hits(95, 100) == 5013);
    lemma_row_outside(95, 100);
    assert(grid_hits(96, 100) == 5013);
    lemma_row_outside(96, 100);
    assert(grid_hits(97, 100) == 5013);
    lemma_row_outside(97, 100);
    assert(grid_hits(98, 100) == 5013);
    lemma_row_outside(98, 100);
    assert(grid_hits(99, 100) == 5013);
    lemma_row_outside(99, 100);
    assert(grid_hits(100, 100) == 5013);
}

/// The raster holds 5013 covered cells.
pub proof fn lemma_grid_hits()
    ensures
        grid_hits(100, 100) == 5013,
{
    lemma_rows_0_to_19();
    lemma_rows_20_to_39();
    lemma_rows_40_to_59();
    lemma_rows_60_to_79();
    lemma_rows_80_to_99();
}

/// The coverage workload: counts the cells of the 100 by 100 raster that
/// lie inside the circle of radius 40 about `(50, 50)`.
pub fn rust_ray_trace() -> (hits: i32)
    ensures
        hits == grid_hits(100, 100),
        hits == 5013,
{
    proof {
        lemma_grid_hits();
    }
    let mut hits: i32 = 0;
    for y in 0..GRID_HEIGHT
        invariant
            hits == grid_hits(y as int, 100),
            0 <= hits <= y * 100,
    {
        for x in 0..GRID_WIDTH
            invariant
                0 <= y < 100,
                hits == grid_hits(y as int, 100) + row_hits(y as int, x as int),
                0 <= hits <= y * 100 + x,
        {
            let dx: i32 = x - CIRCLE_CENTER;
            let dy: i32 = y - CIRCLE_CENTER;
            assert(0 <= dx * dx <= 2500 && 0 <= dy * dy <= 2500) by (nonlinear_arith)
                requires
                    -50 <= dx < 50,
                    -50 <= dy < 50,
            ;
            if dx * dx + dy * dy < RADIUS_SQUARED {
                hits += 1;
            }
        }
        proof {
            lemma_row_hits_bounded(y as int, 100);
        }
    }
    hits
}

} // verus!
