//! The application's icon.

use vstd::prelude::*;

verus! {

/// The icon is as wide and as high as this.
pub const ICON_SIDE: usize = 64;

/// The distance between two numbers.
pub open spec fn distance(a: int, b: int) -> int {
    if a < b {
        b - a
    } else {
        a - b
    }
}

/// The point lies on the rounded square.
pub open spec fn on_square(x: int, y: int) -> bool {
    let corner = !(14 <= x < 50) && !(14 <= y < 50);
    let dx = distance(
        x,
        if x < 14 {
            14
        } else {
            49
        },
    );
    let dy = distance(
        y,
        if y < 14 {
            14
        } else {
            49
        },
    );
    6 <= x < 58 && 6 <= y < 58 && !(corner && dx * dx + dy * dy > 64)
}

/// The point lies on one of the six bars of the level meter.
pub open spec fn on_bar(x: int, y: int) -> bool {
    ||| 19 <= x < 22 && 27 <= y < 37
    ||| 24 <= x < 27 && 22 <= y < 42
    ||| 29 <= x < 32 && 17 <= y < 47
    ||| 34 <= x < 37 && 21 <= y < 43
    ||| 39 <= x < 42 && 25 <= y < 39
    ||| 44 <= x < 47 && 28 <= y < 36
}

/// The colour of a point: red, green, blue and opacity.
pub open spec fn colour(x: int, y: int) -> Seq<u8> {
    if on_bar(x, y) {
        seq![243u8, 246, 242, 255]
    } else if on_square(x, y) {
        seq![32u8, 37, 34, 255]
    } else {
        seq![0u8, 0, 0, 0]
    }
}

fn apart(a: usize, b: usize) -> (result: usize)
    ensures
        result == distance(a as int, b as int),
{
    if a < b {
        b - a
    } else {
        a - b
    }
}

fn square(x: usize, y: usize) -> (result: bool)
    requires
        x < 64,
        y < 64,
    ensures
        result == on_square(x as int, y as int),
{
    let corner = !(14 <= x && x < 50) && !(14 <= y && y < 50);
    let dx: usize = apart(
        x,
        if x < 14 {
            14
        } else {
            49
        },
    );
    let dy: usize = apart(
        y,
        if y < 14 {
            14
        } else {
            49
        },
    );
    assert(dx * dx <= 64 * 64 && dy * dy <= 64 * 64) by (nonlinear_arith)
        requires
            dx <= 64,
            dy <= 64,
    ;
    6 <= x && x < 58 && 6 <= y && y < 58 && !(corner && dx * dx + dy * dy > 64)
}

fn bar(x: usize, y: usize) -> (result: bool)
    ensures
        result == on_bar(x as int, y as int),
{
    (19 <= x && x < 22 && 27 <= y && y < 37) || (24 <= x && x < 27 && 22 <= y && y < 42) || (29 <= x
        && x < 32 && 17 <= y && y < 47) || (34 <= x && x < 37 && 21 <= y && y < 43) || (39 <= x && x
        < 42 && 25 <= y && y < 39) || (44 <= x && x < 47 && 28 <= y && y < 36)
}

/// The byte at a place in the icon: four bytes a point, row by row.
pub open spec fn icon_byte(i: int) -> u8 {
    colour(i / 4 % 64, i / 4 / 64)[i % 4]
}

/// The icon's points, four bytes each, row by row.
pub fn application_icon() -> (rgba: Vec<u8>)
    ensures
        rgba@.len() == ICON_SIDE * ICON_SIDE * 4,
        forall|i: int| 0 <= i < rgba@.len() ==> #[trigger] rgba@[i] == icon_byte(i),
{
    let mut rgba: Vec<u8> = Vec::new();
    let mut y: usize = 0;
    while y < ICON_SIDE
        invariant
            y <= 64,
            rgba@.len() == y * 256,
            forall|i: int| 0 <= i < rgba@.len() ==> #[trigger] rgba@[i] == icon_byte(i),
        decreases 64 - y,
    {
        let mut x: usize = 0;
        while x < ICON_SIDE
            invariant
                y < 64,
                x <= 64,
                rgba@.len() == y * 256 + x * 4,
                forall|i: int| 0 <= i < rgba@.len() ==> #[trigger] rgba@[i] == icon_byte(i),
            decreases 64 - x,
        {
            let (red, green, blue, opacity): (u8, u8, u8, u8) = if bar(x, y) {
                (243, 246, 242, 255)
            } else if square(x, y) {
                (32, 37, 34, 255)
            } else {
                (0, 0, 0, 0)
            };
            let ghost base = y * 256 + x * 4;
            assert(colour(x as int, y as int) =~= seq![red, green, blue, opacity]);
            assert forall|k: int| 0 <= k < 4 implies #[trigger] icon_byte(base + k) == colour(
                x as int,
                y as int,
            )[k] by {
                assert((base + k) / 4 == y * 64 + x);
                assert((base + k) % 4 == k);
                assert((y * 64 + x) % 64 == x);
                assert((y * 64 + x) / 64 == y);
            }
            assert(icon_byte(base + 0) == red);
            assert(icon_byte(base + 1) == green);
            assert(icon_byte(base + 2) == blue);
            assert(icon_byte(base + 3) == opacity);
            rgba.push(red);
            rgba.push(green);
            rgba.push(blue);
            rgba.push(opacity);
            x += 1;
        }
        y += 1;
    }
    rgba
}

/// The icon is a rounded square with bars on it: the square looks the same from every side,
/// the bars stand upright around its middle, and what is neither is clear.
pub proof fn the_icon_is_the_same_from_every_side(x: int, y: int)
    requires
        0 <= x < 64,
        0 <= y < 64,
    ensures
        on_square(x, y) == on_square(y, x),
        on_square(x, y) == on_square(63 - x, y),
        on_bar(x, y) == on_bar(x, 63 - y),
        on_bar(x, y) ==> on_square(x, y),
        colour(x, y)[3] == 0 <==> !on_square(x, y),
        colour(x, y) == colour(x, 63 - y),
        on_bar(x, 32) <==> 19 <= x < 47 && (x - 19) % 5 < 3,
        x < 6 || x > 57 ==> !on_square(x, y),
        14 <= x < 50 && 6 <= y < 58 ==> on_square(x, y),
{
    let dx = distance(
        x,
        if x < 14 {
            14
        } else {
            49
        },
    );
    let dy = distance(
        y,
        if y < 14 {
            14
        } else {
            49
        },
    );
    assert(dx * dx + dy * dy == dy * dy + dx * dx);
    assert(distance(
        63 - x,
        if 63 - x < 14 {
            14
        } else {
            49
        },
    ) == dx || 14 <= x < 50);
    assert(distance(
        63 - y,
        if 63 - y < 14 {
            14
        } else {
            49
        },
    ) == dy || 14 <= y < 50);
}

} // verus!
