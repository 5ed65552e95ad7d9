//! Headings and their fixed-point sines and cosines.
//!
//! A heading is an angle in whole degrees, measured clockwise from the +y
//! axis, and lies in `[0, TWO_PI_ANGLE]`: `PI_ANGLE` stands for pi radians.
//! Sines and cosines are integers in units of `TRIG_ONE`.
use vstd::prelude::*;

verus! {

/// The heading of a quarter turn (pi / 2 radians).
pub const HALF_PI_ANGLE: i64 = 90;

/// The heading of a half turn (pi radians).
pub const PI_ANGLE: i64 = 180;

/// The heading of a full turn (2 pi radians).
pub const TWO_PI_ANGLE: i64 = 360;

/// The fixed-point value that stands for 1 in sines and cosines.
pub const TRIG_ONE: i64 = 1_000_000;

/// Whether `h` is a heading that the simulation can hold.
pub open spec fn is_heading(h: int) -> bool {
    0 <= h <= TWO_PI_ANGLE
}

/// The sine of `d` degrees, for `d` in `[0, 90]`, in units of `TRIG_ONE`,
/// rounded to the nearest integer.
#[verifier::opaque]
pub open spec fn quarter_sine(d: int) -> int {
    if d == 0 {
        0
    } else if d == 1 {
        17452
    } else if d == 2 {
        34899
    } else if d == 3 {
        52336
    } else if d == 4 {
        69756
    } else if d == 5 {
        87156
    } else if d == 6 {
        104528
    } else if d == 7 {
        121869
    } else if d == 8 {
        139173
    } else if d == 9 {
        156434
    } else if d == 10 {
        173648
    } else if d == 11 {
        190809
    } else if d == 12 {
        207912
    } else if d == 13 {
        224951
    } else if d == 14 {
        241922
    } else if d == 15 {
        258819
    } else if d == 16 {
        275637
    } else if d == 17 {
        292372
    } else if d == 18 {
        309017
    } else if d == 19 {
        325568
    } else if d == 20 {
        342020
    } else if d == 21 {
        358368
    } else if d == 22 {
        374607
    } else if d == 23 {
        390731
    } else if d == 24 {
        406737
    } else if d == 25 {
        422618
    } else if d == 26 {
        438371
    } else if d == 27 {
        453990
    } else if d == 28 {
        469472
    } else if d == 29 {
        484810
    } else if d == 30 {
        500000
    } else if d == 31 {
        515038
    } else if d == 32 {
        529919
    } else if d == 33 {
        544639
    } else if d == 34 {
        559193
    } else if d == 35 {
        573576
    } else if d == 36 {
        587785
    } else if d == 37 {
        601815
    } else if d == 38 {
        615661
    } else if d == 39 {
        629320
    } else if d == 40 {
        642788
    } else if d == 41 {
        656059
    } else if d == 42 {
        669131
    } else if d == 43 {
        681998
    } else if d == 44 {
        694658
    } else if d == 45 {
        707107
    } else if d == 46 {
        719340
    } else if d == 47 {
        731354
    } else if d == 48 {
        743145
    } else if d == 49 {
        754710
    } else if d == 50 {
        766044
    } else if d == 51 {
        777146
    } else if d == 52 {
        788011
    } else if d == 53 {
        798636
    } else if d == 54 {
        809017
    } else if d == 55 {
        819152
    } else if d == 56 {
        829038
    } else if d == 57 {
        838671
    } else if d == 58 {
        848048
    } else if d == 59 {
        857167
    } else if d == 60 {
        866025
    } else if d == 61 {
        874620
    } else if d == 62 {
        882948
    } else if d == 63 {
        891007
    } else if d == 64 {
        898794
    } else if d == 65 {
        906308
    } else if d == 66 {
        913545
    } else if d == 67 {
        920505
    } else if d == 68 {
        927184
    } else if d == 69 {
        933580
    } else if d == 70 {
        939693
    } else if d == 71 {
        945519
    } else if d == 72 {
        951057
    } else if d == 73 {
        956305
    } else if d == 74 {
        961262
    } else if d == 75 {
        965926
    } else if d == 76 {
        970296
    } else if d == 77 {
        974370
    } else if d == 78 {
        978148
    } else if d == 79 {
        981627
    } else if d == 80 {
        984808
    } else if d == 81 {
        987688
    } else if d == 82 {
        990268
    } else if d == 83 {
        992546
    } else if d == 84 {
        994522
    } else if d == 85 {
        996195
    } else if d == 86 {
        997564
    } else if d == 87 {
        998630
    } else if d == 88 {
        999391
    } else if d == 89 {
        999848
    } else {
        1000000
    }
}

/// The sine of an angle `t` in `[0, pi]`, from its mirror image in the
/// first quadrant.
pub open spec fn half_turn_sine(t: int) -> int {
    if t <= HALF_PI_ANGLE {
        quarter_sine(t)
    } else {
        quarter_sine(PI_ANGLE - t)
    }
}

/// The sine of a heading.
pub open spec fn sine(h: int) -> int {
    if h <= PI_ANGLE {
        half_turn_sine(h)
    } else {
        -half_turn_sine(h - PI_ANGLE)
    }
}

/// The cosine of a heading.
pub open spec fn cosine(h: int) -> int {
    if h <= HALF_PI_ANGLE {
        half_turn_sine(h + HALF_PI_ANGLE)
    } else if h <= 3 * HALF_PI_ANGLE {
        -half_turn_sine(h - HALF_PI_ANGLE)
    } else {
        half_turn_sine(h - 3 * HALF_PI_ANGLE)
    }
}

/// The heading after a wall parallel to the y axis turns it back: `2 pi - h`.
pub open spec fn reflect_x(h: int) -> int {
    TWO_PI_ANGLE - h
}

/// The heading after a wall parallel to the x axis turns it back:
/// `pi - h` for `h <= pi`, `2 pi - h` above.
pub open spec fn reflect_y(h: int) -> int {
    if h <= PI_ANGLE {
        PI_ANGLE - h
    } else {
        TWO_PI_ANGLE - h
    }
}

proof fn lemma_half_turn_sine_symmetric(t: int)
    requires
        0 <= t <= PI_ANGLE,
    ensures
        half_turn_sine(t) == half_turn_sine(PI_ANGLE - t),
{
}

proof fn lemma_quarter_unit_circle(d: int)
    requires
        0 <= d <= HALF_PI_ANGLE,
    ensures
        TRIG_ONE * TRIG_ONE - 2 * TRIG_ONE <= quarter_sine(d) * quarter_sine(d) + quarter_sine(
            HALF_PI_ANGLE - d,
        ) * quarter_sine(HALF_PI_ANGLE - d) <= TRIG_ONE * TRIG_ONE + 2 * TRIG_ONE,
{
    reveal(quarter_sine);
}

/// Every heading's sine and cosine satisfy `sin^2 + cos^2 = 1` to within
/// two parts in a million.
pub proof fn lemma_unit_circle(h: int)
    requires
        is_heading(h),
    ensures
        TRIG_ONE * TRIG_ONE - 2 * TRIG_ONE <= sine(h) * sine(h) + cosine(h) * cosine(h)
            <= TRIG_ONE * TRIG_ONE + 2 * TRIG_ONE,
{
    let a = if h <= HALF_PI_ANGLE {
        h
    } else if h <= PI_ANGLE {
        PI_ANGLE - h
    } else if h <= 3 * HALF_PI_ANGLE {
        h - PI_ANGLE
    } else {
        TWO_PI_ANGLE - h
    };
    lemma_quarter_unit_circle(a);
    let s = quarter_sine(a);
    let c = quarter_sine(HALF_PI_ANGLE - a);
    assert(sine(h) == s || sine(h) == -s);
    assert(cosine(h) == c || cosine(h) == -c);
    assert(sine(h) * sine(h) == s * s) by (nonlinear_arith)
        requires
            sine(h) == s || sine(h) == -s,
    ;
    assert(cosine(h) * cosine(h) == c * c) by (nonlinear_arith)
        requires
            cosine(h) == c || cosine(h) == -c,
    ;
}

/// The exact values at the axes: headings 0, pi / 2, pi and 3 pi / 2 point
/// along +y, +x, -y and -x.
pub proof fn lemma_axis_values()
    ensures
        sine(0) == 0,
        cosine(0) == TRIG_ONE,
        sine(HALF_PI_ANGLE as int) == TRIG_ONE,
        cosine(HALF_PI_ANGLE as int) == 0,
        sine(PI_ANGLE as int) == 0,
        cosine(PI_ANGLE as int) == -TRIG_ONE,
        sine(3 * HALF_PI_ANGLE) == -TRIG_ONE,
        cosine(3 * HALF_PI_ANGLE) == 0,
{
    lemma_half_turn_sine_ends();
}

proof fn lemma_half_turn_sine_ends()
    ensures
        half_turn_sine(0) == 0,
        half_turn_sine(PI_ANGLE as int) == 0,
        half_turn_sine(HALF_PI_ANGLE as int) == TRIG_ONE,
{
    reveal(quarter_sine);
}

/// Reflection off a wall parallel to the y axis negates the sine and keeps
/// the cosine, for every heading.
pub proof fn lemma_reflect_x_mirrors(h: int)
    requires
        is_heading(h),
    ensures
        is_heading(reflect_x(h)),
        sine(reflect_x(h)) == -sine(h),
        cosine(reflect_x(h)) == cosine(h),
{
    let r = reflect_x(h);
    lemma_half_turn_sine_ends();
    if h < PI_ANGLE {
        lemma_half_turn_sine_symmetric(h);
    } else if h > PI_ANGLE {
        lemma_half_turn_sine_symmetric(r);
    }
    if h <= HALF_PI_ANGLE {
        lemma_half_turn_sine_symmetric(h + HALF_PI_ANGLE);
    } else if h <= 3 * HALF_PI_ANGLE {
        lemma_half_turn_sine_symmetric(h - HALF_PI_ANGLE);
    } else {
        lemma_half_turn_sine_symmetric(h - 3 * HALF_PI_ANGLE);
    }
}

/// For a heading up to pi, reflection off a wall parallel to the x axis
/// negates the cosine and keeps the sine.
pub proof fn lemma_reflect_y_mirrors(h: int)
    requires
        0 <= h <= PI_ANGLE,
    ensures
        is_heading(reflect_y(h)),
        sine(reflect_y(h)) == sine(h),
        cosine(reflect_y(h)) == -cosine(h),
{
    let r = reflect_y(h);
    lemma_half_turn_sine_ends();
    lemma_half_turn_sine_symmetric(h);
    if h <= HALF_PI_ANGLE {
        lemma_half_turn_sine_symmetric(h + HALF_PI_ANGLE);
    } else {
        lemma_half_turn_sine_symmetric(r + HALF_PI_ANGLE);
    }
}

/// Both reflections keep a heading in range.
pub proof fn lemma_reflections_keep_range(h: int)
    requires
        is_heading(h),
    ensures
        is_heading(reflect_x(h)),
        is_heading(reflect_y(h)),
{
}

fn quarter_sine_of(d: i64) -> (r: i64)
    requires
        0 <= d <= HALF_PI_ANGLE,
    ensures
        r == quarter_sine(d as int),
        0 <= r <= TRIG_ONE,
{
    proof {
        reveal(quarter_sine);
    }
    match d {
        0 => 0,
        1 => 17452,
        2 => 34899,
        3 => 52336,
        4 => 69756,
        5 => 87156,
        6 => 104528,
        7 => 121869,
        8 => 139173,
        9 => 156434,
        10 => 173648,
        11 => 190809,
        12 => 207912,
        13 => 224951,
        14 => 241922,
        15 => 258819,
        16 => 275637,
        17 => 292372,
        18 => 309017,
        19 => 325568,
        20 => 342020,
        21 => 358368,
        22 => 374607,
        23 => 390731,
        24 => 406737,
        25 => 422618,
        26 => 438371,
        27 => 453990,
        28 => 469472,
        29 => 484810,
        30 => 500000,
        31 => 515038,
        32 => 529919,
        33 => 544639,
        34 => 559193,
        35 => 573576,
        36 => 587785,
        37 => 601815,
        38 => 615661,
        39 => 629320,
        40 => 642788,
        41 => 656059,
        42 => 669131,
        43 => 681998,
        44 => 694658,
        45 => 707107,
        46 => 719340,
        47 => 731354,
        48 => 743145,
        49 => 754710,
        50 => 766044,
        51 => 777146,
        52 => 788011,
        53 => 798636,
        54 => 809017,
        55 => 819152,
        56 => 829038,
        57 => 838671,
        58 => 848048,
        59 => 857167,
        60 => 866025,
        61 => 874620,
        62 => 882948,
        63 => 891007,
        64 => 898794,
        65 => 906308,
        66 => 913545,
        67 => 920505,
        68 => 927184,
        69 => 933580,
        70 => 939693,
        71 => 945519,
        72 => 951057,
        73 => 956305,
        74 => 961262,
        75 => 965926,
        76 => 970296,
        77 => 974370,
        78 => 978148,
        79 => 981627,
        80 => 984808,
        81 => 987688,
        82 => 990268,
        83 => 992546,
        84 => 994522,
        85 => 996195,
        86 => 997564,
        87 => 998630,
        88 => 999391,
        89 => 999848,
        _ => 1000000,
    }
}

fn half_turn_sine_of(t: i64) -> (r: i64)
    requires
        0 <= t <= PI_ANGLE,
    ensures
        r == half_turn_sine(t as int),
        0 <= r <= TRIG_ONE,
{
    if t <= HALF_PI_ANGLE {
        quarter_sine_of(t)
    } else {
        quarter_sine_of(PI_ANGLE - t)
    }
}

/// The sine of a heading.
pub fn sine_of(h: i64) -> (r: i64)
    requires
        is_heading(h as int),
    ensures
        r == sine(h as int),
        -TRIG_ONE <= r <= TRIG_ONE,
{
    if h <= PI_ANGLE {
        half_turn_sine_of(h)
    } else {
        -half_turn_sine_of(h - PI_ANGLE)
    }
}

/// The cosine of a heading.
pub fn cosine_of(h: i64) -> (r: i64)
    requires
        is_heading(h as int),
    ensures
        r == cosine(h as int),
        -TRIG_ONE <= r <= TRIG_ONE,
{
    if h <= HALF_PI_ANGLE {
        half_turn_sine_of(h + HALF_PI_ANGLE)
    } else if h <= 3 * HALF_PI_ANGLE {
        -half_turn_sine_of(h - HALF_PI_ANGLE)
    } else {
        half_turn_sine_of(h - 3 * HALF_PI_ANGLE)
    }
}

/// The heading after a wall parallel to the y axis is reached.
pub fn reflect_x_heading(h: i64) -> (r: i64)
    requires
        is_heading(h as int),
    ensures
        r == reflect_x(h as int),
        is_heading(r as int),
{
    TWO_PI_ANGLE - h
}

/// The heading after a wall parallel to the x axis is reached.
pub fn reflect_y_heading(h: i64) -> (r: i64)
    requires
        is_heading(h as int),
    ensures
        r == reflect_y(h as int),
        is_heading(r as int),
{
    if h <= PI_ANGLE {
        PI_ANGLE - h
    } else {
        TWO_PI_ANGLE - h
    }
}

} // verus!
