//! Angles in whole degrees, and their sine and cosine in millionths from a
//! table of the first quarter of the wave.

use vstd::prelude::*;
use crate::fixed::UNIT;

verus! {

/// Sine of a whole number of degrees between 0 and 90, in millionths,
/// rounded to the nearest millionth. Outside that range it is 1_000_000.
#[verifier::opaque]
pub open spec fn sin_quarter(degrees: int) -> int {
    if degrees == 0 {
        0
    } else if degrees == 1 {
        17452
    } else if degrees == 2 {
        34899
    } else if degrees == 3 {
        52336
    } else if degrees == 4 {
        69756
    } else if degrees == 5 {
        87156
    } else if degrees == 6 {
        104528
    } else if degrees == 7 {
        121869
    } else if degrees == 8 {
        139173
    } else if degrees == 9 {
        156434
    } else if degrees == 10 {
        173648
    } else if degrees == 11 {
        190809
    } else if degrees == 12 {
        207912
    } else if degrees == 13 {
        224951
    } else if degrees == 14 {
        241922
    } else if degrees == 15 {
        258819
    } else if degrees == 16 {
        275637
    } else if degrees == 17 {
        292372
    } else if degrees == 18 {
        309017
    } else if degrees == 19 {
        325568
    } else if degrees == 20 {
        342020
    } else if degrees == 21 {
        358368
    } else if degrees == 22 {
        374607
    } else if degrees == 23 {
        390731
    } else if degrees == 24 {
        406737
    } else if degrees == 25 {
        422618
    } else if degrees == 26 {
        438371
    } else if degrees == 27 {
        453990
    } else if degrees == 28 {
        469472
    } else if degrees == 29 {
        484810
    } else if degrees == 30 {
        500000
    } else if degrees == 31 {
        515038
    } else if degrees == 32 {
        529919
    } else if degrees == 33 {
        544639
    } else if degrees == 34 {
        559193
    } else if degrees == 35 {
        573576
    } else if degrees == 36 {
        587785
    } else if degrees == 37 {
        601815
    } else if degrees == 38 {
        615661
    } else if degrees == 39 {
        629320
    } else if degrees == 40 {
        642788
    } else if degrees == 41 {
        656059
    } else if degrees == 42 {
        669131
    } else if degrees == 43 {
        681998
    } else if degrees == 44 {
        694658
    } else if degrees == 45 {
        707107
    } else if degrees == 46 {
        719340
    } else if degrees == 47 {
        731354
    } else if degrees == 48 {
        743145
    } else if degrees == 49 {
        754710
    } else if degrees == 50 {
        766044
    } else if degrees == 51 {
        777146
    } else if degrees == 52 {
        788011
    } else if degrees == 53 {
        798636
    } else if degrees == 54 {
        809017
    } else if degrees == 55 {
        819152
    } else if degrees == 56 {
        829038
    } else if degrees == 57 {
        838671
    } else if degrees == 58 {
        848048
    } else if degrees == 59 {
        857167
    } else if degrees == 60 {
        866025
    } else if degrees == 61 {
        874620
    } else if degrees == 62 {
        882948
    } else if degrees == 63 {
        891007
    } else if degrees == 64 {
        898794
    } else if degrees == 65 {
        906308
    } else if degrees == 66 {
        913545
    } else if degrees == 67 {
        920505
    } else if degrees == 68 {
        927184
    } else if degrees == 69 {
        933580
    } else if degrees == 70 {
        939693
    } else if degrees == 71 {
        945519
    } else if degrees == 72 {
        951057
    } else if degrees == 73 {
        956305
    } else if degrees == 74 {
        961262
    } else if degrees == 75 {
        965926
    } else if degrees == 76 {
        970296
    } else if degrees == 77 {
        974370
    } else if degrees == 78 {
        978148
    } else if degrees == 79 {
        981627
    } else if degrees == 80 {
        984808
    } else if degrees == 81 {
        987688
    } else if degrees == 82 {
        990268
    } else if degrees == 83 {
        992546
    } else if degrees == 84 {
        994522
    } else if degrees == 85 {
        996195
    } else if degrees == 86 {
        997564
    } else if degrees == 87 {
        998630
    } else if degrees == 88 {
        999391
    } else if degrees == 89 {
        999848
    } else {
        1_000_000
    }
}

/// Sine of any whole number of degrees, in millionths: the first quarter
/// wave, mirrored at 90 degrees and negated past 180 degrees.
#[verifier::opaque]
pub open spec fn sin_fixed(angle: int) -> int {
    let a = angle % 360;
    if a <= 90 {
        sin_quarter(a)
    } else if a <= 180 {
        sin_quarter(180 - a)
    } else if a <= 270 {
        -sin_quarter(a - 180)
    } else {
        -sin_quarter(360 - a)
    }
}

/// Cosine of any whole number of degrees, in millionths.
pub open spec fn cos_fixed(angle: int) -> int {
    sin_fixed(angle + 90)
}

/// The representative of `angle` in `[0, 360)`.
pub open spec fn normalized(angle: int) -> int {
    angle % 360
}

/// The unit vector of a facing angle. The second component is negated
/// because the y axis of the world points down the screen.
pub open spec fn deltas(angle: int) -> (int, int) {
    (cos_fixed(angle), -sin_fixed(angle))
}

fn sine_quarter(degrees: i32) -> (r: i64)
    requires
        0 <= degrees <= 90,
    ensures
        r == sin_quarter(degrees as int),
{
    reveal(sin_quarter);
    match degrees {
        0 => 0,
        1 => 17452,
        2 => 34899,
        3 => 52336,
        4 => 69756,
        5 => 87156,
        6 => 104528,
        7 => 121869,
        8 => 139173,
        9 => 156434,
        10 => 173648,
        11 => 190809,
        12 => 207912,
        13 => 224951,
        14 => 241922,
        15 => 258819,
        16 => 275637,
        17 => 292372,
        18 => 309017,
        19 => 325568,
        20 => 342020,
        21 => 358368,
        22 => 374607,
        23 => 390731,
        24 => 406737,
        25 => 422618,
        26 => 438371,
        27 => 453990,
        28 => 469472,
        29 => 484810,
        30 => 500000,
        31 => 515038,
        32 => 529919,
        33 => 544639,
        34 => 559193,
        35 => 573576,
        36 => 587785,
        37 => 601815,
        38 => 615661,
        39 => 629320,
        40 => 642788,
        41 => 656059,
        42 => 669131,
        43 => 681998,
        44 => 694658,
        45 => 707107,
        46 => 719340,
        47 => 731354,
        48 => 743145,
        49 => 754710,
        50 => 766044,
        51 => 777146,
        52 => 788011,
        53 => 798636,
        54 => 809017,
        55 => 819152,
        56 => 829038,
        57 => 838671,
        58 => 848048,
        59 => 857167,
        60 => 866025,
        61 => 874620,
        62 => 882948,
        63 => 891007,
        64 => 898794,
        65 => 906308,
        66 => 913545,
        67 => 920505,
        68 => 927184,
        69 => 933580,
        70 => 939693,
        71 => 945519,
        72 => 951057,
        73 => 956305,
        74 => 961262,
        75 => 965926,
        76 => 970296,
        77 => 974370,
        78 => 978148,
        79 => 981627,
        80 => 984808,
        81 => 987688,
        82 => 990268,
        83 => 992546,
        84 => 994522,
        85 => 996195,
        86 => 997564,
        87 => 998630,
        88 => 999391,
        89 => 999848,
        _ => 1_000_000,
    }
}

/// Brings an angle in degrees into `[0, 360)`.
pub fn normalize_angle(angle: i32) -> (r: i32)
    ensures
        0 <= r < 360,
        r == normalized(angle as int),
{
    let r: i32 = angle % 360;
    if r < 0 {
        r + 360
    } else {
        r
    }
}

/// Every entry of the quarter wave lies between zero and one.
pub proof fn lemma_sin_quarter_range(degrees: int)
    ensures
        0 <= sin_quarter(degrees) <= UNIT,
{
    reveal(sin_quarter);
}

/// Sine of `angle` degrees in millionths.
pub fn sine(angle: i32) -> (r: i64)
    ensures
        r == sin_fixed(angle as int),
        -UNIT <= r <= UNIT,
{
    let a: i32 = normalize_angle(angle);
    proof {
        reveal(sin_fixed);
        lemma_sin_quarter_range(a as int);
        lemma_sin_quarter_range(180 - a);
        lemma_sin_quarter_range(a - 180);
        lemma_sin_quarter_range(360 - a);
    }
    if a <= 90 {
        sine_quarter(a)
    } else if a <= 180 {
        sine_quarter(180 - a)
    } else if a <= 270 {
        -sine_quarter(a - 180)
    } else {
        -sine_quarter(360 - a)
    }
}

/// Cosine of `angle` degrees in millionths.
pub fn cosine(angle: i32) -> (r: i64)
    ensures
        r == cos_fixed(angle as int),
        -UNIT <= r <= UNIT,
{
    let a: i32 = normalize_angle(angle);
    proof {
        lemma_sin_periodic(a + 90, angle + 90);
    }
    sine(a + 90)
}

/// Returns the x and y components of the unit vector of the given angle.
pub fn get_deltas(angle: i32) -> (r: (i64, i64))
    ensures
        r.0 == deltas(angle as int).0,
        r.1 == deltas(angle as int).1,
        -UNIT <= r.0 <= UNIT,
        -UNIT <= r.1 <= UNIT,
{
    let delta_x: i64 = cosine(angle);
    let delta_y: i64 = -sine(angle);
    (delta_x, delta_y)
}

/// Angles that differ by whole turns have the same sine and cosine.
pub proof fn lemma_sin_periodic(a: int, b: int)
    requires
        (a - b) % 360 == 0,
    ensures
        sin_fixed(a) == sin_fixed(b),
        cos_fixed(a) == cos_fixed(b),
{
    reveal(sin_fixed);
    assert(a % 360 == b % 360);
    assert((a + 90) % 360 == (b + 90) % 360);
}

/// Where the sine vanishes and which sign it has elsewhere. Away from its
/// zeros it is at least the sine of one degree in size.
pub proof fn lemma_sin_sign(angle: int)
    ensures
        normalized(angle) == 0 || normalized(angle) == 180 ==> sin_fixed(angle) == 0,
        0 < normalized(angle) < 180 ==> 17452 <= sin_fixed(angle) <= UNIT,
        180 < normalized(angle) < 360 ==> -UNIT <= sin_fixed(angle) <= -17452,
{
    reveal(sin_fixed);
    reveal(sin_quarter);
}

/// Where the cosine vanishes and which sign it has elsewhere.
pub proof fn lemma_cos_sign(angle: int)
    ensures
        normalized(angle) == 90 || normalized(angle) == 270 ==> cos_fixed(angle) == 0,
        normalized(angle) < 90 || 270 < normalized(angle) ==> 17452 <= cos_fixed(angle) <= UNIT,
        90 < normalized(angle) < 270 ==> -UNIT <= cos_fixed(angle) <= -17452,
{
    lemma_sin_sign(angle + 90);
}

/// The cosine is one exactly at whole turns and minus one exactly at half
/// turns.
pub proof fn lemma_cos_one(angle: int)
    ensures
        cos_fixed(angle) == UNIT <==> normalized(angle) == 0,
        cos_fixed(angle) == -UNIT <==> normalized(angle) == 180,
        -UNIT <= cos_fixed(angle) <= UNIT,
        -UNIT <= sin_fixed(angle) <= UNIT,
{
    reveal(sin_fixed);
    reveal(sin_quarter);
}

/// Within 30 degrees of zero the cosine is at least that of 30 degrees.
pub proof fn lemma_cos_at_most_thirty_off(angle: int)
    requires
        -30 <= angle <= 30,
    ensures
        cos_fixed(angle) >= 866_025,
{
    reveal(sin_fixed);
    reveal(sin_quarter);
}

/// A direction is never short along both axes at once: the sine or the
/// cosine is at least that of 45 degrees in size.
pub proof fn lemma_direction_is_long(angle: int)
    ensures
        cos_fixed(angle) >= 707106 || cos_fixed(angle) <= -707106 || sin_fixed(angle) >= 707106
            || sin_fixed(angle) <= -707106,
{
    reveal(sin_fixed);
    reveal(sin_quarter);
}

/// The direction of an angle is a unit vector up to rounding: the squares
/// of its components add up to one, within a millionth and a half.
pub proof fn lemma_direction_is_unit(angle: int)
    ensures
        UNIT * UNIT - 1_500_000 <= deltas(angle).0 * deltas(angle).0 + deltas(angle).1 * deltas(
            angle,
        ).1 <= UNIT * UNIT + 1_500_000,
{
    let a = normalized(angle);
    let d = if a <= 90 {
        a
    } else if a <= 180 {
        180 - a
    } else if a <= 270 {
        a - 180
    } else {
        360 - a
    };
    lemma_quarter_is_unit(d);
    let s = sin_quarter(d);
    let c = sin_quarter(90 - d);
    assert(sin_fixed(angle) == s || sin_fixed(angle) == -s) by {
        reveal(sin_fixed);
    }
    assert(cos_fixed(angle) == c || cos_fixed(angle) == -c) by {
        reveal(sin_fixed);
        let turned = (angle + 90) % 360;
        assert(turned == if a < 270 {
            a + 90
        } else {
            a - 270
        });
    }
    let x = deltas(angle).0;
    let y = deltas(angle).1;
    assert(x * x == c * c) by (nonlinear_arith)
        requires
            x == c || x == -c,
    ;
    assert(y * y == s * s) by (nonlinear_arith)
        requires
            y == s || y == -s,
    ;
}

/// In the quarter wave the squares of the sines of an angle and of its
/// complement add up to one, within a millionth and a half.
proof fn lemma_quarter_is_unit(d: int)
    requires
        0 <= d <= 90,
    ensures
        UNIT * UNIT - 1_500_000 <= sin_quarter(d) * sin_quarter(d) + sin_quarter(90 - d)
            * sin_quarter(90 - d) <= UNIT * UNIT + 1_500_000,
{
    reveal(sin_quarter);
}

/// Normalising is total and idempotent: every angle has a normal form in
/// `[0, 360)`, which differs from it by whole turns, and the normal form of
/// a normal form is itself.
pub proof fn lemma_normalize_idempotent(angle: int)
    ensures
        0 <= normalized(angle) < 360,
        normalized(normalized(angle)) == normalized(angle),
        (angle - normalized(angle)) % 360 == 0,
        0 <= angle < 360 ==> normalized(angle) == angle,
{
}

/// The normal form is the only angle of `[0, 360)` that differs from the
/// angle by whole turns.
pub proof fn lemma_normalized_is_unique(angle: int, other: int)
    requires
        0 <= other < 360,
        (angle - other) % 360 == 0,
    ensures
        other == normalized(angle),
{
}

/// The symmetries of the wave: the sine is odd, the cosine is even, and half
/// a turn negates both.
pub proof fn lemma_sin_symmetries(angle: int)
    ensures
        sin_fixed(-angle) == -sin_fixed(angle),
        cos_fixed(-angle) == cos_fixed(angle),
        sin_fixed(angle + 180) == -sin_fixed(angle),
        cos_fixed(angle + 180) == -cos_fixed(angle),
{
    reveal(sin_fixed);
    assert(sin_quarter(0) == 0) by {
        reveal(sin_quarter);
    }
    let a = normalized(angle);
    assert((-angle) % 360 == if a == 0 {
        0
    } else {
        360 - a
    });
    assert((90 - angle) % 360 == if a <= 90 {
        90 - a
    } else {
        450 - a
    });
    assert((angle + 90) % 360 == if a < 270 {
        a + 90
    } else {
        a - 270
    });
    assert((angle + 180) % 360 == if a < 180 {
        a + 180
    } else {
        a - 180
    });
    assert((angle + 270) % 360 == if a < 90 {
        a + 270
    } else {
        a - 90
    });
}

} // verus!
