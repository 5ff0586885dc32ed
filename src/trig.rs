use vstd::prelude::*;

verus! {

/// One full turn, in millidegrees: every angle of the library is an integer in these units.
pub const TURN: i64 = 360_000;

/// A quarter turn, in millidegrees.
pub const QUARTER_TURN: i64 = 90_000;

/// The fixed-point scale: the integer `UNIT` stands for the real number 1.
pub const UNIT: i64 = 10_000;

/// How far `sin² + cos²` may stray from `UNIT²` at a whole degree, through
/// the rounding of the table.
pub const TABLE_TOLERANCE: i64 = 12_000;

/// A bound on the squared distance between the table's points at two
/// neighbouring degrees (a chord of one degree is about `0.01745 · UNIT`).
pub const CHORD_LIMIT: i64 = 31_000;

/// How far `sin² + cos²` may stray from `UNIT²` at any angle: the table's
/// rounding, the chord's dip below the circle, and the rounding of each value.
pub const NORM_TOLERANCE: i64 = 60_000;

/// Interpolation steps per degree in `sine` and `cosine`: one per millidegree.
pub const STEPS: i64 = 1_000;

/// Sine of a whole degree in `0..=90`, rounded to the nearest multiple of `1 / UNIT`.
#[verifier::opaque]
pub open spec fn quarter_sine(d: int) -> int {
    if d == 0 {
        0
    } else if d == 1 {
        175
    } else if d == 2 {
        349
    } else if d == 3 {
        523
    } else if d == 4 {
        698
    } else if d == 5 {
        872
    } else if d == 6 {
        1045
    } else if d == 7 {
        1219
    } else if d == 8 {
        1392
    } else if d == 9 {
        1564
    } else if d == 10 {
        1736
    } else if d == 11 {
        1908
    } else if d == 12 {
        2079
    } else if d == 13 {
        2250
    } else if d == 14 {
        2419
    } else if d == 15 {
        2588
    } else if d == 16 {
        2756
    } else if d == 17 {
        2924
    } else if d == 18 {
        3090
    } else if d == 19 {
        3256
    } else if d == 20 {
        3420
    } else if d == 21 {
        3584
    } else if d == 22 {
        3746
    } else if d == 23 {
        3907
    } else if d == 24 {
        4067
    } else if d == 25 {
        4226
    } else if d == 26 {
        4384
    } else if d == 27 {
        4540
    } else if d == 28 {
        4695
    } else if d == 29 {
        4848
    } else if d == 30 {
        5000
    } else if d == 31 {
        5150
    } else if d == 32 {
        5299
    } else if d == 33 {
        5446
    } else if d == 34 {
        5592
    } else if d == 35 {
        5736
    } else if d == 36 {
        5878
    } else if d == 37 {
        6018
    } else if d == 38 {
        6157
    } else if d == 39 {
        6293
    } else if d == 40 {
        6428
    } else if d == 41 {
        6561
    } else if d == 42 {
        6691
    } else if d == 43 {
        6820
    } else if d == 44 {
        6947
    } else if d == 45 {
        7071
    } else if d == 46 {
        7193
    } else if d == 47 {
        7314
    } else if d == 48 {
        7431
    } else if d == 49 {
        7547
    } else if d == 50 {
        7660
    } else if d == 51 {
        7771
    } else if d == 52 {
        7880
    } else if d == 53 {
        7986
    } else if d == 54 {
        8090
    } else if d == 55 {
        8192
    } else if d == 56 {
        8290
    } else if d == 57 {
        8387
    } else if d == 58 {
        8480
    } else if d == 59 {
        8572
    } else if d == 60 {
        8660
    } else if d == 61 {
        8746
    } else if d == 62 {
        8829
    } else if d == 63 {
        8910
    } else if d == 64 {
        8988
    } else if d == 65 {
        9063
    } else if d == 66 {
        9135
    } else if d == 67 {
        9205
    } else if d == 68 {
        9272
    } else if d == 69 {
        9336
    } else if d == 70 {
        9397
    } else if d == 71 {
        9455
    } else if d == 72 {
        9511
    } else if d == 73 {
        9563
    } else if d == 74 {
        9613
    } else if d == 75 {
        9659
    } else if d == 76 {
        9703
    } else if d == 77 {
        9744
    } else if d == 78 {
        9781
    } else if d == 79 {
        9816
    } else if d == 80 {
        9848
    } else if d == 81 {
        9877
    } else if d == 82 {
        9903
    } else if d == 83 {
        9925
    } else if d == 84 {
        9945
    } else if d == 85 {
        9962
    } else if d == 86 {
        9976
    } else if d == 87 {
        9986
    } else if d == 88 {
        9994
    } else if d == 89 {
        9998
    } else {
        10000
    }
}

/// Sine of a whole degree in `0..=360`, built from the quarter table by symmetry.
pub open spec fn sin_deg(d: int) -> int {
    if d <= 90 {
        quarter_sine(d)
    } else if d <= 180 {
        quarter_sine(180 - d)
    } else if d <= 270 {
        -quarter_sine(d - 180)
    } else {
        -quarter_sine(360 - d)
    }
}

/// Cosine of a whole degree in `0..=360`: the sine a quarter turn further on.
pub open spec fn cos_deg(d: int) -> int {
    sin_deg((d + 90) % 360)
}

/// Sine of the angle `a / steps` degrees, interpolated linearly between the
/// whole degrees around it, in units of `1 / (steps · UNIT)`: exact up to
/// the table's rounding and the chord's dip below the circle.
pub open spec fn sin_fine(a: int, steps: int) -> int {
    let r = a % (360 * steps);
    let d = r / steps;
    let f = r % steps;
    sin_deg(d) * (steps - f) + sin_deg(d + 1) * f
}

/// Cosine of the angle `a / steps` degrees, interpolated as `sin_fine` is.
pub open spec fn cos_fine(a: int, steps: int) -> int {
    let r = a % (360 * steps);
    let d = r / steps;
    let f = r % steps;
    cos_deg(d) * (steps - f) + cos_deg(d + 1) * f
}

/// Sine of an angle in millidegrees, in units of `1 / UNIT`, rounded down.
pub open spec fn sin_of(a: int) -> int {
    sin_fine(a, STEPS as int) / (STEPS as int)
}

/// Cosine of an angle in millidegrees, in units of `1 / UNIT`, rounded down.
pub open spec fn cos_of(a: int) -> int {
    cos_fine(a, STEPS as int) / (STEPS as int)
}

fn quarter_sine_exec(d: i64) -> (r: i64)
    requires
        0 <= d <= 90,
    ensures
        r == quarter_sine(d as int),
        0 <= r <= UNIT,
{
    reveal(quarter_sine);
    match d {
        0 => 0,
        1 => 175,
        2 => 349,
        3 => 523,
        4 => 698,
        5 => 872,
        6 => 1045,
        7 => 1219,
        8 => 1392,
        9 => 1564,
        10 => 1736,
        11 => 1908,
        12 => 2079,
        13 => 2250,
        14 => 2419,
        15 => 2588,
        16 => 2756,
        17 => 2924,
        18 => 3090,
        19 => 3256,
        20 => 3420,
        21 => 3584,
        22 => 3746,
        23 => 3907,
        24 => 4067,
        25 => 4226,
        26 => 4384,
        27 => 4540,
        28 => 4695,
        29 => 4848,
        30 => 5000,
        31 => 5150,
        32 => 5299,
        33 => 5446,
        34 => 5592,
        35 => 5736,
        36 => 5878,
        37 => 6018,
        38 => 6157,
        39 => 6293,
        40 => 6428,
        41 => 6561,
        42 => 6691,
        43 => 6820,
        44 => 6947,
        45 => 7071,
        46 => 7193,
        47 => 7314,
        48 => 7431,
        49 => 7547,
        50 => 7660,
        51 => 7771,
        52 => 7880,
        53 => 7986,
        54 => 8090,
        55 => 8192,
        56 => 8290,
        57 => 8387,
        58 => 8480,
        59 => 8572,
        60 => 8660,
        61 => 8746,
        62 => 8829,
        63 => 8910,
        64 => 8988,
        65 => 9063,
        66 => 9135,
        67 => 9205,
        68 => 9272,
        69 => 9336,
        70 => 9397,
        71 => 9455,
        72 => 9511,
        73 => 9563,
        74 => 9613,
        75 => 9659,
        76 => 9703,
        77 => 9744,
        78 => 9781,
        79 => 9816,
        80 => 9848,
        81 => 9877,
        82 => 9903,
        83 => 9925,
        84 => 9945,
        85 => 9962,
        86 => 9976,
        87 => 9986,
        88 => 9994,
        89 => 9998,
        _ => 10000,
    }
}

/// The quarter table rises from 0 to `UNIT` and pairs each entry with its
/// complement to a near-unit vector.
pub proof fn lemma_quarter_table(d: int)
    requires
        0 <= d <= 90,
    ensures
        0 <= quarter_sine(d) <= UNIT,
        quarter_sine(0) == 0,
        quarter_sine(90) == UNIT,
        UNIT * UNIT - TABLE_TOLERANCE <= quarter_sine(d) * quarter_sine(d) + quarter_sine(90 - d)
            * quarter_sine(90 - d) <= UNIT * UNIT + TABLE_TOLERANCE,
{
    reveal(quarter_sine);
}

proof fn lemma_square_expand(p: int, q: int, x: int, y: int)
    ensures
        (p * x + q * y) * (p * x + q * y) == p * p * (x * x) + 2 * (p * (q * (x * y))) + (q * q) * (
        y * y),
{
    let a = p * x;
    let b = q * y;
    assert((a + b) * (a + b) == a * a + 2 * (a * b) + b * b) by (nonlinear_arith);
    assert(a * a == p * p * (x * x)) by (nonlinear_arith)
        requires
            a == p * x,
    ;
    assert(b * b == (q * q) * (y * y)) by (nonlinear_arith)
        requires
            b == q * y,
    ;
    assert(a * b == p * (q * (x * y))) by (nonlinear_arith)
        requires
            a == p * x,
            b == q * y,
    ;
}

proof fn lemma_blend_identity(n: int, f: int, a0: int, a1: int, m: int, k: int)
    requires
        a1 == a0 + 2 * m + k,
    ensures
        n * (n - f) * a0 + n * f * a1 - f * (n - f) * k == n * n * a0 + 2 * n * (f * m) + (f * f)
            * k,
{
    let g = n - f;
    assert(n * g * a0 + n * f * a0 == n * n * a0) by (nonlinear_arith)
        requires
            g == n - f,
    ;
    assert(n * f * a1 == n * f * a0 + 2 * n * (f * m) + n * f * k) by (nonlinear_arith)
        requires
            a1 == a0 + 2 * m + k,
    ;
    assert(f * g * k == n * f * k - (f * f) * k) by (nonlinear_arith)
        requires
            g == n - f,
    ;
}

proof fn lemma_chord_values(x: int, y: int, vx: int, vy: int)
    requires
        x == vx,
        y == vy,
        vx * vx + vy * vy <= CHORD_LIMIT,
    ensures
        x * x + y * y <= CHORD_LIMIT,
{
}

/// Neighbouring entries of the quarter table lie within a short chord.
#[verifier::rlimit(100)]
#[verifier::spinoff_prover]
proof fn lemma_quarter_chord(d: int)
    requires
        0 <= d < 90,
    ensures
        (quarter_sine(d + 1) - quarter_sine(d)) * (quarter_sine(d + 1) - quarter_sine(d)) + (
        quarter_sine(89 - d) - quarter_sine(90 - d)) * (quarter_sine(89 - d) - quarter_sine(90 - d))
            <= CHORD_LIMIT,
{
    reveal(quarter_sine);
    if d == 0 {
        assert(175 * 175 + (-2) * (-2) <= CHORD_LIMIT);
        lemma_chord_values(quarter_sine(1) - quarter_sine(0), quarter_sine(89) - quarter_sine(90), 175, -2);
    } else if d == 1 {
        assert(174 * 174 + (-4) * (-4) <= CHORD_LIMIT);
        lemma_chord_values(quarter_sine(2) - quarter_sine(1), quarter_sine(88) - quarter_sine(89), 174, -4);
    } else if d == 2 {
        assert(174 * 174 + (-8) * (-8) <= CHORD_LIMIT);
        lemma_chord_values(quarter_sine(3) - quarter_sine(2), quarter_sine(87) - quarter_sine(88), 174, -8);
    } else if d == 3 {
        assert(175 * 175 + (-10) * (-10) <= CHORD_LIMIT);
        lemma_chord_values(quarter_sine(4) - quarter_sine(3), quarter_sine(86) - quarter_sine(87), 175, -10);
    } else if d == 4 {
        assert(174 * 174 + (-14) * (-14) <= CHORD_LIMIT);
        lemma_chord_values(quarter_sine(5) - quarter_sine(4), quarter_sine(85) - quarter_sine(86), 174, -14);
    } else if d == 5 {
        assert(173 * 173 + (-17) * (-17) <= CHORD_LIMIT);
        lemma_chord_values(quarter_sine(6) - quarter_sine(5), quarter_sine(84) - quarter_sine(85), 173, -17);
    } else if d == 6 {
        assert(174 * 174 + (-20) * (-20) <= CHORD_LIMIT);
        lemma_chord_values(quarter_sine(7) - quarter_sine(6), quarter_sine(83) - quarter_sine(84), 174, -20);
    } else if d == 7 {
        assert(173 * 173 + (-22) * (-22) <= CHORD_LIMIT);
        lemma_chord_values(quarter_sine(8) - quarter_sine(7), quarter_sine(82) - quarter_sine(83), 173, -22);
    } else if d == 8 {
        assert(172 * 172 + (-26) * (-26) <= CHORD_LIMIT);
        lemma_chord_values(quarter_sine(9) - quarter_sine(8), quarter_sine(81) - quarter_sine(82), 172, -26);
    } else if d == 9 {
        assert(172 * 172 + (-29) * (-29) <= CHORD_LIMIT);
        lemma_chord_values(quarter_sine(10) - quarter_sine(9), quarter_sine(80) - quarter_sine(81), 172, -29);
    } else if d == 10 {
        assert(172 * 172 + (-32) * (-32) <= CHORD_LIMIT);
        lemma_chord_values(quarter_sine(11) - quarter_sine(10), quarter_sine(79) - quarter_sine(80), 172, -32);
    } else if d == 11 {
        assert(171 * 171 + (-35) * (-35) <= CHORD_LIMIT);
        lemma_chord_values(quarter_sine(12) - quarter_sine(11), quarter_sine(78) - quarter_sine(79), 171, -35);
    } else if d == 12 {
        assert(171 * 171 + (-37) * (-37) <= CHORD_LIMIT);
        lemma_chord_values(quarter_sine(13) - quarter_sine(12), quarter_sine(77) - quarter_sine(78), 171, -37);
    } else if d == 13 {
        assert(169 * 169 + (-41) * (-41) <= CHORD_LIMIT);
        lemma_chord_values(quarter_sine(14) - quarter_sine(13), quarter_sine(76) - quarter_sine(77), 169, -41);
    } else if d == 14 {
        assert(169 * 169 + (-44) * (-44) <= CHORD_LIMIT);
        lemma_chord_values(quarter_sine(15) - quarter_sine(14), quarter_sine(75) - quarter_sine(76), 169, -44);
    } else if d == 15 {
        assert(168 * 168 + (-46) * (-46) <= CHORD_LIMIT);
        lemma_chord_values(quarter_sine(16) - quarter_sine(15), quarter_sine(74) - quarter_sine(75), 168, -46);
    } else if d == 16 {
        assert(168 * 168 + (-50) * (-50) <= CHORD_LIMIT);
        lemma_chord_values(quarter_sine(17) - quarter_sine(16), quarter_sine(73) - quarter_sine(74), 168, -50);
    } else if d == 17 {
        assert(166 * 166 + (-52) * (-52) <= CHORD_LIMIT);
        lemma_chord_values(quarter_sine(18) - quarter_sine(17), quarter_sine(72) - quarter_sine(73), 166, -52);
    } else if d == 18 {
        assert(166 * 166 + (-56) * (-56) <= CHORD_LIMIT);
        lemma_chord_values(quarter_sine(19) - quarter_sine(18), quarter_sine(71) - quarter_sine(72), 166, -56);
    } else if d == 19 {
        assert(164 * 164 + (-58) * (-58) <= CHORD_LIMIT);
        lemma_chord_values(quarter_sine(20) - quarter_sine(19), quarter_sine(70) - quarter_sine(71), 164, -58);
    } else if d == 20 {
        assert(164 * 164 + (-61) * (-61) <= CHORD_LIMIT);
        lemma_chord_values(quarter_sine(21) - quarter_sine(20), quarter_sine(69) - quarter_sine(70), 164, -61);
    } else if d == 21 {
        assert(162 * 162 + (-64) * (-64) <= CHORD_LIMIT);
        lemma_chord_values(quarter_sine(22) - quarter_sine(21), quarter_sine(68) - quarter_sine(69), 162, -64);
    } else if d == 22 {
        assert(161 * 161 + (-67) * (-67) <= CHORD_LIMIT);
        lemma_chord_values(quarter_sine(23) - quarter_sine(22), quarter_sine(67) - quarter_sine(68), 161, -67);
    } else if d == 23 {
        assert(160 * 160 + (-70) * (-70) <= CHORD_LIMIT);
        lemma_chord_values(quarter_sine(24) - quarter_sine(23), quarter_sine(66) - quarter_sine(67), 160, -70);
    } else if d == 24 {
        assert(159 * 159 + (-72) * (-72) <= CHORD_LIMIT);
        lemma_chord_values(quarter_sine(25) - quarter_sine(24), quarter_sine(65) - quarter_sine(66), 159, -72);
    } else if d == 25 {
        assert(158 * 158 + (-75) * (-75) <= CHORD_LIMIT);
        lemma_chord_values(quarter_sine(26) - quarter_sine(25), quarter_sine(64) - quarter_sine(65), 158, -75);
    } else if d == 26 {
        assert(156 * 156 + (-78) * (-78) <= CHORD_LIMIT);
        lemma_chord_values(quarter_sine(27) - quarter_sine(26), quarter_sine(63) - quarter_sine(64), 156, -78);
    } else if d == 27 {
        assert(155 * 155 + (-81) * (-81) <= CHORD_LIMIT);
        lemma_chord_values(quarter_sine(28) - quarter_sine(27), quarter_sine(62) - quarter_sine(63), 155, -81);
    } else if d == 28 {
        assert(153 * 153 + (-83) * (-83) <= CHORD_LIMIT);
        lemma_chord_values(quarter_sine(29) - quarter_sine(28), quarter_sine(61) - quarter_sine(62), 153, -83);
    } else if d == 29 {
        assert(152 * 152 + (-86) * (-86) <= CHORD_LIMIT);
        lemma_chord_values(quarter_sine(30) - quarter_sine(29), quarter_sine(60) - quarter_sine(61), 152, -86);
    } else if d == 30 {
        assert(150 * 150 + (-88) * (-88) <= CHORD_LIMIT);
        lemma_chord_values(quarter_sine(31) - quarter_sine(30), quarter_sine(59) - quarter_sine(60), 150, -88);
    } else if d == 31 {
        assert(149 * 149 + (-92) * (-92) <= CHORD_LIMIT);
        lemma_chord_values(quarter_sine(32) - quarter_sine(31), quarter_sine(58) - quarter_sine(59), 149, -92);
    } else if d == 32 {
        assert(147 * 147 + (-93) * (-93) <= CHORD_LIMIT);
        lemma_chord_values(quarter_sine(33) - quarter_sine(32), quarter_sine(57) - quarter_sine(58), 147, -93);
    } else if d == 33 {
        assert(146 * 146 + (-97) * (-97) <= CHORD_LIMIT);
        lemma_chord_values(quarter_sine(34) - quarter_sine(33), quarter_sine(56) - quarter_sine(57), 146, -97);
    } else if d == 34 {
        assert(144 * 144 + (-98) * (-98) <= CHORD_LIMIT);
        lemma_chord_values(quarter_sine(35) - quarter_sine(34), quarter_sine(55) - quarter_sine(56), 144, -98);
    } else if d == 35 {
        assert(142 * 142 + (-102) * (-102) <= CHORD_LIMIT);
        lemma_chord_values(quarter_sine(36) - quarter_sine(35), quarter_sine(54) - quarter_sine(55), 142, -102);
    } else if d == 36 {
        assert(140 * 140 + (-104) * (-104) <= CHORD_LIMIT);
        lemma_chord_values(quarter_sine(37) - quarter_sine(36), quarter_sine(53) - quarter_sine(54), 140, -104);
    } else if d == 37 {
        assert(139 * 139 + (-106) * (-106) <= CHORD_LIMIT);
        lemma_chord_values(quarter_sine(38) - quarter_sine(37), quarter_sine(52) - quarter_sine(53), 139, -106);
    } else if d == 38 {
        assert(136 * 136 + (-109) * (-109) <= CHORD_LIMIT);
        lemma_chord_values(quarter_sine(39) - quarter_sine(38), quarter_sine(51) - quarter_sine(52), 136, -109);
    } else if d == 39 {
        assert(135 * 135 + (-111) * (-111) <= CHORD_LIMIT);
        lemma_chord_values(quarter_sine(40) - quarter_sine(39), quarter_sine(50) - quarter_sine(51), 135, -111);
    } else if d == 40 {
        assert(133 * 133 + (-113) * (-113) <= CHORD_LIMIT);
        lemma_chord_values(quarter_sine(41) - quarter_sine(40), quarter_sine(49) - quarter_sine(50), 133, -113);
    } else if d == 41 {
        assert(130 * 130 + (-116) * (-116) <= CHORD_LIMIT);
        lemma_chord_values(quarter_sine(42) - quarter_sine(41), quarter_sine(48) - quarter_sine(49), 130, -116);
    } else if d == 42 {
        assert(129 * 129 + (-117) * (-117) <= CHORD_LIMIT);
        lemma_chord_values(quarter_sine(43) - quarter_sine(42), quarter_sine(47) - quarter_sine(48), 129, -117);
    } else if d == 43 {
        assert(127 * 127 + (-121) * (-121) <= CHORD_LIMIT);
        lemma_chord_values(quarter_sine(44) - quarter_sine(43), quarter_sine(46) - quarter_sine(47), 127, -121);
    } else if d == 44 {
        assert(124 * 124 + (-122) * (-122) <= CHORD_LIMIT);
        lemma_chord_values(quarter_sine(45) - quarter_sine(44), quarter_sine(45) - quarter_sine(46), 124, -122);
    } else if d == 45 {
        assert(122 * 122 + (-124) * (-124) <= CHORD_LIMIT);
        lemma_chord_values(quarter_sine(46) - quarter_sine(45), quarter_sine(44) - quarter_sine(45), 122, -124);
    } else if d == 46 {
        assert(121 * 121 + (-127) * (-127) <= CHORD_LIMIT);
        lemma_chord_values(quarter_sine(47) - quarter_sine(46), quarter_sine(43) - quarter_sine(44), 121, -127);
    } else if d == 47 {
        assert(117 * 117 + (-129) * (-129) <= CHORD_LIMIT);
        lemma_chord_values(quarter_sine(48) - quarter_sine(47), quarter_sine(42) - quarter_sine(43), 117, -129);
    } else if d == 48 {
        assert(116 * 116 + (-130) * (-130) <= CHORD_LIMIT);
        lemma_chord_values(quarter_sine(49) - quarter_sine(48), quarter_sine(41) - quarter_sine(42), 116, -130);
    } else if d == 49 {
        assert(113 * 113 + (-133) * (-133) <= CHORD_LIMIT);
        lemma_chord_values(quarter_sine(50) - quarter_sine(49), quarter_sine(40) - quarter_sine(41), 113, -133);
    } else if d == 50 {
        assert(111 * 111 + (-135) * (-135) <= CHORD_LIMIT);
        lemma_chord_values(quarter_sine(51) - quarter_sine(50), quarter_sine(39) - quarter_sine(40), 111, -135);
    } else if d == 51 {
        assert(109 * 109 + (-136) * (-136) <= CHORD_LIMIT);
        lemma_chord_values(quarter_sine(52) - quarter_sine(51), quarter_sine(38) - quarter_sine(39), 109, -136);
    } else if d == 52 {
        assert(106 * 106 + (-139) * (-139) <= CHORD_LIMIT);
        lemma_chord_values(quarter_sine(53) - quarter_sine(52), quarter_sine(37) - quarter_sine(38), 106, -139);
    } else if d == 53 {
        assert(104 * 104 + (-140) * (-140) <= CHORD_LIMIT);
        lemma_chord_values(quarter_sine(54) - quarter_sine(53), quarter_sine(36) - quarter_sine(37), 104, -140);
    } else if d == 54 {
        assert(102 * 102 + (-142) * (-142) <= CHORD_LIMIT);
        lemma_chord_values(quarter_sine(55) - quarter_sine(54), quarter_sine(35) - quarter_sine(36), 102, -142);
    } else if d == 55 {
        assert(98 * 98 + (-144) * (-144) <= CHORD_LIMIT);
        lemma_chord_values(quarter_sine(56) - quarter_sine(55), quarter_sine(34) - quarter_sine(35), 98, -144);
    } else if d == 56 {
        assert(97 * 97 + (-146) * (-146) <= CHORD_LIMIT);
        lemma_chord_values(quarter_sine(57) - quarter_sine(56), quarter_sine(33) - quarter_sine(34), 97, -146);
    } else if d == 57 {
        assert(93 * 93 + (-147) * (-147) <= CHORD_LIMIT);
        lemma_chord_values(quarter_sine(58) - quarter_sine(57), quarter_sine(32) - quarter_sine(33), 93, -147);
    } else if d == 58 {
        assert(92 * 92 + (-149) * (-149) <= CHORD_LIMIT);
        lemma_chord_values(quarter_sine(59) - quarter_sine(58), quarter_sine(31) - quarter_sine(32), 92, -149);
    } else if d == 59 {
        assert(88 * 88 + (-150) * (-150) <= CHORD_LIMIT);
        lemma_chord_values(quarter_sine(60) - quarter_sine(59), quarter_sine(30) - quarter_sine(31), 88, -150);
    } else if d == 60 {
        assert(86 * 86 + (-152) * (-152) <= CHORD_LIMIT);
        lemma_chord_values(quarter_sine(61) - quarter_sine(60), quarter_sine(29) - quarter_sine(30), 86, -152);
    } else if d == 61 {
        assert(83 * 83 + (-153) * (-153) <= CHORD_LIMIT);
        lemma_chord_values(quarter_sine(62) - quarter_sine(61), quarter_sine(28) - quarter_sine(29), 83, -153);
    } else if d == 62 {
        assert(81 * 81 + (-155) * (-155) <= CHORD_LIMIT);
        lemma_chord_values(quarter_sine(63) - quarter_sine(62), quarter_sine(27) - quarter_sine(28), 81, -155);
    } else if d == 63 {
        assert(78 * 78 + (-156) * (-156) <= CHORD_LIMIT);
        lemma_chord_values(quarter_sine(64) - quarter_sine(63), quarter_sine(26) - quarter_sine(27), 78, -156);
    } else if d == 64 {
        assert(75 * 75 + (-158) * (-158) <= CHORD_LIMIT);
        lemma_chord_values(quarter_sine(65) - quarter_sine(64), quarter_sine(25) - quarter_sine(26), 75, -158);
    } else if d == 65 {
        assert(72 * 72 + (-159) * (-159) <= CHORD_LIMIT);
        lemma_chord_values(quarter_sine(66) - quarter_sine(65), quarter_sine(24) - quarter_sine(25), 72, -159);
    } else if d == 66 {
        assert(70 * 70 + (-160) * (-160) <= CHORD_LIMIT);
        lemma_chord_values(quarter_sine(67) - quarter_sine(66), quarter_sine(23) - quarter_sine(24), 70, -160);
    } else if d == 67 {
        assert(67 * 67 + (-161) * (-161) <= CHORD_LIMIT);
        lemma_chord_values(quarter_sine(68) - quarter_sine(67), quarter_sine(22) - quarter_sine(23), 67, -161);
    } else if d == 68 {
        assert(64 * 64 + (-162) * (-162) <= CHORD_LIMIT);
        lemma_chord_values(quarter_sine(69) - quarter_sine(68), quarter_sine(21) - quarter_sine(22), 64, -162);
    } else if d == 69 {
        assert(61 * 61 + (-164) * (-164) <= CHORD_LIMIT);
        lemma_chord_values(quarter_sine(70) - quarter_sine(69), quarter_sine(20) - quarter_sine(21), 61, -164);
    } else if d == 70 {
        assert(58 * 58 + (-164) * (-164) <= CHORD_LIMIT);
        lemma_chord_values(quarter_sine(71) - quarter_sine(70), quarter_sine(19) - quarter_sine(20), 58, -164);
    } else if d == 71 {
        assert(56 * 56 + (-166) * (-166) <= CHORD_LIMIT);
        lemma_chord_values(quarter_sine(72) - quarter_sine(71), quarter_sine(18) - quarter_sine(19), 56, -166);
    } else if d == 72 {
        assert(52 * 52 + (-166) * (-166) <= CHORD_LIMIT);
        lemma_chord_values(quarter_sine(73) - quarter_sine(72), quarter_sine(17) - quarter_sine(18), 52, -166);
    } else if d == 73 {
        assert(50 * 50 + (-168) * (-168) <= CHORD_LIMIT);
        lemma_chord_values(quarter_sine(74) - quarter_sine(73), quarter_sine(16) - quarter_sine(17), 50, -168);
    } else if d == 74 {
        assert(46 * 46 + (-168) * (-168) <= CHORD_LIMIT);
        lemma_chord_values(quarter_sine(75) - quarter_sine(74), quarter_sine(15) - quarter_sine(16), 46, -168);
    } else if d == 75 {
        assert(44 * 44 + (-169) * (-169) <= CHORD_LIMIT);
        lemma_chord_values(quarter_sine(76) - quarter_sine(75), quarter_sine(14) - quarter_sine(15), 44, -169);
    } else if d == 76 {
        assert(41 * 41 + (-169) * (-169) <= CHORD_LIMIT);
        lemma_chord_values(quarter_sine(77) - quarter_sine(76), quarter_sine(13) - quarter_sine(14), 41, -169);
    } else if d == 77 {
        assert(37 * 37 + (-171) * (-171) <= CHORD_LIMIT);
        lemma_chord_values(quarter_sine(78) - quarter_sine(77), quarter_sine(12) - quarter_sine(13), 37, -171);
    } else if d == 78 {
        assert(35 * 35 + (-171) * (-171) <= CHORD_LIMIT);
        lemma_chord_values(quarter_sine(79) - quarter_sine(78), quarter_sine(11) - quarter_sine(12), 35, -171);
    } else if d == 79 {
        assert(32 * 32 + (-172) * (-172) <= CHORD_LIMIT);
        lemma_chord_values(quarter_sine(80) - quarter_sine(79), quarter_sine(10) - quarter_sine(11), 32, -172);
    } else if d == 80 {
        assert(29 * 29 + (-172) * (-172) <= CHORD_LIMIT);
        lemma_chord_values(quarter_sine(81) - quarter_sine(80), quarter_sine(9) - quarter_sine(10), 29, -172);
    } else if d == 81 {
        assert(26 * 26 + (-172) * (-172) <= CHORD_LIMIT);
        lemma_chord_values(quarter_sine(82) - quarter_sine(81), quarter_sine(8) - quarter_sine(9), 26, -172);
    } else if d == 82 {
        assert(22 * 22 + (-173) * (-173) <= CHORD_LIMIT);
        lemma_chord_values(quarter_sine(83) - quarter_sine(82), quarter_sine(7) - quarter_sine(8), 22, -173);
    } else if d == 83 {
        assert(20 * 20 + (-174) * (-174) <= CHORD_LIMIT);
        lemma_chord_values(quarter_sine(84) - quarter_sine(83), quarter_sine(6) - quarter_sine(7), 20, -174);
    } else if d == 84 {
        assert(17 * 17 + (-173) * (-173) <= CHORD_LIMIT);
        lemma_chord_values(quarter_sine(85) - quarter_sine(84), quarter_sine(5) - quarter_sine(6), 17, -173);
    } else if d == 85 {
        assert(14 * 14 + (-174) * (-174) <= CHORD_LIMIT);
        lemma_chord_values(quarter_sine(86) - quarter_sine(85), quarter_sine(4) - quarter_sine(5), 14, -174);
    } else if d == 86 {
        assert(10 * 10 + (-175) * (-175) <= CHORD_LIMIT);
        lemma_chord_values(quarter_sine(87) - quarter_sine(86), quarter_sine(3) - quarter_sine(4), 10, -175);
    } else if d == 87 {
        assert(8 * 8 + (-174) * (-174) <= CHORD_LIMIT);
        lemma_chord_values(quarter_sine(88) - quarter_sine(87), quarter_sine(2) - quarter_sine(3), 8, -174);
    } else if d == 88 {
        assert(4 * 4 + (-174) * (-174) <= CHORD_LIMIT);
        lemma_chord_values(quarter_sine(89) - quarter_sine(88), quarter_sine(1) - quarter_sine(2), 4, -174);
    } else if d == 89 {
        assert(2 * 2 + (-175) * (-175) <= CHORD_LIMIT);
        lemma_chord_values(quarter_sine(90) - quarter_sine(89), quarter_sine(0) - quarter_sine(1), 2, -175);
    }
}

/// An angle in millidegrees reduced into `0..TURN`.
pub fn reduce_angle(a: i64) -> (r: i64)
    ensures
        r == a as int % TURN as int,
        0 <= r < TURN,
{
    match a.checked_rem_euclid(TURN) {
        Some(r) => r,
        None => 0,
    }
}

fn sin_degree(d: i64) -> (r: i64)
    requires
        0 <= d <= 360,
    ensures
        r == sin_deg(d as int),
        -UNIT <= r <= UNIT,
{
    if d <= 90 {
        quarter_sine_exec(d)
    } else if d <= 180 {
        quarter_sine_exec(180 - d)
    } else if d <= 270 {
        -quarter_sine_exec(d - 180)
    } else {
        -quarter_sine_exec(360 - d)
    }
}

proof fn lemma_blend_bounded(v0: int, v1: int, steps: int, f: int)
    requires
        -UNIT <= v0 <= UNIT,
        -UNIT <= v1 <= UNIT,
        0 <= f < steps,
    ensures
        -UNIT * steps <= v0 * (steps - f) + v1 * f <= UNIT * steps,
{
    let u = UNIT as int;
    assert(-u * (steps - f) <= v0 * (steps - f) <= u * (steps - f)) by (nonlinear_arith)
        requires
            -u <= v0 <= u,
            0 < steps - f,
    ;
    assert(-u * f <= v1 * f <= u * f) by (nonlinear_arith)
        requires
            -u <= v1 <= u,
            0 <= f,
    ;
    assert(-u * steps <= v0 * (steps - f) + v1 * f <= u * steps) by (nonlinear_arith)
        requires
            -u * (steps - f) <= v0 * (steps - f) <= u * (steps - f),
            -u * f <= v1 * f <= u * f,
    ;
}

proof fn lemma_product_bounded(v: int, w: int)
    requires
        -UNIT <= v <= UNIT,
        0 <= w <= 2 * STEPS,
    ensures
        -UNIT * 2 * STEPS <= v * w <= UNIT * 2 * STEPS,
{
    assert(-UNIT * 2 * STEPS <= v * w <= UNIT * 2 * STEPS) by (nonlinear_arith)
        requires
            -10000 <= v <= 10000,
            0 <= w <= 2000,
    ;
}

/// `sin_fine` on machine integers.
pub fn sine_fine(a: i64, steps: i64) -> (r: i64)
    requires
        1 <= steps <= 2 * STEPS,
    ensures
        r == sin_fine(a as int, steps as int),
        -UNIT * steps <= r <= UNIT * steps,
{
    let reduced = match a.checked_rem_euclid(360 * steps) {
        Some(m) => m,
        None => 0,
    };
    let d = reduced / steps;
    let f = reduced % steps;
    proof {
        vstd::arithmetic::div_mod::lemma_fundamental_div_mod(reduced as int, steps as int);
        assert(0 <= d < 360) by (nonlinear_arith)
            requires
                reduced == steps * d + f,
                0 <= f < steps,
                0 <= reduced < 360 * steps,
        ;
    }
    let v0 = sin_degree(d);
    let v1 = sin_degree(d + 1);
    proof {
        lemma_blend_bounded(v0 as int, v1 as int, steps as int, f as int);
        lemma_product_bounded(v0 as int, (steps - f) as int);
        lemma_product_bounded(v1 as int, f as int);
    }
    v0 * (steps - f) + v1 * f
}

/// `cos_fine` on machine integers.
pub fn cosine_fine(a: i64, steps: i64) -> (r: i64)
    requires
        1 <= steps <= 2 * STEPS,
    ensures
        r == cos_fine(a as int, steps as int),
        -UNIT * steps <= r <= UNIT * steps,
{
    let reduced = match a.checked_rem_euclid(360 * steps) {
        Some(m) => m,
        None => 0,
    };
    let d = reduced / steps;
    let f = reduced % steps;
    proof {
        vstd::arithmetic::div_mod::lemma_fundamental_div_mod(reduced as int, steps as int);
        assert(0 <= d < 360) by (nonlinear_arith)
            requires
                reduced == steps * d + f,
                0 <= f < steps,
                0 <= reduced < 360 * steps,
        ;
    }
    let v0 = sin_degree((d + 90) % 360);
    let v1 = sin_degree((d + 91) % 360);
    proof {
        lemma_blend_bounded(v0 as int, v1 as int, steps as int, f as int);
        lemma_product_bounded(v0 as int, (steps - f) as int);
        lemma_product_bounded(v1 as int, f as int);
    }
    v0 * (steps - f) + v1 * f
}

proof fn lemma_scaled_down_range(v: int)
    requires
        -UNIT * STEPS <= v <= UNIT * STEPS,
    ensures
        -UNIT <= v / (STEPS as int) <= UNIT,
{
    let n = STEPS as int;
    let u = UNIT as int;
    vstd::arithmetic::div_mod::lemma_div_is_ordered(-u * n, v, n);
    vstd::arithmetic::div_mod::lemma_div_is_ordered(v, u * n, n);
    vstd::arithmetic::div_mod::lemma_div_multiples_vanish(u, n);
    vstd::arithmetic::div_mod::lemma_div_multiples_vanish(-u, n);
    assert(u * n == n * u);
    assert(-u * n == n * (-u));
}

/// Sine of an angle in millidegrees (see `sin_of`).
pub fn sine(a: i64) -> (r: i64)
    ensures
        r == sin_of(a as int),
        -UNIT <= r <= UNIT,
{
    let v = sine_fine(a, STEPS);
    proof {
        lemma_scaled_down_range(v as int);
    }
    crate::geometry::div_floor(v, STEPS)
}

/// Cosine of an angle in millidegrees (see `cos_of`).
pub fn cosine(a: i64) -> (r: i64)
    ensures
        r == cos_of(a as int),
        -UNIT <= r <= UNIT,
{
    let v = cosine_fine(a, STEPS);
    proof {
        lemma_scaled_down_range(v as int);
    }
    crate::geometry::div_floor(v, STEPS)
}

/// At a whole degree the table's cosine and sine form a near-unit vector,
/// and the vectors at neighbouring degrees lie within a short chord.
pub proof fn lemma_degree_circle(d: int)
    requires
        0 <= d <= 360,
    ensures
        -UNIT <= sin_deg(d) <= UNIT,
        -UNIT <= cos_deg(d) <= UNIT,
        UNIT * UNIT - TABLE_TOLERANCE <= sin_deg(d) * sin_deg(d) + cos_deg(d) * cos_deg(d) <= UNIT
            * UNIT + TABLE_TOLERANCE,
        d < 360 ==> (sin_deg(d + 1) - sin_deg(d)) * (sin_deg(d + 1) - sin_deg(d)) + (cos_deg(d + 1)
            - cos_deg(d)) * (cos_deg(d + 1) - cos_deg(d)) <= CHORD_LIMIT,
{
    let x = if d <= 90 {
        d
    } else if d <= 180 {
        180 - d
    } else if d <= 270 {
        d - 180
    } else {
        360 - d
    };
    lemma_quarter_table(x);
    lemma_quarter_table(90 - x);
    let q = quarter_sine(x);
    let p = quarter_sine(90 - x);
    let s = sin_deg(d);
    let c = cos_deg(d);
    assert(s == q || s == -q);
    assert(c == p || c == -p);
    assert(s * s == q * q) by (nonlinear_arith)
        requires
            s == q || s == -q,
    ;
    assert(c * c == p * p) by (nonlinear_arith)
        requires
            c == p || c == -p,
    ;
    if d < 360 {
        // Within each quadrant the step to the next degree is a step of the
        // quarter table, in one coordinate forwards and in the other backwards.
        let y = if d < 90 {
            d
        } else if d < 180 {
            d - 90
        } else if d < 270 {
            d - 180
        } else {
            d - 270
        };
        lemma_quarter_chord(y);
        let a1 = quarter_sine(y + 1) - quarter_sine(y);
        let b1 = quarter_sine(89 - y) - quarter_sine(90 - y);
        let ds = sin_deg(d + 1) - s;
        let dc = cos_deg(d + 1) - c;
        if d < 90 {
            assert((d + 90) % 360 == d + 90);
            assert((d + 91) % 360 == d + 91);
            assert(ds == a1 && dc == b1);
        } else if d < 180 {
            assert((d + 90) % 360 == d + 90);
            assert((d + 91) % 360 == d + 91);
            assert(ds == b1 && dc == -a1);
        } else if d < 269 {
            assert((d + 90) % 360 == d + 90);
            assert((d + 91) % 360 == d + 91);
            assert(ds == -a1 && dc == -b1);
        } else if d == 269 {
            assert((d + 90) % 360 == d + 90);
            assert((d + 91) % 360 == 0);
            assert(ds == -a1 && dc == -b1);
        } else {
            assert((d + 90) % 360 == d - 270);
            assert((d + 91) % 360 == d - 269);
            assert(ds == -b1 && dc == a1);
        }
        assert(ds * ds + dc * dc == a1 * a1 + b1 * b1) by (nonlinear_arith)
            requires
                ((ds == a1 || ds == -a1) && (dc == b1 || dc == -b1)) || ((ds == b1 || ds == -b1) && (
                dc == a1 || dc == -a1)),
        ;
    }
}

proof fn lemma_floor_square(big: int, n: int, bound: int)
    requires
        n > 0,
        -bound <= big <= bound,
    ensures
        big * big - 2 * n * bound <= (n * (big / n)) * (n * (big / n)) <= big * big + 2 * n * bound
            + n * n,
{
    let q = big / n;
    let e = big % n;
    vstd::arithmetic::div_mod::lemma_fundamental_div_mod(big, n);
    assert((n * q) * (n * q) == big * big - 2 * e * big + e * e) by (nonlinear_arith)
        requires
            n * q == big - e,
    ;
    let t = e * big;
    assert(-(n * bound) <= t <= n * bound) by (nonlinear_arith)
        requires
            t == e * big,
            0 <= e < n,
            -bound <= big <= bound,
    ;
    assert(0 <= e * e <= n * n) by (nonlinear_arith)
        requires
            0 <= e < n,
    ;
    let sq = (n * q) * (n * q);
    assert(big * big - 2 * n * bound <= sq <= big * big + 2 * n * bound + n * n) by (nonlinear_arith)
        requires
            sq == big * big - 2 * e * big + e * e,
            t == e * big,
            -(n * bound) <= t <= n * bound,
            0 <= e * e <= n * n,
    ;
}

/// At every angle the interpolated cosine and sine form a vector of length
/// `UNIT`, up to `NORM_TOLERANCE` in the square; neither exceeds `UNIT` in size.
pub proof fn lemma_unit_circle(a: int)
    ensures
        -UNIT <= sin_of(a) <= UNIT,
        -UNIT <= cos_of(a) <= UNIT,
        UNIT * UNIT - NORM_TOLERANCE <= sin_of(a) * sin_of(a) + cos_of(a) * cos_of(a) <= UNIT
            * UNIT + NORM_TOLERANCE,
{
    let n = STEPS as int;
    let u = UNIT as int;
    let r = a % (360 * n);
    let d = r / n;
    let f = r % n;
    vstd::arithmetic::div_mod::lemma_fundamental_div_mod(r, n);
    assert(0 <= d < 360) by (nonlinear_arith)
        requires
            r == n * d + f,
            0 <= f < n,
            0 <= r < 360 * n,
            n > 0,
    ;
    lemma_degree_circle(d);
    lemma_degree_circle(d + 1);
    let s0 = sin_deg(d);
    let s1 = sin_deg(d + 1);
    let c0 = cos_deg(d);
    let c1 = cos_deg(d + 1);
    let big_s = sin_fine(a, n);
    let big_c = cos_fine(a, n);
    lemma_blend_bounded(s0, s1, n, f);
    lemma_blend_bounded(c0, c1, n, f);
    lemma_scaled_down_range(big_s);
    lemma_scaled_down_range(big_c);
    let a0 = s0 * s0 + c0 * c0;
    let a1 = s1 * s1 + c1 * c1;
    let k = (s1 - s0) * (s1 - s0) + (c1 - c0) * (c1 - c0);
    let ds = s1 - s0;
    let dc = c1 - c0;
    let m = s0 * ds + c0 * dc;
    assert(big_s == n * s0 + f * ds) by (nonlinear_arith)
        requires
            big_s == s0 * (n - f) + s1 * f,
            ds == s1 - s0,
    ;
    assert(big_c == n * c0 + f * dc) by (nonlinear_arith)
        requires
            big_c == c0 * (n - f) + c1 * f,
            dc == c1 - c0,
    ;
    assert(k == ds * ds + dc * dc);
    lemma_square_expand(n, f, s0, ds);
    lemma_square_expand(n, f, c0, dc);
    assert(f * (s0 * ds) + f * (c0 * dc) == f * m) by (nonlinear_arith)
        requires
            m == s0 * ds + c0 * dc,
    ;
    assert((f * f) * (ds * ds) + (f * f) * (dc * dc) == (f * f) * k) by (nonlinear_arith)
        requires
            k == ds * ds + dc * dc,
    ;
    assert(a1 == a0 + 2 * m + k) by (nonlinear_arith)
        requires
            s1 == s0 + ds,
            c1 == c0 + dc,
            a0 == s0 * s0 + c0 * c0,
            a1 == s1 * s1 + c1 * c1,
            m == s0 * ds + c0 * dc,
            k == ds * ds + dc * dc,
    ;
    lemma_blend_identity(n, f, a0, a1, m, k);
    let t1 = n * (f * (s0 * ds));
    let t2 = n * (f * (c0 * dc));
    let tm = n * (f * m);
    assert(t1 + t2 == tm) by (nonlinear_arith)
        requires
            t1 == n * (f * (s0 * ds)),
            t2 == n * (f * (c0 * dc)),
            tm == n * (f * m),
            f * (s0 * ds) + f * (c0 * dc) == f * m,
    ;
    assert(n * n * (s0 * s0) + n * n * (c0 * c0) == n * n * a0) by (nonlinear_arith)
        requires
            a0 == s0 * s0 + c0 * c0,
    ;
    assert(2 * n * (f * m) == 2 * tm) by (nonlinear_arith)
        requires
            tm == n * (f * m),
    ;
    assert(big_s * big_s + big_c * big_c == n * (n - f) * a0 + n * f * a1 - f * (n - f) * k);
    assert(k >= 0) by (nonlinear_arith)
        requires
            k == ds * ds + dc * dc,
    ;
    let lo = u * u - TABLE_TOLERANCE;
    let hi = u * u + TABLE_TOLERANCE;
    assert(n * n * lo <= n * (n - f) * a0 + n * f * a1 <= n * n * hi) by (nonlinear_arith)
        requires
            lo <= a0 <= hi,
            lo <= a1 <= hi,
            0 <= f < n,
    ;
    assert(0 <= 4 * (f * (n - f) * k) <= n * n * CHORD_LIMIT) by (nonlinear_arith)
        requires
            0 <= k <= CHORD_LIMIT,
            0 <= f < n,
    ;
    lemma_floor_square(big_s, n, u * n);
    lemma_floor_square(big_c, n, u * n);
    let qs = big_s / n;
    let qc = big_c / n;
    let total = big_s * big_s + big_c * big_c;
    let sq = (n * qs) * (n * qs) + (n * qc) * (n * qc);
    assert(sq == n * n * (qs * qs + qc * qc)) by (nonlinear_arith)
        requires
            sq == (n * qs) * (n * qs) + (n * qc) * (n * qc),
    ;
    assert(total - 4 * n * (u * n) <= sq <= total + 4 * n * (u * n) + 2 * (n * n));
    assert(n * n * (u * u - NORM_TOLERANCE) <= n * n * (qs * qs + qc * qc) <= n * n * (u * u
        + NORM_TOLERANCE)) by (nonlinear_arith)
        requires
            total - 4 * n * (u * n) <= n * n * (qs * qs + qc * qc) <= total + 4 * n * (u * n) + 2 * (n
                * n),
            n * n * lo - (n * n * CHORD_LIMIT) / 4 <= total <= n * n * hi,
            lo == u * u - TABLE_TOLERANCE,
            hi == u * u + TABLE_TOLERANCE,
            n == 1000,
            u == 10000,
    ;
    assert(u * u - NORM_TOLERANCE <= qs * qs + qc * qc <= u * u + NORM_TOLERANCE) by (nonlinear_arith)
        requires
            n * n * (u * u - NORM_TOLERANCE) <= n * n * (qs * qs + qc * qc) <= n * n * (u * u
                + NORM_TOLERANCE),
            n > 0,
    ;
}

} // verus!
