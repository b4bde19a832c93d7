//! Integer trigonometry: per-degree sine and cosine in thousandths,
//! from a quarter-wave table extended by symmetry.  Fragment placement
//! needs directions at whole-degree angles only, so a table gives exact,
//! reproducible values without floating point.

use vstd::prelude::*;

verus! {

/// Sine in thousandths for a whole-degree angle of the first quadrant;
/// zero outside 0..=90.
pub open spec fn sin_pm_quarter(d: int) -> int {
    if d == 0 {
        0
    } else     if d == 1 {
        17
    } else     if d == 2 {
        35
    } else     if d == 3 {
        52
    } else     if d == 4 {
        70
    } else     if d == 5 {
        87
    } else     if d == 6 {
        105
    } else     if d == 7 {
        122
    } else     if d == 8 {
        139
    } else     if d == 9 {
        156
    } else     if d == 10 {
        174
    } else     if d == 11 {
        191
    } else     if d == 12 {
        208
    } else     if d == 13 {
        225
    } else     if d == 14 {
        242
    } else     if d == 15 {
        259
    } else     if d == 16 {
        276
    } else     if d == 17 {
        292
    } else     if d == 18 {
        309
    } else     if d == 19 {
        326
    } else     if d == 20 {
        342
    } else     if d == 21 {
        358
    } else     if d == 22 {
        375
    } else     if d == 23 {
        391
    } else     if d == 24 {
        407
    } else     if d == 25 {
        423
    } else     if d == 26 {
        438
    } else     if d == 27 {
        454
    } else     if d == 28 {
        469
    } else     if d == 29 {
        485
    } else     if d == 30 {
        500
    } else     if d == 31 {
        515
    } else     if d == 32 {
        530
    } else     if d == 33 {
        545
    } else     if d == 34 {
        559
    } else     if d == 35 {
        574
    } else     if d == 36 {
        588
    } else     if d == 37 {
        602
    } else     if d == 38 {
        616
    } else     if d == 39 {
        629
    } else     if d == 40 {
        643
    } else     if d == 41 {
        656
    } else     if d == 42 {
        669
    } else     if d == 43 {
        682
    } else     if d == 44 {
        695
    } else     if d == 45 {
        707
    } else     if d == 46 {
        719
    } else     if d == 47 {
        731
    } else     if d == 48 {
        743
    } else     if d == 49 {
        755
    } else     if d == 50 {
        766
    } else     if d == 51 {
        777
    } else     if d == 52 {
        788
    } else     if d == 53 {
        799
    } else     if d == 54 {
        809
    } else     if d == 55 {
        819
    } else     if d == 56 {
        829
    } else     if d == 57 {
        839
    } else     if d == 58 {
        848
    } else     if d == 59 {
        857
    } else     if d == 60 {
        866
    } else     if d == 61 {
        875
    } else     if d == 62 {
        883
    } else     if d == 63 {
        891
    } else     if d == 64 {
        899
    } else     if d == 65 {
        906
    } else     if d == 66 {
        914
    } else     if d == 67 {
        921
    } else     if d == 68 {
        927
    } else     if d == 69 {
        934
    } else     if d == 70 {
        940
    } else     if d == 71 {
        946
    } else     if d == 72 {
        951
    } else     if d == 73 {
        956
    } else     if d == 74 {
        961
    } else     if d == 75 {
        966
    } else     if d == 76 {
        970
    } else     if d == 77 {
        974
    } else     if d == 78 {
        978
    } else     if d == 79 {
        982
    } else     if d == 80 {
        985
    } else     if d == 81 {
        988
    } else     if d == 82 {
        990
    } else     if d == 83 {
        993
    } else     if d == 84 {
        995
    } else     if d == 85 {
        996
    } else     if d == 86 {
        998
    } else     if d == 87 {
        999
    } else     if d == 88 {
        999
    } else     if d == 89 {
        1000
    } else     if d == 90 {
        1000
    } else {
        0
    }
}

/// Sine in thousandths for a whole-degree angle in 0..360, by the
/// quarter-wave symmetries of the sine.
pub open spec fn sin_pm(d: int) -> int {
    if d <= 90 {
        sin_pm_quarter(d)
    } else if d <= 180 {
        sin_pm_quarter(180 - d)
    } else if d <= 270 {
        -sin_pm_quarter(d - 180)
    } else {
        -sin_pm_quarter(360 - d)
    }
}

/// Cosine in thousandths for a whole-degree angle in 0..360: the sine
/// shifted by a quarter turn.
pub open spec fn cos_pm(d: int) -> int {
    if d <= 270 {
        sin_pm(d + 90)
    } else {
        sin_pm(d - 270)
    }
}

/// The table never leaves the unit range.
pub proof fn lemma_sin_pm_range(d: int)
    ensures
        -1000 <= sin_pm(d) <= 1000,
        -1000 <= cos_pm(d) <= 1000,
{
}

/// The tabled direction is a unit vector to within six parts in ten
/// thousand: the squared norm of (cos, sin) in thousandths lies between
/// 999200 and 1001192.
pub proof fn lemma_sin_cos_norm(d: int)
    requires
        0 <= d < 360,
    ensures
        999200 <= sin_pm(d) * sin_pm(d) + cos_pm(d) * cos_pm(d) <= 1001192,
{
    if d <= 90 {
        lemma_quarter_norm(d);
        assert(cos_pm(d) == sin_pm_quarter(90 - d));
    } else if d <= 180 {
        lemma_quarter_norm(180 - d);
        assert(sin_pm(d) == sin_pm_quarter(180 - d));
        assert(cos_pm(d) == -sin_pm_quarter(90 - (180 - d)));
        lemma_square_neg(sin_pm_quarter(90 - (180 - d)));
    } else if d <= 270 {
        lemma_quarter_norm(d - 180);
        assert(sin_pm(d) == -sin_pm_quarter(d - 180));
        assert(cos_pm(d) == -sin_pm_quarter(90 - (d - 180)));
        lemma_square_neg(sin_pm_quarter(d - 180));
        lemma_square_neg(sin_pm_quarter(90 - (d - 180)));
    } else {
        lemma_quarter_norm(360 - d);
        assert(sin_pm(d) == -sin_pm_quarter(360 - d));
        assert(cos_pm(d) == sin_pm_quarter(90 - (360 - d)));
        lemma_square_neg(sin_pm_quarter(360 - d));
    }
}

/// Squaring forgets the sign.
proof fn lemma_square_neg(x: int)
    ensures
        (-x) * (-x) == x * x,
{
    assert((-x) * (-x) == x * x) by (nonlinear_arith);
}

/// The quarter table paired with its mirror stays within the unit
/// annulus.
#[verifier::rlimit(100)]
proof fn lemma_quarter_norm(a: int)
    requires
        0 <= a <= 90,
    ensures
        999200 <= sin_pm_quarter(a) * sin_pm_quarter(a) + sin_pm_quarter(90 - a) * sin_pm_quarter(
            90 - a,
        ) <= 1001192,
{
}

/// Sine in thousandths of a whole-degree angle in 0..360.
pub fn sin_milli(d: i64) -> (r: i64)
    requires
        0 <= d < 360,
    ensures
        r == sin_pm(d as int),
        -1000 <= r <= 1000,
{
    if d <= 90 {
        sin_quarter(d)
    } else if d <= 180 {
        sin_quarter(180 - d)
    } else if d <= 270 {
        -sin_quarter(d - 180)
    } else {
        -sin_quarter(360 - d)
    }
}

/// Cosine in thousandths of a whole-degree angle in 0..360.
pub fn cos_milli(d: i64) -> (r: i64)
    requires
        0 <= d < 360,
    ensures
        r == cos_pm(d as int),
        -1000 <= r <= 1000,
{
    if d < 270 {
        sin_milli(d + 90)
    } else {
        sin_milli(d - 270)
    }
}

/// Table lookup for the first quadrant.
fn sin_quarter(d: i64) -> (r: i64)
    requires
        0 <= d <= 90,
    ensures
        r == sin_pm_quarter(d as int),
        0 <= r <= 1000,
{
    match d {
        0 => 0,
        1 => 17,
        2 => 35,
        3 => 52,
        4 => 70,
        5 => 87,
        6 => 105,
        7 => 122,
        8 => 139,
        9 => 156,
        10 => 174,
        11 => 191,
        12 => 208,
        13 => 225,
        14 => 242,
        15 => 259,
        16 => 276,
        17 => 292,
        18 => 309,
        19 => 326,
        20 => 342,
        21 => 358,
        22 => 375,
        23 => 391,
        24 => 407,
        25 => 423,
        26 => 438,
        27 => 454,
        28 => 469,
        29 => 485,
        30 => 500,
        31 => 515,
        32 => 530,
        33 => 545,
        34 => 559,
        35 => 574,
        36 => 588,
        37 => 602,
        38 => 616,
        39 => 629,
        40 => 643,
        41 => 656,
        42 => 669,
        43 => 682,
        44 => 695,
        45 => 707,
        46 => 719,
        47 => 731,
        48 => 743,
        49 => 755,
        50 => 766,
        51 => 777,
        52 => 788,
        53 => 799,
        54 => 809,
        55 => 819,
        56 => 829,
        57 => 839,
        58 => 848,
        59 => 857,
        60 => 866,
        61 => 875,
        62 => 883,
        63 => 891,
        64 => 899,
        65 => 906,
        66 => 914,
        67 => 921,
        68 => 927,
        69 => 934,
        70 => 940,
        71 => 946,
        72 => 951,
        73 => 956,
        74 => 961,
        75 => 966,
        76 => 970,
        77 => 974,
        78 => 978,
        79 => 982,
        80 => 985,
        81 => 988,
        82 => 990,
        83 => 993,
        84 => 995,
        85 => 996,
        86 => 998,
        87 => 999,
        88 => 999,
        89 => 1000,
        90 => 1000,
        _ => 0,
    }
}

} // verus!
