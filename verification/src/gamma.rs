//! Gamma encoding of a colour channel for display.
//!
//! A channel is clamped to `[0, 1]`, raised to the power `5 / 11` (the inverse
//! of gamma `2.2`), scaled to `255` and rounded down. With whole numbers: the
//! level of a channel `c` is the largest `b` with
//! `b^11 * one^5 <= c^5 * 255^11`.
use crate::scalar::{Scalar, ONE_RAW};
use vstd::prelude::*;

verus! {

/// `x` to the fifth power.
pub open spec fn pow5(x: int) -> int {
    x * x * x * x * x
}

/// `x` to the eleventh power.
pub open spec fn pow11(x: int) -> int {
    pow5(x) * pow5(x) * x
}

/// Whether a channel with raw value `c` is bright enough for level `b`:
/// `(b / 255)^(11/5) <= c / one`.
pub open spec fn reaches(c: int, b: int) -> bool {
    pow11(b) * pow5(ONE_RAW as int) <= pow5(c) * pow11(255)
}

/// The raw value clamped to `[0, one]`.
pub open spec fn unit_clamp(c: int) -> int {
    if c < 0 {
        0
    } else if c > ONE_RAW {
        ONE_RAW as int
    } else {
        c
    }
}

/// The largest level up to `b` that `c` reaches.
pub open spec fn level_upto(c: int, b: int) -> int
    decreases b,
{
    if b <= 0 {
        0
    } else if reaches(c, b) {
        b
    } else {
        level_upto(c, b - 1)
    }
}

/// The display level of a channel: clamp, gamma, scale to `255`, round down.
pub open spec fn gamma_level(c: int) -> int {
    level_upto(unit_clamp(c), 255)
}

/// Products of non-negative numbers grow with their factors.
proof fn lemma_product_grows(a: int, b: int, c: int, d: int)
    requires
        0 <= a <= b,
        0 <= c <= d,
    ensures
        0 <= a * c <= b * d,
{
    assert(0 <= a * c <= b * d) by (nonlinear_arith)
        requires
            0 <= a <= b,
            0 <= c <= d,
    ;
}

proof fn lemma_pow5_grows(a: int, b: int)
    requires
        0 <= a <= b,
    ensures
        0 <= pow5(a) <= pow5(b),
{
    lemma_product_grows(a, b, a, b);
    lemma_product_grows(a * a, b * b, a, b);
    lemma_product_grows(a * a * a, b * b * b, a, b);
    lemma_product_grows(a * a * a * a, b * b * b * b, a, b);
}

proof fn lemma_pow11_grows(a: int, b: int)
    requires
        0 <= a <= b,
    ensures
        0 <= pow11(a) <= pow11(b),
{
    lemma_pow5_grows(a, b);
    lemma_product_grows(pow5(a), pow5(b), pow5(a), pow5(b));
    lemma_product_grows(pow5(a) * pow5(a), pow5(b) * pow5(b), a, b);
}

/// A brighter channel reaches every level that a darker one reaches.
pub proof fn lemma_reaches_brighter(c: int, d: int, b: int)
    requires
        0 <= c <= d,
        reaches(c, b),
    ensures
        reaches(d, b),
{
    lemma_pow5_grows(c, d);
    lemma_pow11_grows(255, 255);
    lemma_product_grows(pow5(c), pow5(d), pow11(255), pow11(255));
}

/// A channel that reaches a level reaches every level below it.
pub proof fn lemma_reaches_lower(c: int, a: int, b: int)
    requires
        0 <= a <= b,
        reaches(c, b),
    ensures
        reaches(c, a),
{
    lemma_pow11_grows(a, b);
    lemma_pow5_grows(ONE_RAW as int, ONE_RAW as int);
    lemma_product_grows(pow11(a), pow11(b), pow5(ONE_RAW as int), pow5(ONE_RAW as int));
}

/// Every channel that is not negative reaches level zero.
proof fn lemma_reaches_zero(c: int)
    requires
        0 <= c,
    ensures
        reaches(c, 0),
{
    lemma_pow5_grows(0, c);
    lemma_pow11_grows(255, 255);
    lemma_product_grows(0, pow5(c), 0, pow11(255));
    assert(pow11(0) * pow5(ONE_RAW as int) == 0) by (nonlinear_arith);
}

/// A level that `c` reaches while it does not reach the next one is the
/// largest level that it reaches.
proof fn lemma_level_found(c: int, lo: int, k: int)
    requires
        0 <= lo <= k <= 255,
        reaches(c, lo),
        lo < 255 ==> !reaches(c, lo + 1),
    ensures
        level_upto(c, k) == lo,
    decreases k,
{
    if k > lo {
        if reaches(c, k) {
            lemma_reaches_lower(c, lo + 1, k);
        }
        lemma_level_found(c, lo, k - 1);
    }
}

/// `level_upto(c, k)` is the largest level up to `k` that `c` reaches.
proof fn lemma_level_upto_largest(c: int, k: int)
    requires
        0 <= c,
        0 <= k,
    ensures
        0 <= level_upto(c, k) <= k,
        reaches(c, level_upto(c, k)),
        forall|b: int| level_upto(c, k) < b <= k ==> !reaches(c, b),
    decreases k,
{
    if k <= 0 {
        lemma_reaches_zero(c);
    } else if !reaches(c, k) {
        lemma_level_upto_largest(c, k - 1);
    }
}

/// The display level is the largest of the levels `0` to `255` that the
/// clamped channel reaches.
pub proof fn lemma_gamma_level_largest(c: int)
    ensures
        0 <= gamma_level(c) <= 255,
        reaches(unit_clamp(c), gamma_level(c)),
        forall|b: int| gamma_level(c) < b <= 255 ==> !reaches(unit_clamp(c), b),
{
    lemma_level_upto_largest(unit_clamp(c), 255);
}

/// A channel of one or more shows as `255`, a channel of zero or less as `0`.
pub proof fn lemma_gamma_level_ends(c: int)
    ensures
        c >= ONE_RAW ==> gamma_level(c) == 255,
        c <= 0 ==> gamma_level(c) == 0,
{
    if c >= ONE_RAW {
        assert(reaches(ONE_RAW as int, 255)) by (nonlinear_arith);
        lemma_level_found(ONE_RAW as int, 255, 255);
    }
    if c <= 0 {
        assert(!reaches(0, 1)) by (nonlinear_arith);
        lemma_reaches_zero(0);
        lemma_level_found(0, 0, 255);
    }
}

/// The least raw value that reaches `level`.
pub fn threshold(level: u8) -> (r: u64)
    ensures
        r <= ONE_RAW,
        reaches(r as int, level as int),
        level > 0 ==> r > 0 && !reaches(r - 1, level as int),
{
    match level {
        0 => {
            assert(reaches(0, 0)) by (nonlinear_arith);
            0
        },
        1 => {
            assert(reaches(21806, 1) && !reaches(21805, 1)) by (nonlinear_arith);
            21806
        },
        2 => {
            assert(reaches(100194, 2) && !reaches(100193, 2)) by (nonlinear_arith);
            100194
        },
        3 => {
            assert(reaches(244478, 3) && !reaches(244477, 3)) by (nonlinear_arith);
            244478
        },
        4 => {
            assert(reaches(460367, 4) && !reaches(460366, 4)) by (nonlinear_arith);
            460367
        },
        5 => {
            assert(reaches(752152, 5) && !reaches(752151, 5)) by (nonlinear_arith);
            752152
        },
        6 => {
            assert(reaches(1123322, 6) && !reaches(1123321, 6)) by (nonlinear_arith);
            1123322
        },
        7 => {
            assert(reaches(1576839, 7) && !reaches(1576838, 7)) by (nonlinear_arith);
            1576839
        },
        8 => {
            assert(reaches(2115288, 8) && !reaches(2115287, 8)) by (nonlinear_arith);
            2115288
        },
        9 => {
            assert(reaches(2740975, 9) && !reaches(2740974, 9)) by (nonlinear_arith);
            2740975
        },
        10 => {
            assert(reaches(3455982, 10) && !reaches(3455981, 10)) by (nonlinear_arith);
            3455982
        },
        11 => {
            assert(reaches(4262216, 11) && !reaches(4262215, 11)) by (nonlinear_arith);
            4262216
        },
        12 => {
            assert(reaches(5161432, 12) && !reaches(5161431, 12)) by (nonlinear_arith);
            5161432
        },
        13 => {
            assert(reaches(6155267, 13) && !reaches(6155266, 13)) by (nonlinear_arith);
            6155267
        },
        14 => {
            assert(reaches(7245247, 14) && !reaches(7245246, 14)) by (nonlinear_arith);
            7245247
        },
        15 => {
            assert(reaches(8432809, 15) && !reaches(8432808, 15)) by (nonlinear_arith);
            8432809
        },
        16 => {
            assert(reaches(9719310, 16) && !reaches(9719309, 16)) by (nonlinear_arith);
            9719310
        },
        17 => {
            assert(reaches(11106037, 17) && !reaches(11106036, 17)) by (nonlinear_arith);
            11106037
        },
        18 => {
            assert(reaches(12594212, 18) && !reaches(12594211, 18)) by (nonlinear_arith);
            12594212
        },
        19 => {
            assert(reaches(14185002, 19) && !reaches(14185001, 19)) by (nonlinear_arith);
            14185002
        },
        20 => {
            assert(reaches(15879524, 20) && !reaches(15879523, 20)) by (nonlinear_arith);
            15879524
        },
        21 => {
            assert(reaches(17678847, 21) && !reaches(17678846, 21)) by (nonlinear_arith);
            17678847
        },
        22 => {
            assert(reaches(19583999, 22) && !reaches(19583998, 22)) by (nonlinear_arith);
            19583999
        },
        23 => {
            assert(reaches(21595970, 23) && !reaches(21595969, 23)) by (nonlinear_arith);
            21595970
        },
        24 => {
            assert(reaches(23715714, 24) && !reaches(23715713, 24)) by (nonlinear_arith);
            23715714
        },
        25 => {
            assert(reaches(25944153, 25) && !reaches(25944152, 25)) by (nonlinear_arith);
            25944153
        },
        26 => {
            assert(reaches(28282177, 26) && !reaches(28282176, 26)) by (nonlinear_arith);
            28282177
        },
        27 => {
            assert(reaches(30730650, 27) && !reaches(30730649, 27)) by (nonlinear_arith);
            30730650
        },
        28 => {
            assert(reaches(33290410, 28) && !reaches(33290409, 28)) by (nonlinear_arith);
            33290410
        },
        29 => {
            assert(reaches(35962267, 29) && !reaches(35962266, 29)) by (nonlinear_arith);
            35962267
        },
        30 => {
            assert(reaches(38747013, 30) && !reaches(38747012, 30)) by (nonlinear_arith);
            38747013
        },
        31 => {
            assert(reaches(41645415, 31) && !reaches(41645414, 31)) by (nonlinear_arith);
            41645415
        },
        32 => {
            assert(reaches(44658221, 32) && !reaches(44658220, 32)) by (nonlinear_arith);
            44658221
        },
        33 => {
            assert(reaches(47786160, 33) && !reaches(47786159, 33)) by (nonlinear_arith);
            47786160
        },
        34 => {
            assert(reaches(51029943, 34) && !reaches(51029942, 34)) by (nonlinear_arith);
            51029943
        },
        35 => {
            assert(reaches(54390264, 35) && !reaches(54390263, 35)) by (nonlinear_arith);
            54390264
        },
        36 => {
            assert(reaches(57867800, 36) && !reaches(57867799, 36)) by (nonlinear_arith);
            57867800
        },
        37 => {
            assert(reaches(61463213, 37) && !reaches(61463212, 37)) by (nonlinear_arith);
            61463213
        },
        38 => {
            assert(reaches(65177152, 38) && !reaches(65177151, 38)) by (nonlinear_arith);
            65177152
        },
        39 => {
            assert(reaches(69010250, 39) && !reaches(69010249, 39)) by (nonlinear_arith);
            69010250
        },
        40 => {
            assert(reaches(72963129, 40) && !reaches(72963128, 40)) by (nonlinear_arith);
            72963129
        },
        41 => {
            assert(reaches(77036395, 41) && !reaches(77036394, 41)) by (nonlinear_arith);
            77036395
        },
        42 => {
            assert(reaches(81230646, 42) && !reaches(81230645, 42)) by (nonlinear_arith);
            81230646
        },
        43 => {
            assert(reaches(85546465, 43) && !reaches(85546464, 43)) by (nonlinear_arith);
            85546465
        },
        44 => {
            assert(reaches(89984427, 44) && !reaches(89984426, 44)) by (nonlinear_arith);
            89984427
        },
        45 => {
            assert(reaches(94545094, 45) && !reaches(94545093, 45)) by (nonlinear_arith);
            94545094
        },
        46 => {
            assert(reaches(99229019, 46) && !reaches(99229018, 46)) by (nonlinear_arith);
            99229019
        },
        47 => {
            assert(reaches(104036744, 47) && !reaches(104036743, 47)) by (nonlinear_arith);
            104036744
        },
        48 => {
            assert(reaches(108968805, 48) && !reaches(108968804, 48)) by (nonlinear_arith);
            108968805
        },
        49 => {
            assert(reaches(114025725, 49) && !reaches(114025724, 49)) by (nonlinear_arith);
            114025725
        },
        50 => {
            assert(reaches(119208020, 50) && !reaches(119208019, 50)) by (nonlinear_arith);
            119208020
        },
        51 => {
            assert(reaches(124516199, 51) && !reaches(124516198, 51)) by (nonlinear_arith);
            124516199
        },
        52 => {
            assert(reaches(129950759, 52) && !reaches(129950758, 52)) by (nonlinear_arith);
            129950759
        },
        53 => {
            assert(reaches(135512195, 53) && !reaches(135512194, 53)) by (nonlinear_arith);
            135512195
        },
        54 => {
            assert(reaches(141200989, 54) && !reaches(141200988, 54)) by (nonlinear_arith);
            141200989
        },
        55 => {
            assert(reaches(147017618, 55) && !reaches(147017617, 55)) by (nonlinear_arith);
            147017618
        },
        56 => {
            assert(reaches(152962554, 56) && !reaches(152962553, 56)) by (nonlinear_arith);
            152962554
        },
        57 => {
            assert(reaches(159036258, 57) && !reaches(159036257, 57)) by (nonlinear_arith);
            159036258
        },
        58 => {
            assert(reaches(165239188, 58) && !reaches(165239187, 58)) by (nonlinear_arith);
            165239188
        },
        59 => {
            assert(reaches(171571794, 59) && !reaches(171571793, 59)) by (nonlinear_arith);
            171571794
        },
        60 => {
            assert(reaches(178034519, 60) && !reaches(178034518, 60)) by (nonlinear_arith);
            178034519
        },
        61 => {
            assert(reaches(184627803, 61) && !reaches(184627802, 61)) by (nonlinear_arith);
            184627803
        },
        62 => {
            assert(reaches(191352078, 62) && !reaches(191352077, 62)) by (nonlinear_arith);
            191352078
        },
        63 => {
            assert(reaches(198207769, 63) && !reaches(198207768, 63)) by (nonlinear_arith);
            198207769
        },
        64 => {
            assert(reaches(205195300, 64) && !reaches(205195299, 64)) by (nonlinear_arith);
            205195300
        },
        65 => {
            assert(reaches(212315084, 65) && !reaches(212315083, 65)) by (nonlinear_arith);
            212315084
        },
        66 => {
            assert(reaches(219567534, 66) && !reaches(219567533, 66)) by (nonlinear_arith);
            219567534
        },
        67 => {
            assert(reaches(226953054, 67) && !reaches(226953053, 67)) by (nonlinear_arith);
            226953054
        },
        68 => {
            assert(reaches(234472046, 68) && !reaches(234472045, 68)) by (nonlinear_arith);
            234472046
        },
        69 => {
            assert(reaches(242124906, 69) && !reaches(242124905, 69)) by (nonlinear_arith);
            242124906
        },
        70 => {
            assert(reaches(249912025, 70) && !reaches(249912024, 70)) by (nonlinear_arith);
            249912025
        },
        71 => {
            assert(reaches(257833790, 71) && !reaches(257833789, 71)) by (nonlinear_arith);
            257833790
        },
        72 => {
            assert(reaches(265890584, 72) && !reaches(265890583, 72)) by (nonlinear_arith);
            265890584
        },
        73 => {
            assert(reaches(274082784, 73) && !reaches(274082783, 73)) by (nonlinear_arith);
            274082784
        },
        74 => {
            assert(reaches(282410766, 74) && !reaches(282410765, 74)) by (nonlinear_arith);
            282410766
        },
        75 => {
            assert(reaches(290874898, 75) && !reaches(290874897, 75)) by (nonlinear_arith);
            290874898
        },
        76 => {
            assert(reaches(299475548, 76) && !reaches(299475547, 76)) by (nonlinear_arith);
            299475548
        },
        77 => {
            assert(reaches(308213076, 77) && !reaches(308213075, 77)) by (nonlinear_arith);
            308213076
        },
        78 => {
            assert(reaches(317087842, 78) && !reaches(317087841, 78)) by (nonlinear_arith);
            317087842
        },
        79 => {
            assert(reaches(326100200, 79) && !reaches(326100199, 79)) by (nonlinear_arith);
            326100200
        },
        80 => {
            assert(reaches(335250502, 80) && !reaches(335250501, 80)) by (nonlinear_arith);
            335250502
        },
        81 => {
            assert(reaches(344539093, 81) && !reaches(344539092, 81)) by (nonlinear_arith);
            344539093
        },
        82 => {
            assert(reaches(353966320, 82) && !reaches(353966319, 82)) by (nonlinear_arith);
            353966320
        },
        83 => {
            assert(reaches(363532521, 83) && !reaches(363532520, 83)) by (nonlinear_arith);
            363532521
        },
        84 => {
            assert(reaches(373238035, 84) && !reaches(373238034, 84)) by (nonlinear_arith);
            373238035
        },
        85 => {
            assert(reaches(383083195, 85) && !reaches(383083194, 85)) by (nonlinear_arith);
            383083195
        },
        86 => {
            assert(reaches(393068334, 86) && !reaches(393068333, 86)) by (nonlinear_arith);
            393068334
        },
        87 => {
            assert(reaches(403193777, 87) && !reaches(403193776, 87)) by (nonlinear_arith);
            403193777
        },
        88 => {
            assert(reaches(413459851, 88) && !reaches(413459850, 88)) by (nonlinear_arith);
            413459851
        },
        89 => {
            assert(reaches(423866876, 89) && !reaches(423866875, 89)) by (nonlinear_arith);
            423866876
        },
        90 => {
            assert(reaches(434415173, 90) && !reaches(434415172, 90)) by (nonlinear_arith);
            434415173
        },
        91 => {
            assert(reaches(445105056, 91) && !reaches(445105055, 91)) by (nonlinear_arith);
            445105056
        },
        92 => {
            assert(reaches(455936840, 92) && !reaches(455936839, 92)) by (nonlinear_arith);
            455936840
        },
        93 => {
            assert(reaches(466910834, 93) && !reaches(466910833, 93)) by (nonlinear_arith);
            466910834
        },
        94 => {
            assert(reaches(478027347, 94) && !reaches(478027346, 94)) by (nonlinear_arith);
            478027347
        },
        95 => {
            assert(reaches(489286684, 95) && !reaches(489286683, 95)) by (nonlinear_arith);
            489286684
        },
        96 => {
            assert(reaches(500689147, 96) && !reaches(500689146, 96)) by (nonlinear_arith);
            500689147
        },
        97 => {
            assert(reaches(512235036, 97) && !reaches(512235035, 97)) by (nonlinear_arith);
            512235036
        },
        98 => {
            assert(reaches(523924649, 98) && !reaches(523924648, 98)) by (nonlinear_arith);
            523924649
        },
        99 => {
            assert(reaches(535758281, 99) && !reaches(535758280, 99)) by (nonlinear_arith);
            535758281
        },
        100 => {
            assert(reaches(547736225, 100) && !reaches(547736224, 100)) by (nonlinear_arith);
            547736225
        },
        101 => {
            assert(reaches(559858772, 101) && !reaches(559858771, 101)) by (nonlinear_arith);
            559858772
        },
        102 => {
            assert(reaches(572126208, 102) && !reaches(572126207, 102)) by (nonlinear_arith);
            572126208
        },
        103 => {
            assert(reaches(584538821, 103) && !reaches(584538820, 103)) by (nonlinear_arith);
            584538821
        },
        104 => {
            assert(reaches(597096893, 104) && !reaches(597096892, 104)) by (nonlinear_arith);
            597096893
        },
        105 => {
            assert(reaches(609800706, 105) && !reaches(609800705, 105)) by (nonlinear_arith);
            609800706
        },
        106 => {
            assert(reaches(622650539, 106) && !reaches(622650538, 106)) by (nonlinear_arith);
            622650539
        },
        107 => {
            assert(reaches(635646669, 107) && !reaches(635646668, 107)) by (nonlinear_arith);
            635646669
        },
        108 => {
            assert(reaches(648789372, 108) && !reaches(648789371, 108)) by (nonlinear_arith);
            648789372
        },
        109 => {
            assert(reaches(662078919, 109) && !reaches(662078918, 109)) by (nonlinear_arith);
            662078919
        },
        110 => {
            assert(reaches(675515583, 110) && !reaches(675515582, 110)) by (nonlinear_arith);
            675515583
        },
        111 => {
            assert(reaches(689099632, 111) && !reaches(689099631, 111)) by (nonlinear_arith);
            689099632
        },
        112 => {
            assert(reaches(702831333, 112) && !reaches(702831332, 112)) by (nonlinear_arith);
            702831333
        },
        113 => {
            assert(reaches(716710951, 113) && !reaches(716710950, 113)) by (nonlinear_arith);
            716710951
        },
        114 => {
            assert(reaches(730738749, 114) && !reaches(730738748, 114)) by (nonlinear_arith);
            730738749
        },
        115 => {
            assert(reaches(744914989, 115) && !reaches(744914988, 115)) by (nonlinear_arith);
            744914989
        },
        116 => {
            assert(reaches(759239931, 116) && !reaches(759239930, 116)) by (nonlinear_arith);
            759239931
        },
        117 => {
            assert(reaches(773713831, 117) && !reaches(773713830, 117)) by (nonlinear_arith);
            773713831
        },
        118 => {
            assert(reaches(788336946, 118) && !reaches(788336945, 118)) by (nonlinear_arith);
            788336946
        },
        119 => {
            assert(reaches(803109530, 119) && !reaches(803109529, 119)) by (nonlinear_arith);
            803109530
        },
        120 => {
            assert(reaches(818031836, 120) && !reaches(818031835, 120)) by (nonlinear_arith);
            818031836
        },
        121 => {
            assert(reaches(833104114, 121) && !reaches(833104113, 121)) by (nonlinear_arith);
            833104114
        },
        122 => {
            assert(reaches(848326614, 122) && !reaches(848326613, 122)) by (nonlinear_arith);
            848326614
        },
        123 => {
            assert(reaches(863699583, 123) && !reaches(863699582, 123)) by (nonlinear_arith);
            863699583
        },
        124 => {
            assert(reaches(879223266, 124) && !reaches(879223265, 124)) by (nonlinear_arith);
            879223266
        },
        125 => {
            assert(reaches(894897909, 125) && !reaches(894897908, 125)) by (nonlinear_arith);
            894897909
        },
        126 => {
            assert(reaches(910723753, 126) && !reaches(910723752, 126)) by (nonlinear_arith);
            910723753
        },
        127 => {
            assert(reaches(926701040, 127) && !reaches(926701039, 127)) by (nonlinear_arith);
            926701040
        },
        128 => {
            assert(reaches(942830010, 128) && !reaches(942830009, 128)) by (nonlinear_arith);
            942830010
        },
        129 => {
            assert(reaches(959110901, 129) && !reaches(959110900, 129)) by (nonlinear_arith);
            959110901
        },
        130 => {
            assert(reaches(975543949, 130) && !reaches(975543948, 130)) by (nonlinear_arith);
            975543949
        },
        131 => {
            assert(reaches(992129390, 131) && !reaches(992129389, 131)) by (nonlinear_arith);
            992129390
        },
        132 => {
            assert(reaches(1008867457, 132) && !reaches(1008867456, 132)) by (nonlinear_arith);
            1008867457
        },
        133 => {
            assert(reaches(1025758382, 133) && !reaches(1025758381, 133)) by (nonlinear_arith);
            1025758382
        },
        134 => {
            assert(reaches(1042802397, 134) && !reaches(1042802396, 134)) by (nonlinear_arith);
            1042802397
        },
        135 => {
            assert(reaches(1059999731, 135) && !reaches(1059999730, 135)) by (nonlinear_arith);
            1059999731
        },
        136 => {
            assert(reaches(1077350613, 136) && !reaches(1077350612, 136)) by (nonlinear_arith);
            1077350613
        },
        137 => {
            assert(reaches(1094855268, 137) && !reaches(1094855267, 137)) by (nonlinear_arith);
            1094855268
        },
        138 => {
            assert(reaches(1112513922, 138) && !reaches(1112513921, 138)) by (nonlinear_arith);
            1112513922
        },
        139 => {
            assert(reaches(1130326801, 139) && !reaches(1130326800, 139)) by (nonlinear_arith);
            1130326801
        },
        140 => {
            assert(reaches(1148294125, 140) && !reaches(1148294124, 140)) by (nonlinear_arith);
            1148294125
        },
        141 => {
            assert(reaches(1166416118, 141) && !reaches(1166416117, 141)) by (nonlinear_arith);
            1166416118
        },
        142 => {
            assert(reaches(1184692999, 142) && !reaches(1184692998, 142)) by (nonlinear_arith);
            1184692999
        },
        143 => {
            assert(reaches(1203124988, 143) && !reaches(1203124987, 143)) by (nonlinear_arith);
            1203124988
        },
        144 => {
            assert(reaches(1221712302, 144) && !reaches(1221712301, 144)) by (nonlinear_arith);
            1221712302
        },
        145 => {
            assert(reaches(1240455158, 145) && !reaches(1240455157, 145)) by (nonlinear_arith);
            1240455158
        },
        146 => {
            assert(reaches(1259353772, 146) && !reaches(1259353771, 146)) by (nonlinear_arith);
            1259353772
        },
        147 => {
            assert(reaches(1278408357, 147) && !reaches(1278408356, 147)) by (nonlinear_arith);
            1278408357
        },
        148 => {
            assert(reaches(1297619127, 148) && !reaches(1297619126, 148)) by (nonlinear_arith);
            1297619127
        },
        149 => {
            assert(reaches(1316986293, 149) && !reaches(1316986292, 149)) by (nonlinear_arith);
            1316986293
        },
        150 => {
            assert(reaches(1336510067, 150) && !reaches(1336510066, 150)) by (nonlinear_arith);
            1336510067
        },
        151 => {
            assert(reaches(1356190658, 151) && !reaches(1356190657, 151)) by (nonlinear_arith);
            1356190658
        },
        152 => {
            assert(reaches(1376028275, 152) && !reaches(1376028274, 152)) by (nonlinear_arith);
            1376028275
        },
        153 => {
            assert(reaches(1396023125, 153) && !reaches(1396023124, 153)) by (nonlinear_arith);
            1396023125
        },
        154 => {
            assert(reaches(1416175414, 154) && !reaches(1416175413, 154)) by (nonlinear_arith);
            1416175414
        },
        155 => {
            assert(reaches(1436485347, 155) && !reaches(1436485346, 155)) by (nonlinear_arith);
            1436485347
        },
        156 => {
            assert(reaches(1456953130, 156) && !reaches(1456953129, 156)) by (nonlinear_arith);
            1456953130
        },
        157 => {
            assert(reaches(1477578965, 157) && !reaches(1477578964, 157)) by (nonlinear_arith);
            1477578965
        },
        158 => {
            assert(reaches(1498363054, 158) && !reaches(1498363053, 158)) by (nonlinear_arith);
            1498363054
        },
        159 => {
            assert(reaches(1519305598, 159) && !reaches(1519305597, 159)) by (nonlinear_arith);
            1519305598
        },
        160 => {
            assert(reaches(1540406797, 160) && !reaches(1540406796, 160)) by (nonlinear_arith);
            1540406797
        },
        161 => {
            assert(reaches(1561666851, 161) && !reaches(1561666850, 161)) by (nonlinear_arith);
            1561666851
        },
        162 => {
            assert(reaches(1583085957, 162) && !reaches(1583085956, 162)) by (nonlinear_arith);
            1583085957
        },
        163 => {
            assert(reaches(1604664313, 163) && !reaches(1604664312, 163)) by (nonlinear_arith);
            1604664313
        },
        164 => {
            assert(reaches(1626402114, 164) && !reaches(1626402113, 164)) by (nonlinear_arith);
            1626402114
        },
        165 => {
            assert(reaches(1648299556, 165) && !reaches(1648299555, 165)) by (nonlinear_arith);
            1648299556
        },
        166 => {
            assert(reaches(1670356833, 166) && !reaches(1670356832, 166)) by (nonlinear_arith);
            1670356833
        },
        167 => {
            assert(reaches(1692574139, 167) && !reaches(1692574138, 167)) by (nonlinear_arith);
            1692574139
        },
        168 => {
            assert(reaches(1714951665, 168) && !reaches(1714951664, 168)) by (nonlinear_arith);
            1714951665
        },
        169 => {
            assert(reaches(1737489603, 169) && !reaches(1737489602, 169)) by (nonlinear_arith);
            1737489603
        },
        170 => {
            assert(reaches(1760188144, 170) && !reaches(1760188143, 170)) by (nonlinear_arith);
            1760188144
        },
        171 => {
            assert(reaches(1783047477, 171) && !reaches(1783047476, 171)) by (nonlinear_arith);
            1783047477
        },
        172 => {
            assert(reaches(1806067791, 172) && !reaches(1806067790, 172)) by (nonlinear_arith);
            1806067791
        },
        173 => {
            assert(reaches(1829249274, 173) && !reaches(1829249273, 173)) by (nonlinear_arith);
            1829249274
        },
        174 => {
            assert(reaches(1852592112, 174) && !reaches(1852592111, 174)) by (nonlinear_arith);
            1852592112
        },
        175 => {
            assert(reaches(1876096493, 175) && !reaches(1876096492, 175)) by (nonlinear_arith);
            1876096493
        },
        176 => {
            assert(reaches(1899762600, 176) && !reaches(1899762599, 176)) by (nonlinear_arith);
            1899762600
        },
        177 => {
            assert(reaches(1923590619, 177) && !reaches(1923590618, 177)) by (nonlinear_arith);
            1923590619
        },
        178 => {
            assert(reaches(1947580733, 178) && !reaches(1947580732, 178)) by (nonlinear_arith);
            1947580733
        },
        179 => {
            assert(reaches(1971733125, 179) && !reaches(1971733124, 179)) by (nonlinear_arith);
            1971733125
        },
        180 => {
            assert(reaches(1996047976, 180) && !reaches(1996047975, 180)) by (nonlinear_arith);
            1996047976
        },
        181 => {
            assert(reaches(2020525469, 181) && !reaches(2020525468, 181)) by (nonlinear_arith);
            2020525469
        },
        182 => {
            assert(reaches(2045165782, 182) && !reaches(2045165781, 182)) by (nonlinear_arith);
            2045165782
        },
        183 => {
            assert(reaches(2069969097, 183) && !reaches(2069969096, 183)) by (nonlinear_arith);
            2069969097
        },
        184 => {
            assert(reaches(2094935591, 184) && !reaches(2094935590, 184)) by (nonlinear_arith);
            2094935591
        },
        185 => {
            assert(reaches(2120065442, 185) && !reaches(2120065441, 185)) by (nonlinear_arith);
            2120065442
        },
        186 => {
            assert(reaches(2145358828, 186) && !reaches(2145358827, 186)) by (nonlinear_arith);
            2145358828
        },
        187 => {
            assert(reaches(2170815924, 187) && !reaches(2170815923, 187)) by (nonlinear_arith);
            2170815924
        },
        188 => {
            assert(reaches(2196436908, 188) && !reaches(2196436907, 188)) by (nonlinear_arith);
            2196436908
        },
        189 => {
            assert(reaches(2222221953, 189) && !reaches(2222221952, 189)) by (nonlinear_arith);
            2222221953
        },
        190 => {
            assert(reaches(2248171233, 190) && !reaches(2248171232, 190)) by (nonlinear_arith);
            2248171233
        },
        191 => {
            assert(reaches(2274284923, 191) && !reaches(2274284922, 191)) by (nonlinear_arith);
            2274284923
        },
        192 => {
            assert(reaches(2300563195, 192) && !reaches(2300563194, 192)) by (nonlinear_arith);
            2300563195
        },
        193 => {
            assert(reaches(2327006220, 193) && !reaches(2327006219, 193)) by (nonlinear_arith);
            2327006220
        },
        194 => {
            assert(reaches(2353614171, 194) && !reaches(2353614170, 194)) by (nonlinear_arith);
            2353614171
        },
        195 => {
            assert(reaches(2380387217, 195) && !reaches(2380387216, 195)) by (nonlinear_arith);
            2380387217
        },
        196 => {
            assert(reaches(2407325529, 196) && !reaches(2407325528, 196)) by (nonlinear_arith);
            2407325529
        },
        197 => {
            assert(reaches(2434429275, 197) && !reaches(2434429274, 197)) by (nonlinear_arith);
            2434429275
        },
        198 => {
            assert(reaches(2461698624, 198) && !reaches(2461698623, 198)) by (nonlinear_arith);
            2461698624
        },
        199 => {
            assert(reaches(2489133745, 199) && !reaches(2489133744, 199)) by (nonlinear_arith);
            2489133745
        },
        200 => {
            assert(reaches(2516734803, 200) && !reaches(2516734802, 200)) by (nonlinear_arith);
            2516734803
        },
        201 => {
            assert(reaches(2544501966, 201) && !reaches(2544501965, 201)) by (nonlinear_arith);
            2544501966
        },
        202 => {
            assert(reaches(2572435399, 202) && !reaches(2572435398, 202)) by (nonlinear_arith);
            2572435399
        },
        203 => {
            assert(reaches(2600535267, 203) && !reaches(2600535266, 203)) by (nonlinear_arith);
            2600535267
        },
        204 => {
            assert(reaches(2628801735, 204) && !reaches(2628801734, 204)) by (nonlinear_arith);
            2628801735
        },
        205 => {
            assert(reaches(2657234967, 205) && !reaches(2657234966, 205)) by (nonlinear_arith);
            2657234967
        },
        206 => {
            assert(reaches(2685835125, 206) && !reaches(2685835124, 206)) by (nonlinear_arith);
            2685835125
        },
        207 => {
            assert(reaches(2714602373, 207) && !reaches(2714602372, 207)) by (nonlinear_arith);
            2714602373
        },
        208 => {
            assert(reaches(2743536872, 208) && !reaches(2743536871, 208)) by (nonlinear_arith);
            2743536872
        },
        209 => {
            assert(reaches(2772638783, 209) && !reaches(2772638782, 209)) by (nonlinear_arith);
            2772638783
        },
        210 => {
            assert(reaches(2801908268, 210) && !reaches(2801908267, 210)) by (nonlinear_arith);
            2801908268
        },
        211 => {
            assert(reaches(2831345486, 211) && !reaches(2831345485, 211)) by (nonlinear_arith);
            2831345486
        },
        212 => {
            assert(reaches(2860950597, 212) && !reaches(2860950596, 212)) by (nonlinear_arith);
            2860950597
        },
        213 => {
            assert(reaches(2890723759, 213) && !reaches(2890723758, 213)) by (nonlinear_arith);
            2890723759
        },
        214 => {
            assert(reaches(2920665131, 214) && !reaches(2920665130, 214)) by (nonlinear_arith);
            2920665131
        },
        215 => {
            assert(reaches(2950774870, 215) && !reaches(2950774869, 215)) by (nonlinear_arith);
            2950774870
        },
        216 => {
            assert(reaches(2981053134, 216) && !reaches(2981053133, 216)) by (nonlinear_arith);
            2981053134
        },
        217 => {
            assert(reaches(3011500079, 217) && !reaches(3011500078, 217)) by (nonlinear_arith);
            3011500079
        },
        218 => {
            assert(reaches(3042115860, 218) && !reaches(3042115859, 218)) by (nonlinear_arith);
            3042115860
        },
        219 => {
            assert(reaches(3072900634, 219) && !reaches(3072900633, 219)) by (nonlinear_arith);
            3072900634
        },
        220 => {
            assert(reaches(3103854554, 220) && !reaches(3103854553, 220)) by (nonlinear_arith);
            3103854554
        },
        221 => {
            assert(reaches(3134977776, 221) && !reaches(3134977775, 221)) by (nonlinear_arith);
            3134977776
        },
        222 => {
            assert(reaches(3166270453, 222) && !reaches(3166270452, 222)) by (nonlinear_arith);
            3166270453
        },
        223 => {
            assert(reaches(3197732737, 223) && !reaches(3197732736, 223)) by (nonlinear_arith);
            3197732737
        },
        224 => {
            assert(reaches(3229364782, 224) && !reaches(3229364781, 224)) by (nonlinear_arith);
            3229364782
        },
        225 => {
            assert(reaches(3261166739, 225) && !reaches(3261166738, 225)) by (nonlinear_arith);
            3261166739
        },
        226 => {
            assert(reaches(3293138759, 226) && !reaches(3293138758, 226)) by (nonlinear_arith);
            3293138759
        },
        227 => {
            assert(reaches(3325280995, 227) && !reaches(3325280994, 227)) by (nonlinear_arith);
            3325280995
        },
        228 => {
            assert(reaches(3357593595, 228) && !reaches(3357593594, 228)) by (nonlinear_arith);
            3357593595
        },
        229 => {
            assert(reaches(3390076710, 229) && !reaches(3390076709, 229)) by (nonlinear_arith);
            3390076710
        },
        230 => {
            assert(reaches(3422730490, 230) && !reaches(3422730489, 230)) by (nonlinear_arith);
            3422730490
        },
        231 => {
            assert(reaches(3455555082, 231) && !reaches(3455555081, 231)) by (nonlinear_arith);
            3455555082
        },
        232 => {
            assert(reaches(3488550636, 232) && !reaches(3488550635, 232)) by (nonlinear_arith);
            3488550636
        },
        233 => {
            assert(reaches(3521717299, 233) && !reaches(3521717298, 233)) by (nonlinear_arith);
            3521717299
        },
        234 => {
            assert(reaches(3555055218, 234) && !reaches(3555055217, 234)) by (nonlinear_arith);
            3555055218
        },
        235 => {
            assert(reaches(3588564540, 235) && !reaches(3588564539, 235)) by (nonlinear_arith);
            3588564540
        },
        236 => {
            assert(reaches(3622245411, 236) && !reaches(3622245410, 236)) by (nonlinear_arith);
            3622245411
        },
        237 => {
            assert(reaches(3656097977, 237) && !reaches(3656097976, 237)) by (nonlinear_arith);
            3656097977
        },
        238 => {
            assert(reaches(3690122384, 238) && !reaches(3690122383, 238)) by (nonlinear_arith);
            3690122384
        },
        239 => {
            assert(reaches(3724318775, 239) && !reaches(3724318774, 239)) by (nonlinear_arith);
            3724318775
        },
        240 => {
            assert(reaches(3758687296, 240) && !reaches(3758687295, 240)) by (nonlinear_arith);
            3758687296
        },
        241 => {
            assert(reaches(3793228090, 241) && !reaches(3793228089, 241)) by (nonlinear_arith);
            3793228090
        },
        242 => {
            assert(reaches(3827941301, 242) && !reaches(3827941300, 242)) by (nonlinear_arith);
            3827941301
        },
        243 => {
            assert(reaches(3862827071, 243) && !reaches(3862827070, 243)) by (nonlinear_arith);
            3862827071
        },
        244 => {
            assert(reaches(3897885542, 244) && !reaches(3897885541, 244)) by (nonlinear_arith);
            3897885542
        },
        245 => {
            assert(reaches(3933116857, 245) && !reaches(3933116856, 245)) by (nonlinear_arith);
            3933116857
        },
        246 => {
            assert(reaches(3968521157, 246) && !reaches(3968521156, 246)) by (nonlinear_arith);
            3968521157
        },
        247 => {
            assert(reaches(4004098583, 247) && !reaches(4004098582, 247)) by (nonlinear_arith);
            4004098583
        },
        248 => {
            assert(reaches(4039849276, 248) && !reaches(4039849275, 248)) by (nonlinear_arith);
            4039849276
        },
        249 => {
            assert(reaches(4075773375, 249) && !reaches(4075773374, 249)) by (nonlinear_arith);
            4075773375
        },
        250 => {
            assert(reaches(4111871020, 250) && !reaches(4111871019, 250)) by (nonlinear_arith);
            4111871020
        },
        251 => {
            assert(reaches(4148142351, 251) && !reaches(4148142350, 251)) by (nonlinear_arith);
            4148142351
        },
        252 => {
            assert(reaches(4184587506, 252) && !reaches(4184587505, 252)) by (nonlinear_arith);
            4184587506
        },
        253 => {
            assert(reaches(4221206624, 253) && !reaches(4221206623, 253)) by (nonlinear_arith);
            4221206624
        },
        254 => {
            assert(reaches(4257999841, 254) && !reaches(4257999840, 254)) by (nonlinear_arith);
            4257999841
        },
        255 => {
            assert(reaches(4294967296, 255) && !reaches(4294967295, 255)) by (nonlinear_arith);
            4294967296
        },
    }
}

/// The display level of a channel: the channel clamped to `[0, 1]`, raised to
/// the power `5 / 11`, scaled to `255` and rounded down.
pub fn encode(c: Scalar) -> (r: u8)
    ensures
        r as int == gamma_level(c.raw as int),
{
    let v: u64 = if c.raw < 0 {
        0
    } else if c.raw > ONE_RAW {
        ONE_RAW as u64
    } else {
        c.raw as u64
    };
    let mut lo: u16 = 0;
    let mut hi: u16 = 256;
    proof {
        lemma_reaches_zero(v as int);
    }
    while hi - lo > 1
        invariant
            0 <= lo < hi <= 256,
            v as int == unit_clamp(c.raw as int),
            reaches(v as int, lo as int),
            hi <= 255 ==> !reaches(v as int, hi as int),
        decreases hi - lo,
    {
        let mid: u16 = (lo + hi) / 2;
        let t: u64 = threshold(mid as u8);
        if v >= t {
            proof {
                lemma_reaches_brighter(t as int, v as int, mid as int);
            }
            lo = mid;
        } else {
            proof {
                if reaches(v as int, mid as int) {
                    lemma_reaches_brighter(v as int, t - 1, mid as int);
                }
            }
            hi = mid;
        }
    }
    proof {
        lemma_level_found(v as int, lo as int, 255);
    }
    lo as u8
}

} // verus!
