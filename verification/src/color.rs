use vstd::prelude::*;

verus! {

/// An 8-bit-per-channel RGB color, as written in scene files and images.
#[derive(Debug, Clone, Copy, PartialEq, Eq, Structural)]
pub struct ColorU8 {
    pub red: u8,
    pub green: u8,
    pub blue: u8,
}

/// Number of entries of the gamma lookup table.
pub const GAMMA_LUT_LEN: usize = 4096;

/// `x` raised to the fifth power.
pub open spec fn pow5(x: int) -> int {
    x * x * x * x * x
}

/// `x` raised to the eleventh power.
pub open spec fn pow11(x: int) -> int {
    x * x * x * x * x * x * x * x * x * x * x
}

/// Whether the output byte `k` does not exceed the gamma-encoded value of table entry `i`:
/// `k / 255.99 <= (i / 4095) ^ (1 / 2.2)`, stated exactly over the integers by raising
/// both sides to the eleventh power (`2.2 = 11 / 5`).
pub open spec fn gamma_holds(i: int, k: int) -> bool {
    pow11(100 * k) * pow5(4095) <= pow11(25599) * pow5(i)
}

proof fn lemma_pow5_monotone(a: int, b: int)
    requires
        0 <= a <= b,
    ensures
        pow5(a) <= pow5(b),
{
    assert(a * a <= b * b) by (nonlinear_arith)
        requires
            0 <= a <= b,
    ;
    assert(a * a * a <= b * b * b) by (nonlinear_arith)
        requires
            0 <= a <= b,
            a * a <= b * b,
    ;
    assert(a * a * a * a <= b * b * b * b) by (nonlinear_arith)
        requires
            0 <= a <= b,
            a * a * a <= b * b * b,
    ;
    assert(a * a * a * a * a <= b * b * b * b * b) by (nonlinear_arith)
        requires
            0 <= a <= b,
            a * a * a * a <= b * b * b * b,
    ;
}

proof fn lemma_pow11_monotone(a: int, b: int)
    requires
        0 <= a <= b,
    ensures
        pow11(a) <= pow11(b),
{
    lemma_pow5_monotone(a, b);
    assert(pow5(a) * pow5(a) <= pow5(b) * pow5(b)) by (nonlinear_arith)
        requires
            0 <= pow5(a) <= pow5(b),
    {
    }
    assert(pow5(a) * pow5(a) * a <= pow5(b) * pow5(b) * b) by (nonlinear_arith)
        requires
            0 <= pow5(a) * pow5(a) <= pow5(b) * pow5(b),
            0 <= a <= b,
    {
    }
    assert(pow11(a) == pow5(a) * pow5(a) * a) by (nonlinear_arith);
    assert(pow11(b) == pow5(b) * pow5(b) * b) by (nonlinear_arith);
}

proof fn lemma_pow5_nonneg(a: int)
    requires
        0 <= a,
    ensures
        0 <= pow5(a),
{
    lemma_pow5_monotone(0, a);
}

/// The byte `k` is the gamma-encoded value of table entry `i`: it is admitted, and the
/// next byte is not.
pub open spec fn gamma_entry(i: int, k: int) -> bool {
    gamma_holds(i, k) && (k < 255 ==> !gamma_holds(i, k + 1))
}

/// A larger table entry keeps every byte that a smaller one admits.
proof fn lemma_gamma_holds_in_entry(i: int, j: int, k: int)
    requires
        0 <= i <= j,
        gamma_holds(i, k),
    ensures
        gamma_holds(j, k),
{
    lemma_pow5_monotone(i, j);
    let c = pow11(25599);
    assert(c * pow5(i) <= c * pow5(j)) by (nonlinear_arith)
        requires
            pow5(i) <= pow5(j),
            c == pow11(25599),
            c >= 0,
    ;
}

/// A smaller byte is admitted wherever a larger one is.
pub proof fn lemma_gamma_holds_downward(i: int, k: int, m: int)
    requires
        0 <= m <= k,
        gamma_holds(i, k),
    ensures
        gamma_holds(i, m),
{
    lemma_pow11_monotone(100 * m, 100 * k);
    lemma_pow5_nonneg(4095);
    let c = pow5(4095);
    assert(pow11(100 * m) * c <= pow11(100 * k) * c) by (nonlinear_arith)
        requires
            pow11(100 * m) <= pow11(100 * k),
            c >= 0,
    ;
}

/// The gamma table never falls: the byte of a later entry is at least the byte of an
/// earlier one.
pub proof fn law_gamma_entries_rise(i: int, j: int, k: int, m: int)
    requires
        0 <= i <= j,
        0 <= m <= 255,
        0 <= k <= 255,
        gamma_entry(i, k),
        gamma_entry(j, m),
    ensures
        k <= m,
{
    lemma_gamma_holds_in_entry(i, j, k);
    if k > m {
        lemma_gamma_holds_downward(j, k, m + 1);
    }
}

/// The byte that table entry `i` would get without gamma encoding:
/// `floor(255.99 * i / 4095)`.
pub open spec fn linear_byte(i: int) -> int {
    25599 * i / 409500
}

proof fn lemma_pow5_of_product(a: int, b: int)
    ensures
        pow5(a * b) == pow5(a) * pow5(b),
{
    assert(pow5(a * b) == pow5(a) * pow5(b)) by (nonlinear_arith);
}

/// The table entry `i` admits its linear byte.
proof fn lemma_gamma_holds_linear(i: int)
    requires
        0 <= i <= 4095,
    ensures
        0 <= linear_byte(i) <= 255,
        gamma_holds(i, linear_byte(i)),
{
    let k0 = linear_byte(i);
    let a = 100 * k0;
    let c = 25599int;
    let n = 4095int;
    assert(k0 * 409500 <= 25599 * i);
    assert(0 <= k0 <= 255);
    assert(a * n <= c * i);
    assert(0 <= a <= c);
    assert(0 <= a * n) by (nonlinear_arith)
        requires
            0 <= a,
            n == 4095,
    ;
    lemma_pow5_monotone(a * n, c * i);
    lemma_pow5_of_product(a, n);
    lemma_pow5_of_product(c, i);
    lemma_pow5_monotone(a, c);
    lemma_pow5_nonneg(a);
    lemma_pow5_nonneg(n);
    lemma_pow5_nonneg(i);
    let x = pow5(a) * pow5(n);
    let x2 = pow5(c) * pow5(i);
    let y = pow5(a) * a;
    let y2 = pow5(c) * c;
    assert(0 <= x) by (nonlinear_arith)
        requires
            0 <= pow5(a),
            0 <= pow5(n),
            x == pow5(a) * pow5(n),
    ;
    assert(0 <= y <= y2) by (nonlinear_arith)
        requires
            0 <= pow5(a) <= pow5(c),
            0 <= a <= c,
            y == pow5(a) * a,
            y2 == pow5(c) * c,
    ;
    assert(x * y <= x2 * y2) by (nonlinear_arith)
        requires
            0 <= x <= x2,
            0 <= y <= y2,
    ;
    assert(pow11(a) * pow5(n) == x * y) by (nonlinear_arith)
        requires
            x == pow5(a) * pow5(n),
            y == pow5(a) * a,
    ;
    assert(pow11(c) * pow5(i) == x2 * y2) by (nonlinear_arith)
        requires
            x2 == pow5(c) * pow5(i),
            y2 == pow5(c) * c,
    ;
}

/// Gamma encoding never darkens: every byte of the table is at least the byte that its entry
/// would get without gamma encoding.
pub proof fn law_gamma_never_darkens(i: int, k: int)
    requires
        0 <= i < GAMMA_LUT_LEN,
        0 <= k <= 255,
        gamma_entry(i, k),
    ensures
        linear_byte(i) <= k,
{
    lemma_gamma_holds_linear(i);
    if k < linear_byte(i) {
        lemma_gamma_holds_downward(i, linear_byte(i), k + 1);
    }
}

/// The least table entry whose gamma-encoded value reaches the byte `k`.
fn gamma_threshold(k: u8) -> (t: u16)
    ensures
        t < GAMMA_LUT_LEN,
        gamma_holds(t as int, k as int),
        t == 0 || !gamma_holds(t - 1, k as int),
{
    proof {
        assert(gamma_holds(0, 0)) by (nonlinear_arith);
    }
    match k {
            0 => 0,
            1 => {
                assert(gamma_holds(1, 1)) by (nonlinear_arith);
                assert(!gamma_holds(0, 1)) by (nonlinear_arith);
                1
            },
            2 => {
                assert(gamma_holds(1, 2)) by (nonlinear_arith);
                assert(!gamma_holds(0, 2)) by (nonlinear_arith);
                1
            },
            3 => {
                assert(gamma_holds(1, 3)) by (nonlinear_arith);
                assert(!gamma_holds(0, 3)) by (nonlinear_arith);
                1
            },
            4 => {
                assert(gamma_holds(1, 4)) by (nonlinear_arith);
                assert(!gamma_holds(0, 4)) by (nonlinear_arith);
                1
            },
            5 => {
                assert(gamma_holds(1, 5)) by (nonlinear_arith);
                assert(!gamma_holds(0, 5)) by (nonlinear_arith);
                1
            },
            6 => {
                assert(gamma_holds(2, 6)) by (nonlinear_arith);
                assert(!gamma_holds(1, 6)) by (nonlinear_arith);
                2
            },
            7 => {
                assert(gamma_holds(2, 7)) by (nonlinear_arith);
                assert(!gamma_holds(1, 7)) by (nonlinear_arith);
                2
            },
            8 => {
                assert(gamma_holds(2, 8)) by (nonlinear_arith);
                assert(!gamma_holds(1, 8)) by (nonlinear_arith);
                2
            },
            9 => {
                assert(gamma_holds(3, 9)) by (nonlinear_arith);
                assert(!gamma_holds(2, 9)) by (nonlinear_arith);
                3
            },
            10 => {
                assert(gamma_holds(4, 10)) by (nonlinear_arith);
                assert(!gamma_holds(3, 10)) by (nonlinear_arith);
                4
            },
            11 => {
                assert(gamma_holds(5, 11)) by (nonlinear_arith);
                assert(!gamma_holds(4, 11)) by (nonlinear_arith);
                5
            },
            12 => {
                assert(gamma_holds(5, 12)) by (nonlinear_arith);
                assert(!gamma_holds(4, 12)) by (nonlinear_arith);
                5
            },
            13 => {
                assert(gamma_holds(6, 13)) by (nonlinear_arith);
                assert(!gamma_holds(5, 13)) by (nonlinear_arith);
                6
            },
            14 => {
                assert(gamma_holds(7, 14)) by (nonlinear_arith);
                assert(!gamma_holds(6, 14)) by (nonlinear_arith);
                7
            },
            15 => {
                assert(gamma_holds(8, 15)) by (nonlinear_arith);
                assert(!gamma_holds(7, 15)) by (nonlinear_arith);
                8
            },
            16 => {
                assert(gamma_holds(10, 16)) by (nonlinear_arith);
                assert(!gamma_holds(9, 16)) by (nonlinear_arith);
                10
            },
            17 => {
                assert(gamma_holds(11, 17)) by (nonlinear_arith);
                assert(!gamma_holds(10, 17)) by (nonlinear_arith);
                11
            },
            18 => {
                assert(gamma_holds(12, 18)) by (nonlinear_arith);
                assert(!gamma_holds(11, 18)) by (nonlinear_arith);
                12
            },
            19 => {
                assert(gamma_holds(14, 19)) by (nonlinear_arith);
                assert(!gamma_holds(13, 19)) by (nonlinear_arith);
                14
            },
            20 => {
                assert(gamma_holds(16, 20)) by (nonlinear_arith);
                assert(!gamma_holds(15, 20)) by (nonlinear_arith);
                16
            },
            21 => {
                assert(gamma_holds(17, 21)) by (nonlinear_arith);
                assert(!gamma_holds(16, 21)) by (nonlinear_arith);
                17
            },
            22 => {
                assert(gamma_holds(19, 22)) by (nonlinear_arith);
                assert(!gamma_holds(18, 22)) by (nonlinear_arith);
                19
            },
            23 => {
                assert(gamma_holds(21, 23)) by (nonlinear_arith);
                assert(!gamma_holds(20, 23)) by (nonlinear_arith);
                21
            },
            24 => {
                assert(gamma_holds(23, 24)) by (nonlinear_arith);
                assert(!gamma_holds(22, 24)) by (nonlinear_arith);
                23
            },
            25 => {
                assert(gamma_holds(25, 25)) by (nonlinear_arith);
                assert(!gamma_holds(24, 25)) by (nonlinear_arith);
                25
            },
            26 => {
                assert(gamma_holds(27, 26)) by (nonlinear_arith);
                assert(!gamma_holds(26, 26)) by (nonlinear_arith);
                27
            },
            27 => {
                assert(gamma_holds(30, 27)) by (nonlinear_arith);
                assert(!gamma_holds(29, 27)) by (nonlinear_arith);
                30
            },
            28 => {
                assert(gamma_holds(32, 28)) by (nonlinear_arith);
                assert(!gamma_holds(31, 28)) by (nonlinear_arith);
                32
            },
            29 => {
                assert(gamma_holds(34, 29)) by (nonlinear_arith);
                assert(!gamma_holds(33, 29)) by (nonlinear_arith);
                34
            },
            30 => {
                assert(gamma_holds(37, 30)) by (nonlinear_arith);
                assert(!gamma_holds(36, 30)) by (nonlinear_arith);
                37
            },
            31 => {
                assert(gamma_holds(40, 31)) by (nonlinear_arith);
                assert(!gamma_holds(39, 31)) by (nonlinear_arith);
                40
            },
            32 => {
                assert(gamma_holds(43, 32)) by (nonlinear_arith);
                assert(!gamma_holds(42, 32)) by (nonlinear_arith);
                43
            },
            33 => {
                assert(gamma_holds(46, 33)) by (nonlinear_arith);
                assert(!gamma_holds(45, 33)) by (nonlinear_arith);
                46
            },
            34 => {
                assert(gamma_holds(49, 34)) by (nonlinear_arith);
                assert(!gamma_holds(48, 34)) by (nonlinear_arith);
                49
            },
            35 => {
                assert(gamma_holds(52, 35)) by (nonlinear_arith);
                assert(!gamma_holds(51, 35)) by (nonlinear_arith);
                52
            },
            36 => {
                assert(gamma_holds(55, 36)) by (nonlinear_arith);
                assert(!gamma_holds(54, 36)) by (nonlinear_arith);
                55
            },
            37 => {
                assert(gamma_holds(59, 37)) by (nonlinear_arith);
                assert(!gamma_holds(58, 37)) by (nonlinear_arith);
                59
            },
            38 => {
                assert(gamma_holds(62, 38)) by (nonlinear_arith);
                assert(!gamma_holds(61, 38)) by (nonlinear_arith);
                62
            },
            39 => {
                assert(gamma_holds(66, 39)) by (nonlinear_arith);
                assert(!gamma_holds(65, 39)) by (nonlinear_arith);
                66
            },
            40 => {
                assert(gamma_holds(69, 40)) by (nonlinear_arith);
                assert(!gamma_holds(68, 40)) by (nonlinear_arith);
                69
            },
            41 => {
                assert(gamma_holds(73, 41)) by (nonlinear_arith);
                assert(!gamma_holds(72, 41)) by (nonlinear_arith);
                73
            },
            42 => {
                assert(gamma_holds(77, 42)) by (nonlinear_arith);
                assert(!gamma_holds(76, 42)) by (nonlinear_arith);
                77
            },
            43 => {
                assert(gamma_holds(81, 43)) by (nonlinear_arith);
                assert(!gamma_holds(80, 43)) by (nonlinear_arith);
                81
            },
            44 => {
                assert(gamma_holds(86, 44)) by (nonlinear_arith);
                assert(!gamma_holds(85, 44)) by (nonlinear_arith);
                86
            },
            45 => {
                assert(gamma_holds(90, 45)) by (nonlinear_arith);
                assert(!gamma_holds(89, 45)) by (nonlinear_arith);
                90
            },
            46 => {
                assert(gamma_holds(94, 46)) by (nonlinear_arith);
                assert(!gamma_holds(93, 46)) by (nonlinear_arith);
                94
            },
            47 => {
                assert(gamma_holds(99, 47)) by (nonlinear_arith);
                assert(!gamma_holds(98, 47)) by (nonlinear_arith);
                99
            },
            48 => {
                assert(gamma_holds(104, 48)) by (nonlinear_arith);
                assert(!gamma_holds(103, 48)) by (nonlinear_arith);
                104
            },
            49 => {
                assert(gamma_holds(108, 49)) by (nonlinear_arith);
                assert(!gamma_holds(107, 49)) by (nonlinear_arith);
                108
            },
            50 => {
                assert(gamma_holds(113, 50)) by (nonlinear_arith);
                assert(!gamma_holds(112, 50)) by (nonlinear_arith);
                113
            },
            51 => {
                assert(gamma_holds(118, 51)) by (nonlinear_arith);
                assert(!gamma_holds(117, 51)) by (nonlinear_arith);
                118
            },
            52 => {
                assert(gamma_holds(123, 52)) by (nonlinear_arith);
                assert(!gamma_holds(122, 52)) by (nonlinear_arith);
                123
            },
            53 => {
                assert(gamma_holds(129, 53)) by (nonlinear_arith);
                assert(!gamma_holds(128, 53)) by (nonlinear_arith);
                129
            },
            54 => {
                assert(gamma_holds(134, 54)) by (nonlinear_arith);
                assert(!gamma_holds(133, 54)) by (nonlinear_arith);
                134
            },
            55 => {
                assert(gamma_holds(139, 55)) by (nonlinear_arith);
                assert(!gamma_holds(138, 55)) by (nonlinear_arith);
                139
            },
            56 => {
                assert(gamma_holds(145, 56)) by (nonlinear_arith);
                assert(!gamma_holds(144, 56)) by (nonlinear_arith);
                145
            },
            57 => {
                assert(gamma_holds(151, 57)) by (nonlinear_arith);
                assert(!gamma_holds(150, 57)) by (nonlinear_arith);
                151
            },
            58 => {
                assert(gamma_holds(157, 58)) by (nonlinear_arith);
                assert(!gamma_holds(156, 58)) by (nonlinear_arith);
                157
            },
            59 => {
                assert(gamma_holds(163, 59)) by (nonlinear_arith);
                assert(!gamma_holds(162, 59)) by (nonlinear_arith);
                163
            },
            60 => {
                assert(gamma_holds(169, 60)) by (nonlinear_arith);
                assert(!gamma_holds(168, 60)) by (nonlinear_arith);
                169
            },
            61 => {
                assert(gamma_holds(175, 61)) by (nonlinear_arith);
                assert(!gamma_holds(174, 61)) by (nonlinear_arith);
                175
            },
            62 => {
                assert(gamma_holds(181, 62)) by (nonlinear_arith);
                assert(!gamma_holds(180, 62)) by (nonlinear_arith);
                181
            },
            63 => {
                assert(gamma_holds(188, 63)) by (nonlinear_arith);
                assert(!gamma_holds(187, 63)) by (nonlinear_arith);
                188
            },
            64 => {
                assert(gamma_holds(194, 64)) by (nonlinear_arith);
                assert(!gamma_holds(193, 64)) by (nonlinear_arith);
                194
            },
            65 => {
                assert(gamma_holds(201, 65)) by (nonlinear_arith);
                assert(!gamma_holds(200, 65)) by (nonlinear_arith);
                201
            },
            66 => {
                assert(gamma_holds(208, 66)) by (nonlinear_arith);
                assert(!gamma_holds(207, 66)) by (nonlinear_arith);
                208
            },
            67 => {
                assert(gamma_holds(215, 67)) by (nonlinear_arith);
                assert(!gamma_holds(214, 67)) by (nonlinear_arith);
                215
            },
            68 => {
                assert(gamma_holds(222, 68)) by (nonlinear_arith);
                assert(!gamma_holds(221, 68)) by (nonlinear_arith);
                222
            },
            69 => {
                assert(gamma_holds(229, 69)) by (nonlinear_arith);
                assert(!gamma_holds(228, 69)) by (nonlinear_arith);
                229
            },
            70 => {
                assert(gamma_holds(237, 70)) by (nonlinear_arith);
                assert(!gamma_holds(236, 70)) by (nonlinear_arith);
                237
            },
            71 => {
                assert(gamma_holds(244, 71)) by (nonlinear_arith);
                assert(!gamma_holds(243, 71)) by (nonlinear_arith);
                244
            },
            72 => {
                assert(gamma_holds(252, 72)) by (nonlinear_arith);
                assert(!gamma_holds(251, 72)) by (nonlinear_arith);
                252
            },
            73 => {
                assert(gamma_holds(260, 73)) by (nonlinear_arith);
                assert(!gamma_holds(259, 73)) by (nonlinear_arith);
                260
            },
            74 => {
                assert(gamma_holds(267, 74)) by (nonlinear_arith);
                assert(!gamma_holds(266, 74)) by (nonlinear_arith);
                267
            },
            75 => {
                assert(gamma_holds(275, 75)) by (nonlinear_arith);
                assert(!gamma_holds(274, 75)) by (nonlinear_arith);
                275
            },
            76 => {
                assert(gamma_holds(284, 76)) by (nonlinear_arith);
                assert(!gamma_holds(283, 76)) by (nonlinear_arith);
                284
            },
            77 => {
                assert(gamma_holds(292, 77)) by (nonlinear_arith);
                assert(!gamma_holds(291, 77)) by (nonlinear_arith);
                292
            },
            78 => {
                assert(gamma_holds(300, 78)) by (nonlinear_arith);
                assert(!gamma_holds(299, 78)) by (nonlinear_arith);
                300
            },
            79 => {
                assert(gamma_holds(309, 79)) by (nonlinear_arith);
                assert(!gamma_holds(308, 79)) by (nonlinear_arith);
                309
            },
            80 => {
                assert(gamma_holds(317, 80)) by (nonlinear_arith);
                assert(!gamma_holds(316, 80)) by (nonlinear_arith);
                317
            },
            81 => {
                assert(gamma_holds(326, 81)) by (nonlinear_arith);
                assert(!gamma_holds(325, 81)) by (nonlinear_arith);
                326
            },
            82 => {
                assert(gamma_holds(335, 82)) by (nonlinear_arith);
                assert(!gamma_holds(334, 82)) by (nonlinear_arith);
                335
            },
            83 => {
                assert(gamma_holds(344, 83)) by (nonlinear_arith);
                assert(!gamma_holds(343, 83)) by (nonlinear_arith);
                344
            },
            84 => {
                assert(gamma_holds(353, 84)) by (nonlinear_arith);
                assert(!gamma_holds(352, 84)) by (nonlinear_arith);
                353
            },
            85 => {
                assert(gamma_holds(363, 85)) by (nonlinear_arith);
                assert(!gamma_holds(362, 85)) by (nonlinear_arith);
                363
            },
            86 => {
                assert(gamma_holds(372, 86)) by (nonlinear_arith);
                assert(!gamma_holds(371, 86)) by (nonlinear_arith);
                372
            },
            87 => {
                assert(gamma_holds(382, 87)) by (nonlinear_arith);
                assert(!gamma_holds(381, 87)) by (nonlinear_arith);
                382
            },
            88 => {
                assert(gamma_holds(391, 88)) by (nonlinear_arith);
                assert(!gamma_holds(390, 88)) by (nonlinear_arith);
                391
            },
            89 => {
                assert(gamma_holds(401, 89)) by (nonlinear_arith);
                assert(!gamma_holds(400, 89)) by (nonlinear_arith);
                401
            },
            90 => {
                assert(gamma_holds(411, 90)) by (nonlinear_arith);
                assert(!gamma_holds(410, 90)) by (nonlinear_arith);
                411
            },
            91 => {
                assert(gamma_holds(421, 91)) by (nonlinear_arith);
                assert(!gamma_holds(420, 91)) by (nonlinear_arith);
                421
            },
            92 => {
                assert(gamma_holds(432, 92)) by (nonlinear_arith);
                assert(!gamma_holds(431, 92)) by (nonlinear_arith);
                432
            },
            93 => {
                assert(gamma_holds(442, 93)) by (nonlinear_arith);
                assert(!gamma_holds(441, 93)) by (nonlinear_arith);
                442
            },
            94 => {
                assert(gamma_holds(452, 94)) by (nonlinear_arith);
                assert(!gamma_holds(451, 94)) by (nonlinear_arith);
                452
            },
            95 => {
                assert(gamma_holds(463, 95)) by (nonlinear_arith);
                assert(!gamma_holds(462, 95)) by (nonlinear_arith);
                463
            },
            96 => {
                assert(gamma_holds(474, 96)) by (nonlinear_arith);
                assert(!gamma_holds(473, 96)) by (nonlinear_arith);
                474
            },
            97 => {
                assert(gamma_holds(485, 97)) by (nonlinear_arith);
                assert(!gamma_holds(484, 97)) by (nonlinear_arith);
                485
            },
            98 => {
                assert(gamma_holds(496, 98)) by (nonlinear_arith);
                assert(!gamma_holds(495, 98)) by (nonlinear_arith);
                496
            },
            99 => {
                assert(gamma_holds(507, 99)) by (nonlinear_arith);
                assert(!gamma_holds(506, 99)) by (nonlinear_arith);
                507
            },
            100 => {
                assert(gamma_holds(518, 100)) by (nonlinear_arith);
                assert(!gamma_holds(517, 100)) by (nonlinear_arith);
                518
            },
            101 => {
                assert(gamma_holds(530, 101)) by (nonlinear_arith);
                assert(!gamma_holds(529, 101)) by (nonlinear_arith);
                530
            },
            102 => {
                assert(gamma_holds(541, 102)) by (nonlinear_arith);
                assert(!gamma_holds(540, 102)) by (nonlinear_arith);
                541
            },
            103 => {
                assert(gamma_holds(553, 103)) by (nonlinear_arith);
                assert(!gamma_holds(552, 103)) by (nonlinear_arith);
                553
            },
            104 => {
                assert(gamma_holds(565, 104)) by (nonlinear_arith);
                assert(!gamma_holds(564, 104)) by (nonlinear_arith);
                565
            },
            105 => {
                assert(gamma_holds(577, 105)) by (nonlinear_arith);
                assert(!gamma_holds(576, 105)) by (nonlinear_arith);
                577
            },
            106 => {
                assert(gamma_holds(589, 106)) by (nonlinear_arith);
                assert(!gamma_holds(588, 106)) by (nonlinear_arith);
                589
            },
            107 => {
                assert(gamma_holds(601, 107)) by (nonlinear_arith);
                assert(!gamma_holds(600, 107)) by (nonlinear_arith);
                601
            },
            108 => {
                assert(gamma_holds(614, 108)) by (nonlinear_arith);
                assert(!gamma_holds(613, 108)) by (nonlinear_arith);
                614
            },
            109 => {
                assert(gamma_holds(626, 109)) by (nonlinear_arith);
                assert(!gamma_holds(625, 109)) by (nonlinear_arith);
                626
            },
            110 => {
                assert(gamma_holds(639, 110)) by (nonlinear_arith);
                assert(!gamma_holds(638, 110)) by (nonlinear_arith);
                639
            },
            111 => {
                assert(gamma_holds(652, 111)) by (nonlinear_arith);
                assert(!gamma_holds(651, 111)) by (nonlinear_arith);
                652
            },
            112 => {
                assert(gamma_holds(665, 112)) by (nonlinear_arith);
                assert(!gamma_holds(664, 112)) by (nonlinear_arith);
                665
            },
            113 => {
                assert(gamma_holds(678, 113)) by (nonlinear_arith);
                assert(!gamma_holds(677, 113)) by (nonlinear_arith);
                678
            },
            114 => {
                assert(gamma_holds(691, 114)) by (nonlinear_arith);
                assert(!gamma_holds(690, 114)) by (nonlinear_arith);
                691
            },
            115 => {
                assert(gamma_holds(705, 115)) by (nonlinear_arith);
                assert(!gamma_holds(704, 115)) by (nonlinear_arith);
                705
            },
            116 => {
                assert(gamma_holds(718, 116)) by (nonlinear_arith);
                assert(!gamma_holds(717, 116)) by (nonlinear_arith);
                718
            },
            117 => {
                assert(gamma_holds(732, 117)) by (nonlinear_arith);
                assert(!gamma_holds(731, 117)) by (nonlinear_arith);
                732
            },
            118 => {
                assert(gamma_holds(746, 118)) by (nonlinear_arith);
                assert(!gamma_holds(745, 118)) by (nonlinear_arith);
                746
            },
            119 => {
                assert(gamma_holds(760, 119)) by (nonlinear_arith);
                assert(!gamma_holds(759, 119)) by (nonlinear_arith);
                760
            },
            120 => {
                assert(gamma_holds(774, 120)) by (nonlinear_arith);
                assert(!gamma_holds(773, 120)) by (nonlinear_arith);
                774
            },
            121 => {
                assert(gamma_holds(788, 121)) by (nonlinear_arith);
                assert(!gamma_holds(787, 121)) by (nonlinear_arith);
                788
            },
            122 => {
                assert(gamma_holds(802, 122)) by (nonlinear_arith);
                assert(!gamma_holds(801, 122)) by (nonlinear_arith);
                802
            },
            123 => {
                assert(gamma_holds(817, 123)) by (nonlinear_arith);
                assert(!gamma_holds(816, 123)) by (nonlinear_arith);
                817
            },
            124 => {
                assert(gamma_holds(832, 124)) by (nonlinear_arith);
                assert(!gamma_holds(831, 124)) by (nonlinear_arith);
                832
            },
            125 => {
                assert(gamma_holds(846, 125)) by (nonlinear_arith);
                assert(!gamma_holds(845, 125)) by (nonlinear_arith);
                846
            },
            126 => {
                assert(gamma_holds(861, 126)) by (nonlinear_arith);
                assert(!gamma_holds(860, 126)) by (nonlinear_arith);
                861
            },
            127 => {
                assert(gamma_holds(877, 127)) by (nonlinear_arith);
                assert(!gamma_holds(876, 127)) by (nonlinear_arith);
                877
            },
            128 => {
                assert(gamma_holds(892, 128)) by (nonlinear_arith);
                assert(!gamma_holds(891, 128)) by (nonlinear_arith);
                892
            },
            129 => {
                assert(gamma_holds(907, 129)) by (nonlinear_arith);
                assert(!gamma_holds(906, 129)) by (nonlinear_arith);
                907
            },
            130 => {
                assert(gamma_holds(923, 130)) by (nonlinear_arith);
                assert(!gamma_holds(922, 130)) by (nonlinear_arith);
                923
            },
            131 => {
                assert(gamma_holds(938, 131)) by (nonlinear_arith);
                assert(!gamma_holds(937, 131)) by (nonlinear_arith);
                938
            },
            132 => {
                assert(gamma_holds(954, 132)) by (nonlinear_arith);
                assert(!gamma_holds(953, 132)) by (nonlinear_arith);
                954
            },
            133 => {
                assert(gamma_holds(970, 133)) by (nonlinear_arith);
                assert(!gamma_holds(969, 133)) by (nonlinear_arith);
                970
            },
            134 => {
                assert(gamma_holds(986, 134)) by (nonlinear_arith);
                assert(!gamma_holds(985, 134)) by (nonlinear_arith);
                986
            },
            135 => {
                assert(gamma_holds(1003, 135)) by (nonlinear_arith);
                assert(!gamma_holds(1002, 135)) by (nonlinear_arith);
                1003
            },
            136 => {
                assert(gamma_holds(1019, 136)) by (nonlinear_arith);
                assert(!gamma_holds(1018, 136)) by (nonlinear_arith);
                1019
            },
            137 => {
                assert(gamma_holds(1036, 137)) by (nonlinear_arith);
                assert(!gamma_holds(1035, 137)) by (nonlinear_arith);
                1036
            },
            138 => {
                assert(gamma_holds(1052, 138)) by (nonlinear_arith);
                assert(!gamma_holds(1051, 138)) by (nonlinear_arith);
                1052
            },
            139 => {
                assert(gamma_holds(1069, 139)) by (nonlinear_arith);
                assert(!gamma_holds(1068, 139)) by (nonlinear_arith);
                1069
            },
            140 => {
                assert(gamma_holds(1086, 140)) by (nonlinear_arith);
                assert(!gamma_holds(1085, 140)) by (nonlinear_arith);
                1086
            },
            141 => {
                assert(gamma_holds(1103, 141)) by (nonlinear_arith);
                assert(!gamma_holds(1102, 141)) by (nonlinear_arith);
                1103
            },
            142 => {
                assert(gamma_holds(1120, 142)) by (nonlinear_arith);
                assert(!gamma_holds(1119, 142)) by (nonlinear_arith);
                1120
            },
            143 => {
                assert(gamma_holds(1138, 143)) by (nonlinear_arith);
                assert(!gamma_holds(1137, 143)) by (nonlinear_arith);
                1138
            },
            144 => {
                assert(gamma_holds(1155, 144)) by (nonlinear_arith);
                assert(!gamma_holds(1154, 144)) by (nonlinear_arith);
                1155
            },
            145 => {
                assert(gamma_holds(1173, 145)) by (nonlinear_arith);
                assert(!gamma_holds(1172, 145)) by (nonlinear_arith);
                1173
            },
            146 => {
                assert(gamma_holds(1191, 146)) by (nonlinear_arith);
                assert(!gamma_holds(1190, 146)) by (nonlinear_arith);
                1191
            },
            147 => {
                assert(gamma_holds(1209, 147)) by (nonlinear_arith);
                assert(!gamma_holds(1208, 147)) by (nonlinear_arith);
                1209
            },
            148 => {
                assert(gamma_holds(1227, 148)) by (nonlinear_arith);
                assert(!gamma_holds(1226, 148)) by (nonlinear_arith);
                1227
            },
            149 => {
                assert(gamma_holds(1246, 149)) by (nonlinear_arith);
                assert(!gamma_holds(1245, 149)) by (nonlinear_arith);
                1246
            },
            150 => {
                assert(gamma_holds(1264, 150)) by (nonlinear_arith);
                assert(!gamma_holds(1263, 150)) by (nonlinear_arith);
                1264
            },
            151 => {
                assert(gamma_holds(1283, 151)) by (nonlinear_arith);
                assert(!gamma_holds(1282, 151)) by (nonlinear_arith);
                1283
            },
            152 => {
                assert(gamma_holds(1301, 152)) by (nonlinear_arith);
                assert(!gamma_holds(1300, 152)) by (nonlinear_arith);
                1301
            },
            153 => {
                assert(gamma_holds(1320, 153)) by (nonlinear_arith);
                assert(!gamma_holds(1319, 153)) by (nonlinear_arith);
                1320
            },
            154 => {
                assert(gamma_holds(1339, 154)) by (nonlinear_arith);
                assert(!gamma_holds(1338, 154)) by (nonlinear_arith);
                1339
            },
            155 => {
                assert(gamma_holds(1358, 155)) by (nonlinear_arith);
                assert(!gamma_holds(1357, 155)) by (nonlinear_arith);
                1358
            },
            156 => {
                assert(gamma_holds(1378, 156)) by (nonlinear_arith);
                assert(!gamma_holds(1377, 156)) by (nonlinear_arith);
                1378
            },
            157 => {
                assert(gamma_holds(1397, 157)) by (nonlinear_arith);
                assert(!gamma_holds(1396, 157)) by (nonlinear_arith);
                1397
            },
            158 => {
                assert(gamma_holds(1417, 158)) by (nonlinear_arith);
                assert(!gamma_holds(1416, 158)) by (nonlinear_arith);
                1417
            },
            159 => {
                assert(gamma_holds(1437, 159)) by (nonlinear_arith);
                assert(!gamma_holds(1436, 159)) by (nonlinear_arith);
                1437
            },
            160 => {
                assert(gamma_holds(1457, 160)) by (nonlinear_arith);
                assert(!gamma_holds(1456, 160)) by (nonlinear_arith);
                1457
            },
            161 => {
                assert(gamma_holds(1477, 161)) by (nonlinear_arith);
                assert(!gamma_holds(1476, 161)) by (nonlinear_arith);
                1477
            },
            162 => {
                assert(gamma_holds(1497, 162)) by (nonlinear_arith);
                assert(!gamma_holds(1496, 162)) by (nonlinear_arith);
                1497
            },
            163 => {
                assert(gamma_holds(1517, 163)) by (nonlinear_arith);
                assert(!gamma_holds(1516, 163)) by (nonlinear_arith);
                1517
            },
            164 => {
                assert(gamma_holds(1538, 164)) by (nonlinear_arith);
                assert(!gamma_holds(1537, 164)) by (nonlinear_arith);
                1538
            },
            165 => {
                assert(gamma_holds(1559, 165)) by (nonlinear_arith);
                assert(!gamma_holds(1558, 165)) by (nonlinear_arith);
                1559
            },
            166 => {
                assert(gamma_holds(1580, 166)) by (nonlinear_arith);
                assert(!gamma_holds(1579, 166)) by (nonlinear_arith);
                1580
            },
            167 => {
                assert(gamma_holds(1601, 167)) by (nonlinear_arith);
                assert(!gamma_holds(1600, 167)) by (nonlinear_arith);
                1601
            },
            168 => {
                assert(gamma_holds(1622, 168)) by (nonlinear_arith);
                assert(!gamma_holds(1621, 168)) by (nonlinear_arith);
                1622
            },
            169 => {
                assert(gamma_holds(1643, 169)) by (nonlinear_arith);
                assert(!gamma_holds(1642, 169)) by (nonlinear_arith);
                1643
            },
            170 => {
                assert(gamma_holds(1664, 170)) by (nonlinear_arith);
                assert(!gamma_holds(1663, 170)) by (nonlinear_arith);
                1664
            },
            171 => {
                assert(gamma_holds(1686, 171)) by (nonlinear_arith);
                assert(!gamma_holds(1685, 171)) by (nonlinear_arith);
                1686
            },
            172 => {
                assert(gamma_holds(1708, 172)) by (nonlinear_arith);
                assert(!gamma_holds(1707, 172)) by (nonlinear_arith);
                1708
            },
            173 => {
                assert(gamma_holds(1730, 173)) by (nonlinear_arith);
                assert(!gamma_holds(1729, 173)) by (nonlinear_arith);
                1730
            },
            174 => {
                assert(gamma_holds(1752, 174)) by (nonlinear_arith);
                assert(!gamma_holds(1751, 174)) by (nonlinear_arith);
                1752
            },
            175 => {
                assert(gamma_holds(1774, 175)) by (nonlinear_arith);
                assert(!gamma_holds(1773, 175)) by (nonlinear_arith);
                1774
            },
            176 => {
                assert(gamma_holds(1796, 176)) by (nonlinear_arith);
                assert(!gamma_holds(1795, 176)) by (nonlinear_arith);
                1796
            },
            177 => {
                assert(gamma_holds(1819, 177)) by (nonlinear_arith);
                assert(!gamma_holds(1818, 177)) by (nonlinear_arith);
                1819
            },
            178 => {
                assert(gamma_holds(1842, 178)) by (nonlinear_arith);
                assert(!gamma_holds(1841, 178)) by (nonlinear_arith);
                1842
            },
            179 => {
                assert(gamma_holds(1864, 179)) by (nonlinear_arith);
                assert(!gamma_holds(1863, 179)) by (nonlinear_arith);
                1864
            },
            180 => {
                assert(gamma_holds(1887, 180)) by (nonlinear_arith);
                assert(!gamma_holds(1886, 180)) by (nonlinear_arith);
                1887
            },
            181 => {
                assert(gamma_holds(1911, 181)) by (nonlinear_arith);
                assert(!gamma_holds(1910, 181)) by (nonlinear_arith);
                1911
            },
            182 => {
                assert(gamma_holds(1934, 182)) by (nonlinear_arith);
                assert(!gamma_holds(1933, 182)) by (nonlinear_arith);
                1934
            },
            183 => {
                assert(gamma_holds(1957, 183)) by (nonlinear_arith);
                assert(!gamma_holds(1956, 183)) by (nonlinear_arith);
                1957
            },
            184 => {
                assert(gamma_holds(1981, 184)) by (nonlinear_arith);
                assert(!gamma_holds(1980, 184)) by (nonlinear_arith);
                1981
            },
            185 => {
                assert(gamma_holds(2005, 185)) by (nonlinear_arith);
                assert(!gamma_holds(2004, 185)) by (nonlinear_arith);
                2005
            },
            186 => {
                assert(gamma_holds(2029, 186)) by (nonlinear_arith);
                assert(!gamma_holds(2028, 186)) by (nonlinear_arith);
                2029
            },
            187 => {
                assert(gamma_holds(2053, 187)) by (nonlinear_arith);
                assert(!gamma_holds(2052, 187)) by (nonlinear_arith);
                2053
            },
            188 => {
                assert(gamma_holds(2077, 188)) by (nonlinear_arith);
                assert(!gamma_holds(2076, 188)) by (nonlinear_arith);
                2077
            },
            189 => {
                assert(gamma_holds(2101, 189)) by (nonlinear_arith);
                assert(!gamma_holds(2100, 189)) by (nonlinear_arith);
                2101
            },
            190 => {
                assert(gamma_holds(2126, 190)) by (nonlinear_arith);
                assert(!gamma_holds(2125, 190)) by (nonlinear_arith);
                2126
            },
            191 => {
                assert(gamma_holds(2150, 191)) by (nonlinear_arith);
                assert(!gamma_holds(2149, 191)) by (nonlinear_arith);
                2150
            },
            192 => {
                assert(gamma_holds(2175, 192)) by (nonlinear_arith);
                assert(!gamma_holds(2174, 192)) by (nonlinear_arith);
                2175
            },
            193 => {
                assert(gamma_holds(2200, 193)) by (nonlinear_arith);
                assert(!gamma_holds(2199, 193)) by (nonlinear_arith);
                2200
            },
            194 => {
                assert(gamma_holds(2225, 194)) by (nonlinear_arith);
                assert(!gamma_holds(2224, 194)) by (nonlinear_arith);
                2225
            },
            195 => {
                assert(gamma_holds(2251, 195)) by (nonlinear_arith);
                assert(!gamma_holds(2250, 195)) by (nonlinear_arith);
                2251
            },
            196 => {
                assert(gamma_holds(2276, 196)) by (nonlinear_arith);
                assert(!gamma_holds(2275, 196)) by (nonlinear_arith);
                2276
            },
            197 => {
                assert(gamma_holds(2302, 197)) by (nonlinear_arith);
                assert(!gamma_holds(2301, 197)) by (nonlinear_arith);
                2302
            },
            198 => {
                assert(gamma_holds(2328, 198)) by (nonlinear_arith);
                assert(!gamma_holds(2327, 198)) by (nonlinear_arith);
                2328
            },
            199 => {
                assert(gamma_holds(2354, 199)) by (nonlinear_arith);
                assert(!gamma_holds(2353, 199)) by (nonlinear_arith);
                2354
            },
            200 => {
                assert(gamma_holds(2380, 200)) by (nonlinear_arith);
                assert(!gamma_holds(2379, 200)) by (nonlinear_arith);
                2380
            },
            201 => {
                assert(gamma_holds(2406, 201)) by (nonlinear_arith);
                assert(!gamma_holds(2405, 201)) by (nonlinear_arith);
                2406
            },
            202 => {
                assert(gamma_holds(2432, 202)) by (nonlinear_arith);
                assert(!gamma_holds(2431, 202)) by (nonlinear_arith);
                2432
            },
            203 => {
                assert(gamma_holds(2459, 203)) by (nonlinear_arith);
                assert(!gamma_holds(2458, 203)) by (nonlinear_arith);
                2459
            },
            204 => {
                assert(gamma_holds(2486, 204)) by (nonlinear_arith);
                assert(!gamma_holds(2485, 204)) by (nonlinear_arith);
                2486
            },
            205 => {
                assert(gamma_holds(2513, 205)) by (nonlinear_arith);
                assert(!gamma_holds(2512, 205)) by (nonlinear_arith);
                2513
            },
            206 => {
                assert(gamma_holds(2540, 206)) by (nonlinear_arith);
                assert(!gamma_holds(2539, 206)) by (nonlinear_arith);
                2540
            },
            207 => {
                assert(gamma_holds(2567, 207)) by (nonlinear_arith);
                assert(!gamma_holds(2566, 207)) by (nonlinear_arith);
                2567
            },
            208 => {
                assert(gamma_holds(2594, 208)) by (nonlinear_arith);
                assert(!gamma_holds(2593, 208)) by (nonlinear_arith);
                2594
            },
            209 => {
                assert(gamma_holds(2622, 209)) by (nonlinear_arith);
                assert(!gamma_holds(2621, 209)) by (nonlinear_arith);
                2622
            },
            210 => {
                assert(gamma_holds(2649, 210)) by (nonlinear_arith);
                assert(!gamma_holds(2648, 210)) by (nonlinear_arith);
                2649
            },
            211 => {
                assert(gamma_holds(2677, 211)) by (nonlinear_arith);
                assert(!gamma_holds(2676, 211)) by (nonlinear_arith);
                2677
            },
            212 => {
                assert(gamma_holds(2705, 212)) by (nonlinear_arith);
                assert(!gamma_holds(2704, 212)) by (nonlinear_arith);
                2705
            },
            213 => {
                assert(gamma_holds(2733, 213)) by (nonlinear_arith);
                assert(!gamma_holds(2732, 213)) by (nonlinear_arith);
                2733
            },
            214 => {
                assert(gamma_holds(2762, 214)) by (nonlinear_arith);
                assert(!gamma_holds(2761, 214)) by (nonlinear_arith);
                2762
            },
            215 => {
                assert(gamma_holds(2790, 215)) by (nonlinear_arith);
                assert(!gamma_holds(2789, 215)) by (nonlinear_arith);
                2790
            },
            216 => {
                assert(gamma_holds(2819, 216)) by (nonlinear_arith);
                assert(!gamma_holds(2818, 216)) by (nonlinear_arith);
                2819
            },
            217 => {
                assert(gamma_holds(2847, 217)) by (nonlinear_arith);
                assert(!gamma_holds(2846, 217)) by (nonlinear_arith);
                2847
            },
            218 => {
                assert(gamma_holds(2876, 218)) by (nonlinear_arith);
                assert(!gamma_holds(2875, 218)) by (nonlinear_arith);
                2876
            },
            219 => {
                assert(gamma_holds(2905, 219)) by (nonlinear_arith);
                assert(!gamma_holds(2904, 219)) by (nonlinear_arith);
                2905
            },
            220 => {
                assert(gamma_holds(2935, 220)) by (nonlinear_arith);
                assert(!gamma_holds(2934, 220)) by (nonlinear_arith);
                2935
            },
            221 => {
                assert(gamma_holds(2964, 221)) by (nonlinear_arith);
                assert(!gamma_holds(2963, 221)) by (nonlinear_arith);
                2964
            },
            222 => {
                assert(gamma_holds(2994, 222)) by (nonlinear_arith);
                assert(!gamma_holds(2993, 222)) by (nonlinear_arith);
                2994
            },
            223 => {
                assert(gamma_holds(3023, 223)) by (nonlinear_arith);
                assert(!gamma_holds(3022, 223)) by (nonlinear_arith);
                3023
            },
            224 => {
                assert(gamma_holds(3053, 224)) by (nonlinear_arith);
                assert(!gamma_holds(3052, 224)) by (nonlinear_arith);
                3053
            },
            225 => {
                assert(gamma_holds(3083, 225)) by (nonlinear_arith);
                assert(!gamma_holds(3082, 225)) by (nonlinear_arith);
                3083
            },
            226 => {
                assert(gamma_holds(3114, 226)) by (nonlinear_arith);
                assert(!gamma_holds(3113, 226)) by (nonlinear_arith);
                3114
            },
            227 => {
                assert(gamma_holds(3144, 227)) by (nonlinear_arith);
                assert(!gamma_holds(3143, 227)) by (nonlinear_arith);
                3144
            },
            228 => {
                assert(gamma_holds(3175, 228)) by (nonlinear_arith);
                assert(!gamma_holds(3174, 228)) by (nonlinear_arith);
                3175
            },
            229 => {
                assert(gamma_holds(3205, 229)) by (nonlinear_arith);
                assert(!gamma_holds(3204, 229)) by (nonlinear_arith);
                3205
            },
            230 => {
                assert(gamma_holds(3236, 230)) by (nonlinear_arith);
                assert(!gamma_holds(3235, 230)) by (nonlinear_arith);
                3236
            },
            231 => {
                assert(gamma_holds(3267, 231)) by (nonlinear_arith);
                assert(!gamma_holds(3266, 231)) by (nonlinear_arith);
                3267
            },
            232 => {
                assert(gamma_holds(3298, 232)) by (nonlinear_arith);
                assert(!gamma_holds(3297, 232)) by (nonlinear_arith);
                3298
            },
            233 => {
                assert(gamma_holds(3330, 233)) by (nonlinear_arith);
                assert(!gamma_holds(3329, 233)) by (nonlinear_arith);
                3330
            },
            234 => {
                assert(gamma_holds(3361, 234)) by (nonlinear_arith);
                assert(!gamma_holds(3360, 234)) by (nonlinear_arith);
                3361
            },
            235 => {
                assert(gamma_holds(3393, 235)) by (nonlinear_arith);
                assert(!gamma_holds(3392, 235)) by (nonlinear_arith);
                3393
            },
            236 => {
                assert(gamma_holds(3425, 236)) by (nonlinear_arith);
                assert(!gamma_holds(3424, 236)) by (nonlinear_arith);
                3425
            },
            237 => {
                assert(gamma_holds(3457, 237)) by (nonlinear_arith);
                assert(!gamma_holds(3456, 237)) by (nonlinear_arith);
                3457
            },
            238 => {
                assert(gamma_holds(3489, 238)) by (nonlinear_arith);
                assert(!gamma_holds(3488, 238)) by (nonlinear_arith);
                3489
            },
            239 => {
                assert(gamma_holds(3521, 239)) by (nonlinear_arith);
                assert(!gamma_holds(3520, 239)) by (nonlinear_arith);
                3521
            },
            240 => {
                assert(gamma_holds(3554, 240)) by (nonlinear_arith);
                assert(!gamma_holds(3553, 240)) by (nonlinear_arith);
                3554
            },
            241 => {
                assert(gamma_holds(3586, 241)) by (nonlinear_arith);
                assert(!gamma_holds(3585, 241)) by (nonlinear_arith);
                3586
            },
            242 => {
                assert(gamma_holds(3619, 242)) by (nonlinear_arith);
                assert(!gamma_holds(3618, 242)) by (nonlinear_arith);
                3619
            },
            243 => {
                assert(gamma_holds(3652, 243)) by (nonlinear_arith);
                assert(!gamma_holds(3651, 243)) by (nonlinear_arith);
                3652
            },
            244 => {
                assert(gamma_holds(3685, 244)) by (nonlinear_arith);
                assert(!gamma_holds(3684, 244)) by (nonlinear_arith);
                3685
            },
            245 => {
                assert(gamma_holds(3719, 245)) by (nonlinear_arith);
                assert(!gamma_holds(3718, 245)) by (nonlinear_arith);
                3719
            },
            246 => {
                assert(gamma_holds(3752, 246)) by (nonlinear_arith);
                assert(!gamma_holds(3751, 246)) by (nonlinear_arith);
                3752
            },
            247 => {
                assert(gamma_holds(3786, 247)) by (nonlinear_arith);
                assert(!gamma_holds(3785, 247)) by (nonlinear_arith);
                3786
            },
            248 => {
                assert(gamma_holds(3820, 248)) by (nonlinear_arith);
                assert(!gamma_holds(3819, 248)) by (nonlinear_arith);
                3820
            },
            249 => {
                assert(gamma_holds(3854, 249)) by (nonlinear_arith);
                assert(!gamma_holds(3853, 249)) by (nonlinear_arith);
                3854
            },
            250 => {
                assert(gamma_holds(3888, 250)) by (nonlinear_arith);
                assert(!gamma_holds(3887, 250)) by (nonlinear_arith);
                3888
            },
            251 => {
                assert(gamma_holds(3922, 251)) by (nonlinear_arith);
                assert(!gamma_holds(3921, 251)) by (nonlinear_arith);
                3922
            },
            252 => {
                assert(gamma_holds(3956, 252)) by (nonlinear_arith);
                assert(!gamma_holds(3955, 252)) by (nonlinear_arith);
                3956
            },
            253 => {
                assert(gamma_holds(3991, 253)) by (nonlinear_arith);
                assert(!gamma_holds(3990, 253)) by (nonlinear_arith);
                3991
            },
            254 => {
                assert(gamma_holds(4026, 254)) by (nonlinear_arith);
                assert(!gamma_holds(4025, 254)) by (nonlinear_arith);
                4026
            },
            255 => {
                assert(gamma_holds(4061, 255)) by (nonlinear_arith);
                assert(!gamma_holds(4060, 255)) by (nonlinear_arith);
                4061
            },
    }
}

/// The gamma lookup table: entry `i` is the byte `floor(255.99 * (i / 4095) ^ (1 / 2.2))`,
/// computed exactly. It is the largest byte `k` with `gamma_holds(i, k)`.
pub fn get_gamma_lut() -> (lut: Vec<u8>)
    ensures
        lut@.len() == GAMMA_LUT_LEN,
        forall|i: int| 0 <= i < GAMMA_LUT_LEN ==> gamma_entry(i, #[trigger] lut@[i] as int),
        forall|i: int, k: int|
            0 <= i < GAMMA_LUT_LEN && lut@[i] < k <= 255 ==> !#[trigger] gamma_holds(i, k),
{
    let mut lut: Vec<u8> = Vec::new();
    let mut k: u8 = 0;
    let mut i: u16 = 0;
    proof {
        assert(gamma_holds(0, 0)) by (nonlinear_arith);
    }
    while i < 4096
        invariant
            0 <= i <= 4096,
            lut@.len() == i,
            gamma_holds(i as int, k as int),
            forall|j: int| 0 <= j < i ==> gamma_entry(j, #[trigger] lut@[j] as int),
        decreases 4096 - i,
    {
        loop
            invariant
                gamma_holds(i as int, k as int),
                0 <= i < 4096,
                lut@.len() == i,
                forall|j: int| 0 <= j < i ==> gamma_entry(j, #[trigger] lut@[j] as int),
            ensures
                gamma_holds(i as int, k as int),
                k == 255 || !gamma_holds(i as int, k + 1),
            decreases 255 - k,
        {
            if k == 255 {
                break;
            }
            let t = gamma_threshold(k + 1);
            if t <= i {
                proof {
                    lemma_gamma_holds_in_entry(t as int, i as int, k + 1);
                }
                k = k + 1;
            } else {
                proof {
                    if gamma_holds(i as int, k + 1) {
                        lemma_gamma_holds_in_entry(i as int, t - 1, k + 1);
                    }
                }
                break;
            }
        }
        lut.push(k);
        proof {
            assert(gamma_entry(i as int, lut@[i as int] as int));
            lemma_gamma_holds_in_entry(i as int, i + 1, k as int);
        }
        i = i + 1;
    }
    proof {
        assert forall|i: int, k: int|
            0 <= i < GAMMA_LUT_LEN && lut@[i] < k <= 255 implies !#[trigger] gamma_holds(i, k) by {
            assert(gamma_entry(i, lut@[i] as int));
            if gamma_holds(i, k) {
                lemma_gamma_holds_downward(i, k, lut@[i] + 1);
            }
        }
    }
    lut
}

} // verus!
