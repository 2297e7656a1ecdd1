//! The codec that packs a program into fewer characters: the program is
//! read as a number in base 95 and written in base 256, one character of a
//! fixed page for each digit.

use crate::text::{chars_of, string_of};
use vstd::prelude::*;

verus! {

/// The character of the page at a place.
pub open spec fn page_at(i: u8) -> char {
    match i {
        0 => '!',
        1 => '"',
        2 => '#',
        3 => '$',
        4 => '%',
        5 => '&',
        6 => '\'',
        7 => '(',
        8 => ')',
        9 => '*',
        10 => '+',
        11 => ',',
        12 => '-',
        13 => '.',
        14 => '/',
        15 => '0',
        16 => '1',
        17 => '2',
        18 => '3',
        19 => '4',
        20 => '5',
        21 => '6',
        22 => '7',
        23 => '8',
        24 => '9',
        25 => ':',
        26 => ';',
        27 => '<',
        28 => '=',
        29 => '>',
        30 => '?',
        31 => '@',
        32 => 'A',
        33 => 'B',
        34 => 'C',
        35 => 'D',
        36 => 'E',
        37 => 'F',
        38 => 'G',
        39 => 'H',
        40 => 'I',
        41 => 'J',
        42 => 'K',
        43 => 'L',
        44 => 'M',
        45 => 'N',
        46 => 'O',
        47 => 'P',
        48 => 'Q',
        49 => 'R',
        50 => 'S',
        51 => 'T',
        52 => 'U',
        53 => 'V',
        54 => 'W',
        55 => 'X',
        56 => 'Y',
        57 => 'Z',
        58 => '[',
        59 => '\\',
        60 => ']',
        61 => '^',
        62 => '_',
        63 => '`',
        64 => 'a',
        65 => 'b',
        66 => 'c',
        67 => 'd',
        68 => 'e',
        69 => 'f',
        70 => 'g',
        71 => 'h',
        72 => 'i',
        73 => 'j',
        74 => 'k',
        75 => 'l',
        76 => 'm',
        77 => 'n',
        78 => 'o',
        79 => 'p',
        80 => 'q',
        81 => 'r',
        82 => 's',
        83 => 't',
        84 => 'u',
        85 => 'v',
        86 => 'w',
        87 => 'x',
        88 => 'y',
        89 => 'z',
        90 => '{',
        91 => '|',
        92 => '}',
        93 => '~',
        94 => '\u{a1}',
        95 => '\u{a2}',
        96 => '\u{a3}',
        97 => '\u{a4}',
        98 => '\u{a5}',
        99 => '\u{a6}',
        100 => '\u{a7}',
        101 => '\u{a8}',
        102 => '\u{a9}',
        103 => '\u{aa}',
        104 => '\u{ab}',
        105 => '\u{ac}',
        106 => '\u{ae}',
        107 => '\u{af}',
        108 => '\u{b0}',
        109 => '\u{25cb}',
        110 => '\u{25a0}',
        111 => '\u{2191}',
        112 => '\u{2193}',
        113 => '\u{2192}',
        114 => '\u{2190}',
        115 => '\u{2551}',
        116 => '\u{2550}',
        117 => '\u{2554}',
        118 => '\u{2557}',
        119 => '\u{255a}',
        120 => '\u{255d}',
        121 => '\u{2591}',
        122 => '\u{2592}',
        123 => '\u{25ba}',
        124 => '\u{25c4}',
        125 => '\u{2502}',
        126 => '\u{2500}',
        127 => '\u{250c}',
        128 => '\u{2510}',
        129 => '\u{2514}',
        130 => '\u{2518}',
        131 => '\u{251c}',
        132 => '\u{2524}',
        133 => '\u{2534}',
        134 => '\u{252c}',
        135 => '\u{2666}',
        136 => '\u{253c}',
        137 => '\u{2588}',
        138 => '\u{2584}',
        139 => '\u{2580}',
        140 => '\u{25ac}',
        141 => '\u{b1}',
        142 => '\u{b2}',
        143 => '\u{b3}',
        144 => '\u{b4}',
        145 => '\u{b5}',
        146 => '\u{b6}',
        147 => '\u{b7}',
        148 => '\u{b8}',
        149 => '\u{b9}',
        150 => '\u{ba}',
        151 => '\u{bb}',
        152 => '\u{bc}',
        153 => '\u{bd}',
        154 => '\u{be}',
        155 => '\u{bf}',
        156 => '\u{c0}',
        157 => '\u{c1}',
        158 => '\u{c2}',
        159 => '\u{c3}',
        160 => '\u{c4}',
        161 => '\u{c5}',
        162 => '\u{c6}',
        163 => '\u{c7}',
        164 => '\u{c8}',
        165 => '\u{c9}',
        166 => '\u{ca}',
        167 => '\u{cb}',
        168 => '\u{cc}',
        169 => '\u{cd}',
        170 => '\u{ce}',
        171 => '\u{cf}',
        172 => '\u{d0}',
        173 => '\u{d1}',
        174 => '\u{d2}',
        175 => '\u{d3}',
        176 => '\u{d4}',
        177 => '\u{d5}',
        178 => '\u{d6}',
        179 => '\u{d7}',
        180 => '\u{d8}',
        181 => '\u{d9}',
        182 => '\u{da}',
        183 => '\u{db}',
        184 => '\u{dc}',
        185 => '\u{dd}',
        186 => '\u{de}',
        187 => '\u{df}',
        188 => '\u{e0}',
        189 => '\u{e1}',
        190 => '\u{e2}',
        191 => '\u{e3}',
        192 => '\u{e4}',
        193 => '\u{e5}',
        194 => '\u{e6}',
        195 => '\u{e7}',
        196 => '\u{e8}',
        197 => '\u{e9}',
        198 => '\u{ea}',
        199 => '\u{eb}',
        200 => '\u{ec}',
        201 => '\u{ed}',
        202 => '\u{ee}',
        203 => '\u{ef}',
        204 => '\u{f0}',
        205 => '\u{f1}',
        206 => '\u{f2}',
        207 => '\u{f3}',
        208 => '\u{f4}',
        209 => '\u{f5}',
        210 => '\u{f6}',
        211 => '\u{f7}',
        212 => '\u{f8}',
        213 => '\u{f9}',
        214 => '\u{fa}',
        215 => '\u{fb}',
        216 => '\u{fc}',
        217 => '\u{fd}',
        218 => '\u{fe}',
        219 => '\u{ff}',
        220 => '\u{152}',
        221 => '\u{153}',
        222 => '\u{160}',
        223 => '\u{161}',
        224 => '\u{178}',
        225 => '\u{17d}',
        226 => '\u{17e}',
        227 => '\u{192}',
        228 => '\u{1a5}',
        229 => '\u{2a0}',
        230 => '\u{2c6}',
        231 => '\u{2dc}',
        232 => '\u{2013}',
        233 => '\u{2014}',
        234 => '\u{2018}',
        235 => '\u{2019}',
        236 => '\u{201a}',
        237 => '\u{201c}',
        238 => '\u{201d}',
        239 => '\u{201e}',
        240 => '\u{2020}',
        241 => '\u{2021}',
        242 => '\u{2022}',
        243 => '\u{2026}',
        244 => '\u{2030}',
        245 => '\u{2039}',
        246 => '\u{203a}',
        247 => '\u{20ac}',
        248 => '\u{2122}',
        249 => '\u{207a}',
        250 => '\u{207b}',
        251 => '\u{207c}',
        252 => '\u{21d2}',
        253 => '\u{21d0}',
        254 => '\u{2605}',
        _ => '\u{394}',
    }
}

/// The place of a character in the page, if it is there.
pub open spec fn page_index(c: char) -> Option<u8> {
    match c {
        '!' => Some(0),
        '"' => Some(1),
        '#' => Some(2),
        '$' => Some(3),
        '%' => Some(4),
        '&' => Some(5),
        '\'' => Some(6),
        '(' => Some(7),
        ')' => Some(8),
        '*' => Some(9),
        '+' => Some(10),
        ',' => Some(11),
        '-' => Some(12),
        '.' => Some(13),
        '/' => Some(14),
        '0' => Some(15),
        '1' => Some(16),
        '2' => Some(17),
        '3' => Some(18),
        '4' => Some(19),
        '5' => Some(20),
        '6' => Some(21),
        '7' => Some(22),
        '8' => Some(23),
        '9' => Some(24),
        ':' => Some(25),
        ';' => Some(26),
        '<' => Some(27),
        '=' => Some(28),
        '>' => Some(29),
        '?' => Some(30),
        '@' => Some(31),
        'A' => Some(32),
        'B' => Some(33),
        'C' => Some(34),
        'D' => Some(35),
        'E' => Some(36),
        'F' => Some(37),
        'G' => Some(38),
        'H' => Some(39),
        'I' => Some(40),
        'J' => Some(41),
        'K' => Some(42),
        'L' => Some(43),
        'M' => Some(44),
        'N' => Some(45),
        'O' => Some(46),
        'P' => Some(47),
        'Q' => Some(48),
        'R' => Some(49),
        'S' => Some(50),
        'T' => Some(51),
        'U' => Some(52),
        'V' => Some(53),
        'W' => Some(54),
        'X' => Some(55),
        'Y' => Some(56),
        'Z' => Some(57),
        '[' => Some(58),
        '\\' => Some(59),
        ']' => Some(60),
        '^' => Some(61),
        '_' => Some(62),
        '`' => Some(63),
        'a' => Some(64),
        'b' => Some(65),
        'c' => Some(66),
        'd' => Some(67),
        'e' => Some(68),
        'f' => Some(69),
        'g' => Some(70),
        'h' => Some(71),
        'i' => Some(72),
        'j' => Some(73),
        'k' => Some(74),
        'l' => Some(75),
        'm' => Some(76),
        'n' => Some(77),
        'o' => Some(78),
        'p' => Some(79),
        'q' => Some(80),
        'r' => Some(81),
        's' => Some(82),
        't' => Some(83),
        'u' => Some(84),
        'v' => Some(85),
        'w' => Some(86),
        'x' => Some(87),
        'y' => Some(88),
        'z' => Some(89),
        '{' => Some(90),
        '|' => Some(91),
        '}' => Some(92),
        '~' => Some(93),
        '\u{a1}' => Some(94),
        '\u{a2}' => Some(95),
        '\u{a3}' => Some(96),
        '\u{a4}' => Some(97),
        '\u{a5}' => Some(98),
        '\u{a6}' => Some(99),
        '\u{a7}' => Some(100),
        '\u{a8}' => Some(101),
        '\u{a9}' => Some(102),
        '\u{aa}' => Some(103),
        '\u{ab}' => Some(104),
        '\u{ac}' => Some(105),
        '\u{ae}' => Some(106),
        '\u{af}' => Some(107),
        '\u{b0}' => Some(108),
        '\u{25cb}' => Some(109),
        '\u{25a0}' => Some(110),
        '\u{2191}' => Some(111),
        '\u{2193}' => Some(112),
        '\u{2192}' => Some(113),
        '\u{2190}' => Some(114),
        '\u{2551}' => Some(115),
        '\u{2550}' => Some(116),
        '\u{2554}' => Some(117),
        '\u{2557}' => Some(118),
        '\u{255a}' => Some(119),
        '\u{255d}' => Some(120),
        '\u{2591}' => Some(121),
        '\u{2592}' => Some(122),
        '\u{25ba}' => Some(123),
        '\u{25c4}' => Some(124),
        '\u{2502}' => Some(125),
        '\u{2500}' => Some(126),
        '\u{250c}' => Some(127),
        '\u{2510}' => Some(128),
        '\u{2514}' => Some(129),
        '\u{2518}' => Some(130),
        '\u{251c}' => Some(131),
        '\u{2524}' => Some(132),
        '\u{2534}' => Some(133),
        '\u{252c}' => Some(134),
        '\u{2666}' => Some(135),
        '\u{253c}' => Some(136),
        '\u{2588}' => Some(137),
        '\u{2584}' => Some(138),
        '\u{2580}' => Some(139),
        '\u{25ac}' => Some(140),
        '\u{b1}' => Some(141),
        '\u{b2}' => Some(142),
        '\u{b3}' => Some(143),
        '\u{b4}' => Some(144),
        '\u{b5}' => Some(145),
        '\u{b6}' => Some(146),
        '\u{b7}' => Some(147),
        '\u{b8}' => Some(148),
        '\u{b9}' => Some(149),
        '\u{ba}' => Some(150),
        '\u{bb}' => Some(151),
        '\u{bc}' => Some(152),
        '\u{bd}' => Some(153),
        '\u{be}' => Some(154),
        '\u{bf}' => Some(155),
        '\u{c0}' => Some(156),
        '\u{c1}' => Some(157),
        '\u{c2}' => Some(158),
        '\u{c3}' => Some(159),
        '\u{c4}' => Some(160),
        '\u{c5}' => Some(161),
        '\u{c6}' => Some(162),
        '\u{c7}' => Some(163),
        '\u{c8}' => Some(164),
        '\u{c9}' => Some(165),
        '\u{ca}' => Some(166),
        '\u{cb}' => Some(167),
        '\u{cc}' => Some(168),
        '\u{cd}' => Some(169),
        '\u{ce}' => Some(170),
        '\u{cf}' => Some(171),
        '\u{d0}' => Some(172),
        '\u{d1}' => Some(173),
        '\u{d2}' => Some(174),
        '\u{d3}' => Some(175),
        '\u{d4}' => Some(176),
        '\u{d5}' => Some(177),
        '\u{d6}' => Some(178),
        '\u{d7}' => Some(179),
        '\u{d8}' => Some(180),
        '\u{d9}' => Some(181),
        '\u{da}' => Some(182),
        '\u{db}' => Some(183),
        '\u{dc}' => Some(184),
        '\u{dd}' => Some(185),
        '\u{de}' => Some(186),
        '\u{df}' => Some(187),
        '\u{e0}' => Some(188),
        '\u{e1}' => Some(189),
        '\u{e2}' => Some(190),
        '\u{e3}' => Some(191),
        '\u{e4}' => Some(192),
        '\u{e5}' => Some(193),
        '\u{e6}' => Some(194),
        '\u{e7}' => Some(195),
        '\u{e8}' => Some(196),
        '\u{e9}' => Some(197),
        '\u{ea}' => Some(198),
        '\u{eb}' => Some(199),
        '\u{ec}' => Some(200),
        '\u{ed}' => Some(201),
        '\u{ee}' => Some(202),
        '\u{ef}' => Some(203),
        '\u{f0}' => Some(204),
        '\u{f1}' => Some(205),
        '\u{f2}' => Some(206),
        '\u{f3}' => Some(207),
        '\u{f4}' => Some(208),
        '\u{f5}' => Some(209),
        '\u{f6}' => Some(210),
        '\u{f7}' => Some(211),
        '\u{f8}' => Some(212),
        '\u{f9}' => Some(213),
        '\u{fa}' => Some(214),
        '\u{fb}' => Some(215),
        '\u{fc}' => Some(216),
        '\u{fd}' => Some(217),
        '\u{fe}' => Some(218),
        '\u{ff}' => Some(219),
        '\u{152}' => Some(220),
        '\u{153}' => Some(221),
        '\u{160}' => Some(222),
        '\u{161}' => Some(223),
        '\u{178}' => Some(224),
        '\u{17d}' => Some(225),
        '\u{17e}' => Some(226),
        '\u{192}' => Some(227),
        '\u{1a5}' => Some(228),
        '\u{2a0}' => Some(229),
        '\u{2c6}' => Some(230),
        '\u{2dc}' => Some(231),
        '\u{2013}' => Some(232),
        '\u{2014}' => Some(233),
        '\u{2018}' => Some(234),
        '\u{2019}' => Some(235),
        '\u{201a}' => Some(236),
        '\u{201c}' => Some(237),
        '\u{201d}' => Some(238),
        '\u{201e}' => Some(239),
        '\u{2020}' => Some(240),
        '\u{2021}' => Some(241),
        '\u{2022}' => Some(242),
        '\u{2026}' => Some(243),
        '\u{2030}' => Some(244),
        '\u{2039}' => Some(245),
        '\u{203a}' => Some(246),
        '\u{20ac}' => Some(247),
        '\u{2122}' => Some(248),
        '\u{207a}' => Some(249),
        '\u{207b}' => Some(250),
        '\u{207c}' => Some(251),
        '\u{21d2}' => Some(252),
        '\u{21d0}' => Some(253),
        '\u{2605}' => Some(254),
        '\u{394}' => Some(255),
        _ => None,
    }
}

/// The number that digits stand for in a base, least significant first.
pub open spec fn value(d: Seq<u8>, base: nat) -> nat
    decreases d.len(),
{
    if d.len() == 0 {
        0
    } else {
        d[0] as nat + base * value(d.skip(1), base)
    }
}

/// The digits of a number in a base, least significant first; zero has
/// none.
pub open spec fn digits_of(n: nat, base: nat) -> Seq<u8>
    decreases n,
{
    if n == 0 || base < 2 || base > 256 {
        Seq::empty()
    } else {
        proof {
            assert(n / base < n) by (nonlinear_arith)
                requires
                    n > 0,
                    base >= 2,
            ;
        }
        seq![(n % base) as u8] + digits_of(n / base, base)
    }
}

/// The digits, in a base, of the number that the digits `d` stand for in
/// that base, times `m`, plus `a`.
pub open spec fn mul_add(d: Seq<u8>, m: nat, a: nat, base: nat) -> Seq<u8>
    decreases d.len(),
{
    if d.len() == 0 {
        digits_of(a, base)
    } else {
        let t = d[0] as nat * m + a;
        seq![(t % base) as u8] + mul_add(d.skip(1), m, t / base, base)
    }
}

/// The digits in the base `to` of the number that the digits `b` stand for
/// in the base `from`.
pub open spec fn convert(b: Seq<u8>, from: nat, to: nat) -> Seq<u8>
    decreases b.len(),
{
    if b.len() == 0 {
        Seq::empty()
    } else {
        mul_add(convert(b.skip(1), from, to), from, b[0] as nat, to)
    }
}

/// Whether digits are all below the base and do not end in a zero.
pub open spec fn canonical(d: Seq<u8>, base: nat) -> bool {
    &&& forall|i: int| 0 <= i < d.len() ==> (#[trigger] d[i]) < base
    &&& d.len() > 0 ==> d.last() != 0
}

/// The digits of a number stand for it, and are canonical.
pub proof fn lemma_digits_of(n: nat, base: nat)
    requires
        2 <= base <= 256,
    ensures
        value(digits_of(n, base), base) == n,
        canonical(digits_of(n, base), base),
    decreases n,
{
    if n > 0 {
        assert(n / base < n) by (nonlinear_arith)
            requires
                n > 0,
                base >= 2,
        ;
        lemma_digits_of(n / base, base);
        let rest = digits_of(n / base, base);
        let d = seq![(n % base) as u8] + rest;
        assert(d.skip(1) =~= rest);
        assert(n == n % base + base * (n / base)) by (nonlinear_arith)
            requires
                base >= 2,
        ;
        assert(n % base < base) by (nonlinear_arith)
            requires
                base >= 2,
        ;
        if rest.len() == 0 {
            assert(n / base == 0);
            assert(d.last() == (n % base) as u8);
        } else {
            assert(d.last() == rest.last());
        }
        assert forall|i: int| 0 <= i < d.len() implies (#[trigger] d[i]) < base by {
            if i > 0 {
                assert(d[i] == rest[i - 1]);
            }
        }
    }
}

/// The result of a multiplication and addition on digits stands for the
/// product plus the addend, and is canonical if the digits were, the
/// factor is not zero, and not all is zero.
pub proof fn lemma_mul_add(d: Seq<u8>, m: nat, a: nat, base: nat)
    requires
        2 <= base <= 256,
    ensures
        value(mul_add(d, m, a, base), base) == value(d, base) * m + a,
        canonical(d, base) && m > 0 ==> canonical(mul_add(d, m, a, base), base),
    decreases d.len(),
{
    if d.len() == 0 {
        lemma_digits_of(a, base);
        assert(value(d, base) * m == 0) by (nonlinear_arith)
            requires
                value(d, base) == 0,
        ;
    } else {
        let t = d[0] as nat * m + a;
        let rest = mul_add(d.skip(1), m, t / base, base);
        let r = seq![(t % base) as u8] + rest;
        lemma_mul_add(d.skip(1), m, t / base, base);
        assert(r.skip(1) =~= rest);
        assert(t % base < base) by (nonlinear_arith)
            requires
                base >= 2,
        ;
        let v = value(d.skip(1), base);
        assert(t % base + base * (v * m + t / base) == (d[0] as nat + base * v) * m + a)
            by (nonlinear_arith)
            requires
                t == d[0] as nat * m + a,
                base >= 2,
        ;
        if canonical(d, base) && m > 0 {
            assert forall|i: int| 0 <= i < d.skip(1).len() implies (#[trigger] d.skip(1)[i])
                < base by {
                assert(d.skip(1)[i] == d[i + 1]);
            }
            if d.skip(1).len() > 0 {
                assert(d.skip(1).last() == d.last());
                assert(rest.len() > 0) by {
                    lemma_value_positive(d.skip(1), base);
                    let x = value(rest, base);
                    let y = value(d.skip(1), base);
                    let z = t / base;
                    assert(x > 0) by (nonlinear_arith)
                        requires
                            x == y * m + z,
                            y > 0,
                            m > 0,
                            z >= 0,
                    ;
                }
                assert(r.last() == rest.last());
            } else {
                // The only digit is not zero, so the product is not zero.
                assert(d[0] == d.last());
                assert(t > 0) by (nonlinear_arith)
                    requires
                        t == d[0] as nat * m + a,
                        d[0] > 0,
                        m > 0,
                ;
                lemma_digits_of(t / base, base);
                if rest.len() == 0 {
                    assert(t / base == 0);
                    assert(t % base == t) by (nonlinear_arith)
                        requires
                            t / base == 0,
                            base >= 2,
                    ;
                    assert(r.last() == (t % base) as u8);
                } else {
                    assert(r.last() == rest.last());
                }
            }
            assert forall|i: int| 0 <= i < r.len() implies (#[trigger] r[i]) < base by {
                if i > 0 {
                    assert(r[i] == rest[i - 1]);
                }
            }
        }
    }
}

/// Canonical digits that are there stand for a number above zero.
pub proof fn lemma_value_positive(d: Seq<u8>, base: nat)
    requires
        2 <= base <= 256,
        d.len() > 0,
        d.last() != 0,
    ensures
        value(d, base) > 0,
    decreases d.len(),
{
    if d.len() == 1 {
        assert(d[0] == d.last());
    } else {
        assert(d.skip(1).last() == d.last());
        lemma_value_positive(d.skip(1), base);
        assert(base * value(d.skip(1), base) > 0) by (nonlinear_arith)
            requires
                base >= 2,
                value(d.skip(1), base) > 0,
        ;
    }
}

/// Converted digits stand for the same number, and are canonical.
pub proof fn lemma_convert(b: Seq<u8>, from: nat, to: nat)
    requires
        2 <= to <= 256,
        from > 0,
    ensures
        value(convert(b, from, to), to) == value(b, from),
        canonical(convert(b, from, to), to),
    decreases b.len(),
{
    if b.len() > 0 {
        lemma_convert(b.skip(1), from, to);
        lemma_mul_add(convert(b.skip(1), from, to), from, b[0] as nat, to);
        assert(value(b.skip(1), from) * from == from * value(b.skip(1), from))
            by (nonlinear_arith);
    }
}

/// Two runs of canonical digits that stand for the same number are the
/// same run.
pub proof fn lemma_canonical_unique(a: Seq<u8>, b: Seq<u8>, base: nat)
    requires
        2 <= base <= 256,
        canonical(a, base),
        canonical(b, base),
        value(a, base) == value(b, base),
    ensures
        a == b,
    decreases a.len(),
{
    if a.len() == 0 {
        if b.len() > 0 {
            lemma_value_positive(b, base);
        }
        assert(a =~= b);
    } else if b.len() == 0 {
        lemma_value_positive(a, base);
    } else {
        let x = value(a.skip(1), base);
        let y = value(b.skip(1), base);
        assert(a[0] == b[0] && x == y) by (nonlinear_arith)
            requires
                a[0] as nat + base * x == b[0] as nat + base * y,
                a[0] < base,
                b[0] < base,
                base >= 2,
        ;
        assert forall|i: int| 0 <= i < a.skip(1).len() implies (#[trigger] a.skip(1)[i])
            < base by {
            assert(a.skip(1)[i] == a[i + 1]);
        }
        assert forall|i: int| 0 <= i < b.skip(1).len() implies (#[trigger] b.skip(1)[i])
            < base by {
            assert(b.skip(1)[i] == b[i + 1]);
        }
        if a.skip(1).len() > 0 {
            assert(a.skip(1).last() == a.last());
        }
        if b.skip(1).len() > 0 {
            assert(b.skip(1).last() == b.last());
        }
        lemma_canonical_unique(a.skip(1), b.skip(1), base);
        assert(a =~= seq![a[0]] + a.skip(1));
        assert(b =~= seq![b[0]] + b.skip(1));
    }
}

/// Digits that are converted to another base and back are as they were, if
/// they were canonical: the conversion loses nothing.
pub proof fn lemma_convert_back(b: Seq<u8>, from: nat, to: nat)
    requires
        2 <= from <= 256,
        2 <= to <= 256,
        canonical(b, from),
    ensures
        convert(convert(b, from, to), to, from) == b,
{
    lemma_convert(b, from, to);
    lemma_convert(convert(b, from, to), to, from);
    lemma_canonical_unique(convert(convert(b, from, to), to, from), b, from);
}

fn page_char(i: u8) -> (c: char)
    ensures
        c == page_at(i),
{
    match i {
        0 => '!',
        1 => '"',
        2 => '#',
        3 => '$',
        4 => '%',
        5 => '&',
        6 => '\'',
        7 => '(',
        8 => ')',
        9 => '*',
        10 => '+',
        11 => ',',
        12 => '-',
        13 => '.',
        14 => '/',
        15 => '0',
        16 => '1',
        17 => '2',
        18 => '3',
        19 => '4',
        20 => '5',
        21 => '6',
        22 => '7',
        23 => '8',
        24 => '9',
        25 => ':',
        26 => ';',
        27 => '<',
        28 => '=',
        29 => '>',
        30 => '?',
        31 => '@',
        32 => 'A',
        33 => 'B',
        34 => 'C',
        35 => 'D',
        36 => 'E',
        37 => 'F',
        38 => 'G',
        39 => 'H',
        40 => 'I',
        41 => 'J',
        42 => 'K',
        43 => 'L',
        44 => 'M',
        45 => 'N',
        46 => 'O',
        47 => 'P',
        48 => 'Q',
        49 => 'R',
        50 => 'S',
        51 => 'T',
        52 => 'U',
        53 => 'V',
        54 => 'W',
        55 => 'X',
        56 => 'Y',
        57 => 'Z',
        58 => '[',
        59 => '\\',
        60 => ']',
        61 => '^',
        62 => '_',
        63 => '`',
        64 => 'a',
        65 => 'b',
        66 => 'c',
        67 => 'd',
        68 => 'e',
        69 => 'f',
        70 => 'g',
        71 => 'h',
        72 => 'i',
        73 => 'j',
        74 => 'k',
        75 => 'l',
        76 => 'm',
        77 => 'n',
        78 => 'o',
        79 => 'p',
        80 => 'q',
        81 => 'r',
        82 => 's',
        83 => 't',
        84 => 'u',
        85 => 'v',
        86 => 'w',
        87 => 'x',
        88 => 'y',
        89 => 'z',
        90 => '{',
        91 => '|',
        92 => '}',
        93 => '~',
        94 => '\u{a1}',
        95 => '\u{a2}',
        96 => '\u{a3}',
        97 => '\u{a4}',
        98 => '\u{a5}',
        99 => '\u{a6}',
        100 => '\u{a7}',
        101 => '\u{a8}',
        102 => '\u{a9}',
        103 => '\u{aa}',
        104 => '\u{ab}',
        105 => '\u{ac}',
        106 => '\u{ae}',
        107 => '\u{af}',
        108 => '\u{b0}',
        109 => '\u{25cb}',
        110 => '\u{25a0}',
        111 => '\u{2191}',
        112 => '\u{2193}',
        113 => '\u{2192}',
        114 => '\u{2190}',
        115 => '\u{2551}',
        116 => '\u{2550}',
        117 => '\u{2554}',
        118 => '\u{2557}',
        119 => '\u{255a}',
        120 => '\u{255d}',
        121 => '\u{2591}',
        122 => '\u{2592}',
        123 => '\u{25ba}',
        124 => '\u{25c4}',
        125 => '\u{2502}',
        126 => '\u{2500}',
        127 => '\u{250c}',
        128 => '\u{2510}',
        129 => '\u{2514}',
        130 => '\u{2518}',
        131 => '\u{251c}',
        132 => '\u{2524}',
        133 => '\u{2534}',
        134 => '\u{252c}',
        135 => '\u{2666}',
        136 => '\u{253c}',
        137 => '\u{2588}',
        138 => '\u{2584}',
        139 => '\u{2580}',
        140 => '\u{25ac}',
        141 => '\u{b1}',
        142 => '\u{b2}',
        143 => '\u{b3}',
        144 => '\u{b4}',
        145 => '\u{b5}',
        146 => '\u{b6}',
        147 => '\u{b7}',
        148 => '\u{b8}',
        149 => '\u{b9}',
        150 => '\u{ba}',
        151 => '\u{bb}',
        152 => '\u{bc}',
        153 => '\u{bd}',
        154 => '\u{be}',
        155 => '\u{bf}',
        156 => '\u{c0}',
        157 => '\u{c1}',
        158 => '\u{c2}',
        159 => '\u{c3}',
        160 => '\u{c4}',
        161 => '\u{c5}',
        162 => '\u{c6}',
        163 => '\u{c7}',
        164 => '\u{c8}',
        165 => '\u{c9}',
        166 => '\u{ca}',
        167 => '\u{cb}',
        168 => '\u{cc}',
        169 => '\u{cd}',
        170 => '\u{ce}',
        171 => '\u{cf}',
        172 => '\u{d0}',
        173 => '\u{d1}',
        174 => '\u{d2}',
        175 => '\u{d3}',
        176 => '\u{d4}',
        177 => '\u{d5}',
        178 => '\u{d6}',
        179 => '\u{d7}',
        180 => '\u{d8}',
        181 => '\u{d9}',
        182 => '\u{da}',
        183 => '\u{db}',
        184 => '\u{dc}',
        185 => '\u{dd}',
        186 => '\u{de}',
        187 => '\u{df}',
        188 => '\u{e0}',
        189 => '\u{e1}',
        190 => '\u{e2}',
        191 => '\u{e3}',
        192 => '\u{e4}',
        193 => '\u{e5}',
        194 => '\u{e6}',
        195 => '\u{e7}',
        196 => '\u{e8}',
        197 => '\u{e9}',
        198 => '\u{ea}',
        199 => '\u{eb}',
        200 => '\u{ec}',
        201 => '\u{ed}',
        202 => '\u{ee}',
        203 => '\u{ef}',
        204 => '\u{f0}',
        205 => '\u{f1}',
        206 => '\u{f2}',
        207 => '\u{f3}',
        208 => '\u{f4}',
        209 => '\u{f5}',
        210 => '\u{f6}',
        211 => '\u{f7}',
        212 => '\u{f8}',
        213 => '\u{f9}',
        214 => '\u{fa}',
        215 => '\u{fb}',
        216 => '\u{fc}',
        217 => '\u{fd}',
        218 => '\u{fe}',
        219 => '\u{ff}',
        220 => '\u{152}',
        221 => '\u{153}',
        222 => '\u{160}',
        223 => '\u{161}',
        224 => '\u{178}',
        225 => '\u{17d}',
        226 => '\u{17e}',
        227 => '\u{192}',
        228 => '\u{1a5}',
        229 => '\u{2a0}',
        230 => '\u{2c6}',
        231 => '\u{2dc}',
        232 => '\u{2013}',
        233 => '\u{2014}',
        234 => '\u{2018}',
        235 => '\u{2019}',
        236 => '\u{201a}',
        237 => '\u{201c}',
        238 => '\u{201d}',
        239 => '\u{201e}',
        240 => '\u{2020}',
        241 => '\u{2021}',
        242 => '\u{2022}',
        243 => '\u{2026}',
        244 => '\u{2030}',
        245 => '\u{2039}',
        246 => '\u{203a}',
        247 => '\u{20ac}',
        248 => '\u{2122}',
        249 => '\u{207a}',
        250 => '\u{207b}',
        251 => '\u{207c}',
        252 => '\u{21d2}',
        253 => '\u{21d0}',
        254 => '\u{2605}',
        _ => '\u{394}',
    }
}

fn page_place(c: char) -> (r: Option<u8>)
    ensures
        r == page_index(c),
{
    match c {
        '!' => Some(0),
        '"' => Some(1),
        '#' => Some(2),
        '$' => Some(3),
        '%' => Some(4),
        '&' => Some(5),
        '\'' => Some(6),
        '(' => Some(7),
        ')' => Some(8),
        '*' => Some(9),
        '+' => Some(10),
        ',' => Some(11),
        '-' => Some(12),
        '.' => Some(13),
        '/' => Some(14),
        '0' => Some(15),
        '1' => Some(16),
        '2' => Some(17),
        '3' => Some(18),
        '4' => Some(19),
        '5' => Some(20),
        '6' => Some(21),
        '7' => Some(22),
        '8' => Some(23),
        '9' => Some(24),
        ':' => Some(25),
        ';' => Some(26),
        '<' => Some(27),
        '=' => Some(28),
        '>' => Some(29),
        '?' => Some(30),
        '@' => Some(31),
        'A' => Some(32),
        'B' => Some(33),
        'C' => Some(34),
        'D' => Some(35),
        'E' => Some(36),
        'F' => Some(37),
        'G' => Some(38),
        'H' => Some(39),
        'I' => Some(40),
        'J' => Some(41),
        'K' => Some(42),
        'L' => Some(43),
        'M' => Some(44),
        'N' => Some(45),
        'O' => Some(46),
        'P' => Some(47),
        'Q' => Some(48),
        'R' => Some(49),
        'S' => Some(50),
        'T' => Some(51),
        'U' => Some(52),
        'V' => Some(53),
        'W' => Some(54),
        'X' => Some(55),
        'Y' => Some(56),
        'Z' => Some(57),
        '[' => Some(58),
        '\\' => Some(59),
        ']' => Some(60),
        '^' => Some(61),
        '_' => Some(62),
        '`' => Some(63),
        'a' => Some(64),
        'b' => Some(65),
        'c' => Some(66),
        'd' => Some(67),
        'e' => Some(68),
        'f' => Some(69),
        'g' => Some(70),
        'h' => Some(71),
        'i' => Some(72),
        'j' => Some(73),
        'k' => Some(74),
        'l' => Some(75),
        'm' => Some(76),
        'n' => Some(77),
        'o' => Some(78),
        'p' => Some(79),
        'q' => Some(80),
        'r' => Some(81),
        's' => Some(82),
        't' => Some(83),
        'u' => Some(84),
        'v' => Some(85),
        'w' => Some(86),
        'x' => Some(87),
        'y' => Some(88),
        'z' => Some(89),
        '{' => Some(90),
        '|' => Some(91),
        '}' => Some(92),
        '~' => Some(93),
        '\u{a1}' => Some(94),
        '\u{a2}' => Some(95),
        '\u{a3}' => Some(96),
        '\u{a4}' => Some(97),
        '\u{a5}' => Some(98),
        '\u{a6}' => Some(99),
        '\u{a7}' => Some(100),
        '\u{a8}' => Some(101),
        '\u{a9}' => Some(102),
        '\u{aa}' => Some(103),
        '\u{ab}' => Some(104),
        '\u{ac}' => Some(105),
        '\u{ae}' => Some(106),
        '\u{af}' => Some(107),
        '\u{b0}' => Some(108),
        '\u{25cb}' => Some(109),
        '\u{25a0}' => Some(110),
        '\u{2191}' => Some(111),
        '\u{2193}' => Some(112),
        '\u{2192}' => Some(113),
        '\u{2190}' => Some(114),
        '\u{2551}' => Some(115),
        '\u{2550}' => Some(116),
        '\u{2554}' => Some(117),
        '\u{2557}' => Some(118),
        '\u{255a}' => Some(119),
        '\u{255d}' => Some(120),
        '\u{2591}' => Some(121),
        '\u{2592}' => Some(122),
        '\u{25ba}' => Some(123),
        '\u{25c4}' => Some(124),
        '\u{2502}' => Some(125),
        '\u{2500}' => Some(126),
        '\u{250c}' => Some(127),
        '\u{2510}' => Some(128),
        '\u{2514}' => Some(129),
        '\u{2518}' => Some(130),
        '\u{251c}' => Some(131),
        '\u{2524}' => Some(132),
        '\u{2534}' => Some(133),
        '\u{252c}' => Some(134),
        '\u{2666}' => Some(135),
        '\u{253c}' => Some(136),
        '\u{2588}' => Some(137),
        '\u{2584}' => Some(138),
        '\u{2580}' => Some(139),
        '\u{25ac}' => Some(140),
        '\u{b1}' => Some(141),
        '\u{b2}' => Some(142),
        '\u{b3}' => Some(143),
        '\u{b4}' => Some(144),
        '\u{b5}' => Some(145),
        '\u{b6}' => Some(146),
        '\u{b7}' => Some(147),
        '\u{b8}' => Some(148),
        '\u{b9}' => Some(149),
        '\u{ba}' => Some(150),
        '\u{bb}' => Some(151),
        '\u{bc}' => Some(152),
        '\u{bd}' => Some(153),
        '\u{be}' => Some(154),
        '\u{bf}' => Some(155),
        '\u{c0}' => Some(156),
        '\u{c1}' => Some(157),
        '\u{c2}' => Some(158),
        '\u{c3}' => Some(159),
        '\u{c4}' => Some(160),
        '\u{c5}' => Some(161),
        '\u{c6}' => Some(162),
        '\u{c7}' => Some(163),
        '\u{c8}' => Some(164),
        '\u{c9}' => Some(165),
        '\u{ca}' => Some(166),
        '\u{cb}' => Some(167),
        '\u{cc}' => Some(168),
        '\u{cd}' => Some(169),
        '\u{ce}' => Some(170),
        '\u{cf}' => Some(171),
        '\u{d0}' => Some(172),
        '\u{d1}' => Some(173),
        '\u{d2}' => Some(174),
        '\u{d3}' => Some(175),
        '\u{d4}' => Some(176),
        '\u{d5}' => Some(177),
        '\u{d6}' => Some(178),
        '\u{d7}' => Some(179),
        '\u{d8}' => Some(180),
        '\u{d9}' => Some(181),
        '\u{da}' => Some(182),
        '\u{db}' => Some(183),
        '\u{dc}' => Some(184),
        '\u{dd}' => Some(185),
        '\u{de}' => Some(186),
        '\u{df}' => Some(187),
        '\u{e0}' => Some(188),
        '\u{e1}' => Some(189),
        '\u{e2}' => Some(190),
        '\u{e3}' => Some(191),
        '\u{e4}' => Some(192),
        '\u{e5}' => Some(193),
        '\u{e6}' => Some(194),
        '\u{e7}' => Some(195),
        '\u{e8}' => Some(196),
        '\u{e9}' => Some(197),
        '\u{ea}' => Some(198),
        '\u{eb}' => Some(199),
        '\u{ec}' => Some(200),
        '\u{ed}' => Some(201),
        '\u{ee}' => Some(202),
        '\u{ef}' => Some(203),
        '\u{f0}' => Some(204),
        '\u{f1}' => Some(205),
        '\u{f2}' => Some(206),
        '\u{f3}' => Some(207),
        '\u{f4}' => Some(208),
        '\u{f5}' => Some(209),
        '\u{f6}' => Some(210),
        '\u{f7}' => Some(211),
        '\u{f8}' => Some(212),
        '\u{f9}' => Some(213),
        '\u{fa}' => Some(214),
        '\u{fb}' => Some(215),
        '\u{fc}' => Some(216),
        '\u{fd}' => Some(217),
        '\u{fe}' => Some(218),
        '\u{ff}' => Some(219),
        '\u{152}' => Some(220),
        '\u{153}' => Some(221),
        '\u{160}' => Some(222),
        '\u{161}' => Some(223),
        '\u{178}' => Some(224),
        '\u{17d}' => Some(225),
        '\u{17e}' => Some(226),
        '\u{192}' => Some(227),
        '\u{1a5}' => Some(228),
        '\u{2a0}' => Some(229),
        '\u{2c6}' => Some(230),
        '\u{2dc}' => Some(231),
        '\u{2013}' => Some(232),
        '\u{2014}' => Some(233),
        '\u{2018}' => Some(234),
        '\u{2019}' => Some(235),
        '\u{201a}' => Some(236),
        '\u{201c}' => Some(237),
        '\u{201d}' => Some(238),
        '\u{201e}' => Some(239),
        '\u{2020}' => Some(240),
        '\u{2021}' => Some(241),
        '\u{2022}' => Some(242),
        '\u{2026}' => Some(243),
        '\u{2030}' => Some(244),
        '\u{2039}' => Some(245),
        '\u{203a}' => Some(246),
        '\u{20ac}' => Some(247),
        '\u{2122}' => Some(248),
        '\u{207a}' => Some(249),
        '\u{207b}' => Some(250),
        '\u{207c}' => Some(251),
        '\u{21d2}' => Some(252),
        '\u{21d0}' => Some(253),
        '\u{2605}' => Some(254),
        '\u{394}' => Some(255),
        _ => None,
    }
}

/// Multiplies the number that digits stand for by `m` and adds `a`.
fn multiply_add(d: &Vec<u8>, m: u64, a: u8, base: u64) -> (r: Vec<u8>)
    requires
        2 <= base <= 256,
        m <= 256,
    ensures
        r@ == mul_add(d@, m as nat, a as nat, base as nat),
{
    let mut out: Vec<u8> = Vec::new();
    let mut carry: u64 = a as u64;
    let mut j: usize = 0;
    assert(d@.skip(0) =~= d@);
    while j < d.len()
        invariant
            j <= d.len(),
            2 <= base <= 256,
            m <= 256,
            carry <= 0x1_0000_0000,
            out@ + mul_add(d@.skip(j as int), m as nat, carry as nat, base as nat) == mul_add(
                d@,
                m as nat,
                a as nat,
                base as nat,
            ),
        decreases d.len() - j,
    {
        let ghost rest = d@.skip(j as int);
        assert(rest.skip(1) =~= d@.skip(j + 1));
        assert(d[j as int] as nat * m <= 255 * 256) by (nonlinear_arith)
            requires
                d[j as int] <= 255,
                m <= 256,
        ;
        let ghost old_carry = carry;
        let t: u64 = d[j] as u64 * m + carry;
        let ghost before = out@;
        out.push((t % base) as u8);
        carry = t / base;
        assert(carry * 2 <= t) by (nonlinear_arith)
            requires
                carry == t / base,
                base >= 2,
        ;
        assert(out@ + mul_add(rest.skip(1), m as nat, carry as nat, base as nat) =~= before
            + mul_add(rest, m as nat, old_carry as nat, base as nat));
        j += 1;
    }
    assert(d@.skip(d.len() as int) =~= Seq::<u8>::empty());
    while carry > 0
        invariant
            2 <= base <= 256,
            out@ + digits_of(carry as nat, base as nat) == mul_add(
                d@,
                m as nat,
                a as nat,
                base as nat,
            ),
        decreases carry,
    {
        let ghost before = out@;
        out.push((carry % base) as u8);
        let ghost c = carry;
        carry = carry / base;
        assert(out@ + digits_of(carry as nat, base as nat) =~= before + digits_of(
            c as nat,
            base as nat,
        ));
    }
    assert(out@ + Seq::<u8>::empty() =~= out@);
    out
}

/// Converts digits from one base to another.
fn convert_digits(bytes: &Vec<u8>, from: u64, to: u64) -> (r: Vec<u8>)
    requires
        2 <= to <= 256,
        1 <= from <= 256,
    ensures
        r@ == convert(bytes@, from as nat, to as nat),
        value(r@, to as nat) == value(bytes@, from as nat),
        canonical(r@, to as nat),
{
    let mut acc: Vec<u8> = Vec::new();
    let mut k: usize = bytes.len();
    assert(bytes@.skip(k as int) =~= Seq::<u8>::empty());
    while k > 0
        invariant
            k <= bytes.len(),
            2 <= to <= 256,
            1 <= from <= 256,
            acc@ == convert(bytes@.skip(k as int), from as nat, to as nat),
        decreases k,
    {
        assert(bytes@.skip(k - 1).skip(1) =~= bytes@.skip(k as int));
        acc = multiply_add(&acc, from, bytes[k - 1], to);
        k -= 1;
    }
    assert(bytes@.skip(0) =~= bytes@);
    proof {
        lemma_convert(bytes@, from as nat, to as nat);
    }
    acc
}

/// Writes a number given in base 95 in base 256. Both are given least
/// significant digit first; the result does not end in a zero.
pub fn pack_bytes(bytes: &Vec<u8>) -> (r: Vec<u8>)
    ensures
        r@ == convert(bytes@, 95, 256),
        value(r@, 256) == value(bytes@, 95),
        canonical(r@, 256),
{
    convert_digits(bytes, 95, 256)
}

/// Writes a number given in base 256 in base 95. Both are given least
/// significant digit first; the result does not end in a zero.
pub fn unpack_bytes(bytes: &Vec<u8>) -> (r: Vec<u8>)
    ensures
        r@ == convert(bytes@, 256, 95),
        value(r@, 95) == value(bytes@, 256),
        canonical(r@, 95),
{
    convert_digits(bytes, 256, 95)
}

/// The text with each line end written as a backslash and an `n`, from
/// index `i` on, behind `acc`.
pub open spec fn escape_from(t: Seq<char>, i: int, acc: Seq<char>) -> Seq<char>
    decreases t.len() - i,
{
    if i < 0 || i >= t.len() {
        acc
    } else if t[i] == '\n' {
        escape_from(t, i + 1, acc.push('\\').push('n'))
    } else {
        escape_from(t, i + 1, acc.push(t[i]))
    }
}

/// The text with each backslash before an `n` and that `n` written as a
/// line end, from index `i` on, behind `acc`.
pub open spec fn unescape_from(t: Seq<char>, i: int, acc: Seq<char>) -> Seq<char>
    decreases t.len() - i,
{
    if i < 0 || i >= t.len() {
        acc
    } else if t[i] == '\\' && i + 1 < t.len() && t[i + 1] == 'n' {
        unescape_from(t, i + 2, acc.push('\n'))
    } else {
        unescape_from(t, i + 1, acc.push(t[i]))
    }
}

/// The digit of a character of a program: the low eight bits of its code,
/// less 32, in eight bits.
pub open spec fn digit_of_char(c: char) -> u8 {
    (((c as u32 % 256) + 224) % 256) as u8
}

/// The packed form of a program.
pub open spec fn pack_spec(code: Seq<char>) -> Seq<char> {
    convert(escape_from(code, 0, Seq::empty()).map_values(|c: char| digit_of_char(c)), 95, 256)
        .map_values(|d: u8| page_at(d))
}

/// The program that a packed form stands for. A character that is not on
/// the page counts as the first one.
pub open spec fn unpack_spec(packed: Seq<char>) -> Seq<char> {
    unescape_from(
        convert(
            packed.map_values(
                |c: char|
                    match page_index(c) {
                        Some(i) => i,
                        None => 0u8,
                    },
            ),
            256,
            95,
        ).map_values(|d: u8| ((d + 32) as u8) as char),
        0,
        Seq::empty(),
    )
}

/// Packs a program.
pub fn pack(code: &str) -> (r: String)
    ensures
        r@ == pack_spec(code@),
{
    let t = chars_of(code);
    let mut escaped: Vec<char> = Vec::new();
    let mut i: usize = 0;
    while i < t.len()
        invariant
            i <= t.len(),
            escape_from(t@, 0, Seq::empty()) == escape_from(t@, i as int, escaped@),
        decreases t.len() - i,
    {
        if t[i] == '\n' {
            escaped.push('\\');
            escaped.push('n');
        } else {
            escaped.push(t[i]);
        }
        i += 1;
    }
    let mut bytes: Vec<u8> = Vec::new();
    let mut k: usize = 0;
    while k < escaped.len()
        invariant
            k <= escaped.len(),
            bytes@ =~= escaped@.take(k as int).map_values(|c: char| digit_of_char(c)),
        decreases escaped.len() - k,
    {
        let low: u32 = escaped[k] as u32 % 256;
        bytes.push(((low + 224) % 256) as u8);
        k += 1;
    }
    assert(escaped@.take(escaped.len() as int) =~= escaped@);
    let packed = pack_bytes(&bytes);
    let mut out: Vec<char> = Vec::new();
    let mut j: usize = 0;
    while j < packed.len()
        invariant
            j <= packed.len(),
            out@ =~= packed@.take(j as int).map_values(|d: u8| page_at(d)),
        decreases packed.len() - j,
    {
        out.push(page_char(packed[j]));
        j += 1;
    }
    assert(packed@.take(packed.len() as int) =~= packed@);
    string_of(&out)
}

/// Unpacks a packed program.
pub fn unpack(packed: &str) -> (r: String)
    ensures
        r@ == unpack_spec(packed@),
{
    let t = chars_of(packed);
    let mut bytes: Vec<u8> = Vec::new();
    let mut k: usize = 0;
    while k < t.len()
        invariant
            k <= t.len(),
            bytes@ =~= t@.take(k as int).map_values(
                |c: char|
                    match page_index(c) {
                        Some(i) => i,
                        None => 0u8,
                    },
            ),
        decreases t.len() - k,
    {
        bytes.push(
            match page_place(t[k]) {
                Some(i) => i,
                None => 0,
            },
        );
        k += 1;
    }
    assert(t@.take(t.len() as int) =~= t@);
    let digits = unpack_bytes(&bytes);
    let mut text: Vec<char> = Vec::new();
    let mut j: usize = 0;
    while j < digits.len()
        invariant
            j <= digits.len(),
            canonical(digits@, 95),
            text@ =~= digits@.take(j as int).map_values(|d: u8| ((d + 32) as u8) as char),
        decreases digits.len() - j,
    {
        assert(digits@[j as int] < 95);
        text.push((digits[j] + 32) as char);
        j += 1;
    }
    assert(digits@.take(digits.len() as int) =~= digits@);
    let mut out: Vec<char> = Vec::new();
    let mut i: usize = 0;
    while i < text.len()
        invariant
            i <= text.len(),
            unescape_from(text@, 0, Seq::empty()) == unescape_from(text@, i as int, out@),
        decreases text.len() - i,
    {
        if text[i] == '\\' && i + 1 < text.len() && text[i + 1] == 'n' {
            out.push('\n');
            i += 2;
        } else {
            out.push(text[i]);
            i += 1;
        }
    }
    string_of(&out)
}

/// Whether a text changes when it is packed and unpacked again, as a
/// packed program does.
pub fn is_packed(code: &str) -> (r: bool)
    ensures
        r == (unpack_spec(pack_spec(code@)) != code@),
{
    let round = unpack(pack(code).as_str());
    round != code.to_owned()
}

} // verus!
