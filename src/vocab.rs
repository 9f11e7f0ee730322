use vstd::prelude::*;

verus! {

/// Symbol table of the first model generation.
pub open spec fn vocab_v10(c: char) -> Option<u8> {
    match c {
        ';' => Some(1),
        ':' => Some(2),
        ',' => Some(3),
        '.' => Some(4),
        '!' => Some(5),
        '?' => Some(6),
        '—' => Some(9),
        '…' => Some(10),
        '"' => Some(11),
        '(' => Some(12),
        ')' => Some(13),
        '“' => Some(14),
        '”' => Some(15),
        ' ' => Some(16),
        '\u{0303}' => Some(17),
        'ʣ' => Some(18),
        'ʥ' => Some(19),
        'ʦ' => Some(20),
        'ʨ' => Some(21),
        'ᵝ' => Some(22),
        '\u{AB67}' => Some(23),
        'A' => Some(24),
        'I' => Some(25),
        'O' => Some(31),
        'Q' => Some(33),
        'S' => Some(35),
        'T' => Some(36),
        'W' => Some(39),
        'Y' => Some(41),
        'ᵊ' => Some(42),
        'a' => Some(43),
        'b' => Some(44),
        'c' => Some(45),
        'd' => Some(46),
        'e' => Some(47),
        'f' => Some(48),
        'h' => Some(50),
        'i' => Some(51),
        'j' => Some(52),
        'k' => Some(53),
        'l' => Some(54),
        'm' => Some(55),
        'n' => Some(56),
        'o' => Some(57),
        'p' => Some(58),
        'q' => Some(59),
        'r' => Some(60),
        's' => Some(61),
        't' => Some(62),
        'u' => Some(63),
        'v' => Some(64),
        'w' => Some(65),
        'x' => Some(66),
        'y' => Some(67),
        'z' => Some(68),
        'ɑ' => Some(69),
        'ɐ' => Some(70),
        'ɒ' => Some(71),
        'æ' => Some(72),
        'β' => Some(75),
        'ɔ' => Some(76),
        'ɕ' => Some(77),
        'ç' => Some(78),
        'ɖ' => Some(80),
        'ð' => Some(81),
        'ʤ' => Some(82),
        'ə' => Some(83),
        'ɚ' => Some(85),
        'ɛ' => Some(86),
        'ɜ' => Some(87),
        'ɟ' => Some(90),
        'ɡ' => Some(92),
        'ɥ' => Some(99),
        'ɨ' => Some(101),
        'ɪ' => Some(102),
        'ʝ' => Some(103),
        'ɯ' => Some(110),
        'ɰ' => Some(111),
        'ŋ' => Some(112),
        'ɳ' => Some(113),
        'ɲ' => Some(114),
        'ɴ' => Some(115),
        'ø' => Some(116),
        'ɸ' => Some(118),
        'θ' => Some(119),
        'œ' => Some(120),
        'ɹ' => Some(123),
        'ɾ' => Some(125),
        'ɻ' => Some(126),
        'ʁ' => Some(128),
        'ɽ' => Some(129),
        'ʂ' => Some(130),
        'ʃ' => Some(131),
        'ʈ' => Some(132),
        'ʧ' => Some(133),
        'ʊ' => Some(135),
        'ʋ' => Some(136),
        'ʌ' => Some(138),
        'ɣ' => Some(139),
        'ɤ' => Some(140),
        'χ' => Some(142),
        'ʎ' => Some(143),
        'ʒ' => Some(147),
        'ʔ' => Some(148),
        'ˈ' => Some(156),
        'ˌ' => Some(157),
        'ː' => Some(158),
        'ʰ' => Some(162),
        'ʲ' => Some(164),
        '↓' => Some(169),
        '→' => Some(171),
        '↗' => Some(172),
        '↘' => Some(173),
        'ᵻ' => Some(177),
        _ => None,
    }
}

/// Symbol table of the second model generation: the first one's symbols under the
/// same ids, and bopomofo letters, the digits that mark tones and some ideographs.
/// A tone arrow shares its id with the digit of that tone, and a few IPA symbols
/// share theirs with the bopomofo letter or ideograph of the same sound.
pub open spec fn vocab_v11(c: char) -> Option<u8> {
    match c {
        '↓' => Some(169),
        '→' => Some(171),
        '↗' => Some(172),
        '↘' => Some(173),
        'ɚ' => Some(85),
        'ɤ' => Some(140),
        'ɻ' => Some(126),
        'ɥ' => Some(99),
        '\u{AB67}' => Some(23),
        ';' => Some(1),
        ':' => Some(2),
        ',' => Some(3),
        '.' => Some(4),
        '!' => Some(5),
        '?' => Some(6),
        '/' => Some(7),
        '—' => Some(9),
        '…' => Some(10),
        '"' => Some(11),
        '(' => Some(12),
        ')' => Some(13),
        '“' => Some(14),
        '”' => Some(15),
        ' ' => Some(16),
        '\u{0303}' => Some(17),
        'ʣ' => Some(18),
        'ʥ' => Some(19),
        'ʦ' => Some(20),
        'ʨ' => Some(21),
        'ᵝ' => Some(22),
        'ㄓ' => Some(23),
        'A' => Some(24),
        'I' => Some(25),
        'ㄅ' => Some(30),
        'O' => Some(31),
        'ㄆ' => Some(32),
        'Q' => Some(33),
        'R' => Some(34),
        'S' => Some(35),
        'T' => Some(36),
        'ㄇ' => Some(37),
        'ㄈ' => Some(38),
        'W' => Some(39),
        'ㄉ' => Some(40),
        'Y' => Some(41),
        'ᵊ' => Some(42),
        'a' => Some(43),
        'b' => Some(44),
        'c' => Some(45),
        'd' => Some(46),
        'e' => Some(47),
        'f' => Some(48),
        'ㄊ' => Some(49),
        'h' => Some(50),
        'i' => Some(51),
        'j' => Some(52),
        'k' => Some(53),
        'l' => Some(54),
        'm' => Some(55),
        'n' => Some(56),
        'o' => Some(57),
        'p' => Some(58),
        'q' => Some(59),
        'r' => Some(60),
        's' => Some(61),
        't' => Some(62),
        'u' => Some(63),
        'v' => Some(64),
        'w' => Some(65),
        'x' => Some(66),
        'y' => Some(67),
        'z' => Some(68),
        'ɑ' => Some(69),
        'ɐ' => Some(70),
        'ɒ' => Some(71),
        'æ' => Some(72),
        'ㄋ' => Some(73),
        'ㄌ' => Some(74),
        'β' => Some(75),
        'ɔ' => Some(76),
        'ɕ' => Some(77),
        'ç' => Some(78),
        'ㄍ' => Some(79),
        'ɖ' => Some(80),
        'ð' => Some(81),
        'ʤ' => Some(82),
        'ə' => Some(83),
        'ㄎ' => Some(84),
        'ㄦ' => Some(85),
        'ɛ' => Some(86),
        'ɜ' => Some(87),
        'ㄏ' => Some(88),
        'ㄐ' => Some(89),
        'ɟ' => Some(90),
        'ㄑ' => Some(91),
        'ɡ' => Some(92),
        'ㄒ' => Some(93),
        'ㄔ' => Some(94),
        'ㄕ' => Some(95),
        'ㄗ' => Some(96),
        'ㄘ' => Some(97),
        'ㄙ' => Some(98),
        '月' => Some(99),
        'ㄚ' => Some(100),
        'ɨ' => Some(101),
        'ɪ' => Some(102),
        'ʝ' => Some(103),
        'ㄛ' => Some(104),
        'ㄝ' => Some(105),
        'ㄞ' => Some(106),
        'ㄟ' => Some(107),
        'ㄠ' => Some(108),
        'ㄡ' => Some(109),
        'ɯ' => Some(110),
        'ɰ' => Some(111),
        'ŋ' => Some(112),
        'ɳ' => Some(113),
        'ɲ' => Some(114),
        'ɴ' => Some(115),
        'ø' => Some(116),
        'ㄢ' => Some(117),
        'ɸ' => Some(118),
        'θ' => Some(119),
        'œ' => Some(120),
        'ㄣ' => Some(121),
        'ㄤ' => Some(122),
        'ɹ' => Some(123),
        'ㄥ' => Some(124),
        'ɾ' => Some(125),
        'ㄖ' => Some(126),
        'ㄧ' => Some(127),
        'ʁ' => Some(128),
        'ɽ' => Some(129),
        'ʂ' => Some(130),
        'ʃ' => Some(131),
        'ʈ' => Some(132),
        'ʧ' => Some(133),
        'ㄨ' => Some(134),
        'ʊ' => Some(135),
        'ʋ' => Some(136),
        'ㄩ' => Some(137),
        'ʌ' => Some(138),
        'ɣ' => Some(139),
        'ㄜ' => Some(140),
        'ㄭ' => Some(141),
        'χ' => Some(142),
        'ʎ' => Some(143),
        '十' => Some(144),
        '压' => Some(145),
        '言' => Some(146),
        'ʒ' => Some(147),
        'ʔ' => Some(148),
        '阳' => Some(149),
        '要' => Some(150),
        '阴' => Some(151),
        '应' => Some(152),
        '用' => Some(153),
        '又' => Some(154),
        '中' => Some(155),
        'ˈ' => Some(156),
        'ˌ' => Some(157),
        'ː' => Some(158),
        '穵' => Some(159),
        '外' => Some(160),
        '万' => Some(161),
        'ʰ' => Some(162),
        'ʲ' => Some(164),
        '为' => Some(165),
        '文' => Some(166),
        '瓮' => Some(167),
        '我' => Some(168),
        '3' => Some(169),
        '5' => Some(170),
        '1' => Some(171),
        '2' => Some(172),
        '4' => Some(173),
        '元' => Some(175),
        '云' => Some(176),
        'ᵻ' => Some(177),
        _ => None,
    }
}

/// The id of a symbol in the first generation's table.
pub fn lookup_v10(c: char) -> (r: Option<u8>)
    ensures
        r == vocab_v10(c),
{
    match c {
        ';' => Some(1),
        ':' => Some(2),
        ',' => Some(3),
        '.' => Some(4),
        '!' => Some(5),
        '?' => Some(6),
        '—' => Some(9),
        '…' => Some(10),
        '"' => Some(11),
        '(' => Some(12),
        ')' => Some(13),
        '“' => Some(14),
        '”' => Some(15),
        ' ' => Some(16),
        '\u{0303}' => Some(17),
        'ʣ' => Some(18),
        'ʥ' => Some(19),
        'ʦ' => Some(20),
        'ʨ' => Some(21),
        'ᵝ' => Some(22),
        '\u{AB67}' => Some(23),
        'A' => Some(24),
        'I' => Some(25),
        'O' => Some(31),
        'Q' => Some(33),
        'S' => Some(35),
        'T' => Some(36),
        'W' => Some(39),
        'Y' => Some(41),
        'ᵊ' => Some(42),
        'a' => Some(43),
        'b' => Some(44),
        'c' => Some(45),
        'd' => Some(46),
        'e' => Some(47),
        'f' => Some(48),
        'h' => Some(50),
        'i' => Some(51),
        'j' => Some(52),
        'k' => Some(53),
        'l' => Some(54),
        'm' => Some(55),
        'n' => Some(56),
        'o' => Some(57),
        'p' => Some(58),
        'q' => Some(59),
        'r' => Some(60),
        's' => Some(61),
        't' => Some(62),
        'u' => Some(63),
        'v' => Some(64),
        'w' => Some(65),
        'x' => Some(66),
        'y' => Some(67),
        'z' => Some(68),
        'ɑ' => Some(69),
        'ɐ' => Some(70),
        'ɒ' => Some(71),
        'æ' => Some(72),
        'β' => Some(75),
        'ɔ' => Some(76),
        'ɕ' => Some(77),
        'ç' => Some(78),
        'ɖ' => Some(80),
        'ð' => Some(81),
        'ʤ' => Some(82),
        'ə' => Some(83),
        'ɚ' => Some(85),
        'ɛ' => Some(86),
        'ɜ' => Some(87),
        'ɟ' => Some(90),
        'ɡ' => Some(92),
        'ɥ' => Some(99),
        'ɨ' => Some(101),
        'ɪ' => Some(102),
        'ʝ' => Some(103),
        'ɯ' => Some(110),
        'ɰ' => Some(111),
        'ŋ' => Some(112),
        'ɳ' => Some(113),
        'ɲ' => Some(114),
        'ɴ' => Some(115),
        'ø' => Some(116),
        'ɸ' => Some(118),
        'θ' => Some(119),
        'œ' => Some(120),
        'ɹ' => Some(123),
        'ɾ' => Some(125),
        'ɻ' => Some(126),
        'ʁ' => Some(128),
        'ɽ' => Some(129),
        'ʂ' => Some(130),
        'ʃ' => Some(131),
        'ʈ' => Some(132),
        'ʧ' => Some(133),
        'ʊ' => Some(135),
        'ʋ' => Some(136),
        'ʌ' => Some(138),
        'ɣ' => Some(139),
        'ɤ' => Some(140),
        'χ' => Some(142),
        'ʎ' => Some(143),
        'ʒ' => Some(147),
        'ʔ' => Some(148),
        'ˈ' => Some(156),
        'ˌ' => Some(157),
        'ː' => Some(158),
        'ʰ' => Some(162),
        'ʲ' => Some(164),
        '↓' => Some(169),
        '→' => Some(171),
        '↗' => Some(172),
        '↘' => Some(173),
        'ᵻ' => Some(177),
        _ => None,
    }
}

/// The id of a symbol in the second generation's table.
pub fn lookup_v11(c: char) -> (r: Option<u8>)
    ensures
        r == vocab_v11(c),
{
    match c {
        '↓' => Some(169),
        '→' => Some(171),
        '↗' => Some(172),
        '↘' => Some(173),
        'ɚ' => Some(85),
        'ɤ' => Some(140),
        'ɻ' => Some(126),
        'ɥ' => Some(99),
        '\u{AB67}' => Some(23),
        ';' => Some(1),
        ':' => Some(2),
        ',' => Some(3),
        '.' => Some(4),
        '!' => Some(5),
        '?' => Some(6),
        '/' => Some(7),
        '—' => Some(9),
        '…' => Some(10),
        '"' => Some(11),
        '(' => Some(12),
        ')' => Some(13),
        '“' => Some(14),
        '”' => Some(15),
        ' ' => Some(16),
        '\u{0303}' => Some(17),
        'ʣ' => Some(18),
        'ʥ' => Some(19),
        'ʦ' => Some(20),
        'ʨ' => Some(21),
        'ᵝ' => Some(22),
        'ㄓ' => Some(23),
        'A' => Some(24),
        'I' => Some(25),
        'ㄅ' => Some(30),
        'O' => Some(31),
        'ㄆ' => Some(32),
        'Q' => Some(33),
        'R' => Some(34),
        'S' => Some(35),
        'T' => Some(36),
        'ㄇ' => Some(37),
        'ㄈ' => Some(38),
        'W' => Some(39),
        'ㄉ' => Some(40),
        'Y' => Some(41),
        'ᵊ' => Some(42),
        'a' => Some(43),
        'b' => Some(44),
        'c' => Some(45),
        'd' => Some(46),
        'e' => Some(47),
        'f' => Some(48),
        'ㄊ' => Some(49),
        'h' => Some(50),
        'i' => Some(51),
        'j' => Some(52),
        'k' => Some(53),
        'l' => Some(54),
        'm' => Some(55),
        'n' => Some(56),
        'o' => Some(57),
        'p' => Some(58),
        'q' => Some(59),
        'r' => Some(60),
        's' => Some(61),
        't' => Some(62),
        'u' => Some(63),
        'v' => Some(64),
        'w' => Some(65),
        'x' => Some(66),
        'y' => Some(67),
        'z' => Some(68),
        'ɑ' => Some(69),
        'ɐ' => Some(70),
        'ɒ' => Some(71),
        'æ' => Some(72),
        'ㄋ' => Some(73),
        'ㄌ' => Some(74),
        'β' => Some(75),
        'ɔ' => Some(76),
        'ɕ' => Some(77),
        'ç' => Some(78),
        'ㄍ' => Some(79),
        'ɖ' => Some(80),
        'ð' => Some(81),
        'ʤ' => Some(82),
        'ə' => Some(83),
        'ㄎ' => Some(84),
        'ㄦ' => Some(85),
        'ɛ' => Some(86),
        'ɜ' => Some(87),
        'ㄏ' => Some(88),
        'ㄐ' => Some(89),
        'ɟ' => Some(90),
        'ㄑ' => Some(91),
        'ɡ' => Some(92),
        'ㄒ' => Some(93),
        'ㄔ' => Some(94),
        'ㄕ' => Some(95),
        'ㄗ' => Some(96),
        'ㄘ' => Some(97),
        'ㄙ' => Some(98),
        '月' => Some(99),
        'ㄚ' => Some(100),
        'ɨ' => Some(101),
        'ɪ' => Some(102),
        'ʝ' => Some(103),
        'ㄛ' => Some(104),
        'ㄝ' => Some(105),
        'ㄞ' => Some(106),
        'ㄟ' => Some(107),
        'ㄠ' => Some(108),
        'ㄡ' => Some(109),
        'ɯ' => Some(110),
        'ɰ' => Some(111),
        'ŋ' => Some(112),
        'ɳ' => Some(113),
        'ɲ' => Some(114),
        'ɴ' => Some(115),
        'ø' => Some(116),
        'ㄢ' => Some(117),
        'ɸ' => Some(118),
        'θ' => Some(119),
        'œ' => Some(120),
        'ㄣ' => Some(121),
        'ㄤ' => Some(122),
        'ɹ' => Some(123),
        'ㄥ' => Some(124),
        'ɾ' => Some(125),
        'ㄖ' => Some(126),
        'ㄧ' => Some(127),
        'ʁ' => Some(128),
        'ɽ' => Some(129),
        'ʂ' => Some(130),
        'ʃ' => Some(131),
        'ʈ' => Some(132),
        'ʧ' => Some(133),
        'ㄨ' => Some(134),
        'ʊ' => Some(135),
        'ʋ' => Some(136),
        'ㄩ' => Some(137),
        'ʌ' => Some(138),
        'ɣ' => Some(139),
        'ㄜ' => Some(140),
        'ㄭ' => Some(141),
        'χ' => Some(142),
        'ʎ' => Some(143),
        '十' => Some(144),
        '压' => Some(145),
        '言' => Some(146),
        'ʒ' => Some(147),
        'ʔ' => Some(148),
        '阳' => Some(149),
        '要' => Some(150),
        '阴' => Some(151),
        '应' => Some(152),
        '用' => Some(153),
        '又' => Some(154),
        '中' => Some(155),
        'ˈ' => Some(156),
        'ˌ' => Some(157),
        'ː' => Some(158),
        '穵' => Some(159),
        '外' => Some(160),
        '万' => Some(161),
        'ʰ' => Some(162),
        'ʲ' => Some(164),
        '为' => Some(165),
        '文' => Some(166),
        '瓮' => Some(167),
        '我' => Some(168),
        '3' => Some(169),
        '5' => Some(170),
        '1' => Some(171),
        '2' => Some(172),
        '4' => Some(173),
        '元' => Some(175),
        '云' => Some(176),
        'ᵻ' => Some(177),
        _ => None,
    }
}

/// The second generation's table extends the first: every symbol the first one
/// knows has the same id in the second.
pub proof fn lemma_v11_extends_v10(c: char)
    ensures
        vocab_v10(c) is Some ==> vocab_v11(c) == vocab_v10(c),
{
}

} // verus!
