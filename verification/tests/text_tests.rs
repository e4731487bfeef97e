use raytracer::color::ColorU8;
use raytracer::dto::{ArrayDTO, ComponentCount, DitheringDTO, TextError, components};
use raytracer::text::{
    IntErrorKind, chars_of, parse_bool, parse_u16, parse_u32, parse_u8, parse_usize,
    split_whitespace, white_space,
};

fn chars(s: &str) -> Vec<char> {
    s.chars().collect()
}

fn words(s: &str) -> Vec<String> {
    split_whitespace(s).into_iter().map(|w| w.into_iter().collect()).collect()
}

fn std_kind(e: &std::num::ParseIntError) -> IntErrorKind {
    match e.kind() {
        std::num::IntErrorKind::Empty => IntErrorKind::Empty,
        std::num::IntErrorKind::InvalidDigit => IntErrorKind::InvalidDigit,
        std::num::IntErrorKind::PosOverflow => IntErrorKind::PosOverflow,
        _ => panic!("unexpected error kind"),
    }
}

const SAMPLES: &[&str] = &[
    "", "0", "7", "+7", "+", "-", "-1", "-0", "255", "256", "0255", "00000000000000000009",
    "999x", "99x9", "12a", "a12", " 1", "1 ", "65535", "65536", "4294967295", "4294967296",
    "18446744073709551615", "18446744073709551616", "+-1", "++1", "1_000", "٣", "１",
];

#[test]
fn split_whitespace_matches_std() {
    let samples = [
        "",
        "   ",
        "a",
        "  1 2\t3\n",
        "0.1\u{a0}0.2\u{3000}0.3",
        "x\u{2028}y\u{85}z",
        "lonely",
        "a  b   c",
    ];
    for s in samples {
        let expected: Vec<String> = s.split_whitespace().map(|w| w.to_string()).collect();
        assert_eq!(words(s), expected, "words of {s:?}");
    }
}

#[test]
fn white_space_matches_std() {
    for c in (0u32..0x3100).filter_map(char::from_u32) {
        assert_eq!(white_space(c), c.is_whitespace(), "{c:?}");
    }
}

#[test]
fn chars_of_keeps_every_character() {
    assert_eq!(chars_of("héllo ✓"), chars("héllo ✓"));
}

#[test]
fn integers_parse_as_std_does() {
    for s in SAMPLES {
        let c = chars(s);
        assert_eq!(parse_u8(&c), s.parse::<u8>().map_err(|e| std_kind(&e)), "u8 {s:?}");
        assert_eq!(parse_u16(&c), s.parse::<u16>().map_err(|e| std_kind(&e)), "u16 {s:?}");
        assert_eq!(parse_u32(&c), s.parse::<u32>().map_err(|e| std_kind(&e)), "u32 {s:?}");
        assert_eq!(parse_usize(&c), s.parse::<usize>().map_err(|e| std_kind(&e)), "usize {s:?}");
    }
}

#[test]
fn integer_errors() {
    assert_eq!(parse_u8(&chars("")), Err(IntErrorKind::Empty));
    assert_eq!(parse_u8(&chars("+")), Err(IntErrorKind::InvalidDigit));
    assert_eq!(parse_u8(&chars("-3")), Err(IntErrorKind::InvalidDigit));
    assert_eq!(parse_u8(&chars("300")), Err(IntErrorKind::PosOverflow));
    assert_eq!(parse_u8(&chars("999x")), Err(IntErrorKind::PosOverflow));
    assert_eq!(parse_u8(&chars("9x99")), Err(IntErrorKind::InvalidDigit));
    assert_eq!(parse_u8(&chars("+42")), Ok(42));
    assert_eq!(parse_u16(&chars("1920")), Ok(1920));
}

#[test]
fn booleans_parse_as_std_does() {
    for s in ["true", "false", "True", "", " true", "false ", "1", "yes"] {
        assert_eq!(parse_bool(&chars(s)), s.parse::<bool>().ok(), "{s:?}");
    }
}

#[test]
fn color_u8_parses_three_components() {
    assert_eq!(ColorU8::parse("176 214 175"), Ok(ColorU8 { red: 176, green: 214, blue: 175 }));
    assert_eq!(ColorU8::parse("  4\t99 202 "), Ok(ColorU8 { red: 4, green: 99, blue: 202 }));
    assert_eq!(ColorU8::parse("1 2"), Err(TextError::ComponentCount));
    assert_eq!(ColorU8::parse("1 2 3 4"), Err(TextError::ComponentCount));
    assert_eq!(ColorU8::parse("1 256 x"), Err(TextError::Int(IntErrorKind::PosOverflow)));
    assert_eq!(ColorU8::parse("1 x 256"), Err(TextError::Int(IntErrorKind::InvalidDigit)));
    assert_eq!(ColorU8::parse("0.5 0.5 0.5"), Err(TextError::Int(IntErrorKind::InvalidDigit)));
}

#[test]
fn color_lists_parse_in_triples() {
    let colors = ColorU8::parse_list("255 0 0  0 255 0\n0 0 255").unwrap();
    assert_eq!(
        colors,
        vec![
            ColorU8 { red: 255, green: 0, blue: 0 },
            ColorU8 { red: 0, green: 255, blue: 0 },
            ColorU8 { red: 0, green: 0, blue: 255 },
        ]
    );
    assert_eq!(ColorU8::parse_list("").unwrap(), vec![]);
    assert_eq!(ColorU8::parse_list("1 2 3 4"), Err(TextError::ComponentCount));
    assert_eq!(ColorU8::parse_list("1 2 3 4 5 -6"), Err(TextError::Int(IntErrorKind::InvalidDigit)));
}

#[test]
fn arrays_parse_every_word() {
    assert_eq!(ArrayDTO::<u8>::parse("30 60 90").map(|a| a.0), Ok(vec![30, 60, 90]));
    assert_eq!(ArrayDTO::<u8>::parse("").map(|a| a.0), Ok(vec![]));
    assert_eq!(
        ArrayDTO::<u8>::parse("30 600 9x").map(|a| a.0),
        Err(TextError::Int(IntErrorKind::PosOverflow))
    );
    assert_eq!(
        ArrayDTO::<u32>::parse("0 1 2  2 3 0 4000000000").map(|a| a.0),
        Ok(vec![0, 1, 2, 2, 3, 0, 4_000_000_000])
    );
    assert_eq!(
        ArrayDTO::<u32>::parse("1 2 4294967296").map(|a| a.0),
        Err(TextError::Int(IntErrorKind::PosOverflow))
    );
}

#[test]
fn dithering_defaults_to_disabled() {
    assert_eq!(DitheringDTO::default(), DitheringDTO::Disabled);
}

fn as_strings(ws: Vec<Vec<char>>) -> Vec<String> {
    ws.into_iter().map(|w| w.into_iter().collect()).collect()
}

#[test]
fn components_are_counted() {
    let ok = components(" 1.5  -2\t3e4 ", ComponentCount::Exactly(3)).unwrap();
    assert_eq!(as_strings(ok), vec!["1.5", "-2", "3e4"]);
    assert_eq!(components("1 2", ComponentCount::Exactly(3)), Err(TextError::ComponentCount));
    assert_eq!(components("1 2 3 4", ComponentCount::Exactly(3)), Err(TextError::ComponentCount));
    assert_eq!(as_strings(components("", ComponentCount::MultipleOf(2)).unwrap()), Vec::<String>::new());
    assert_eq!(
        as_strings(components("a b c d", ComponentCount::MultipleOf(2)).unwrap()),
        vec!["a", "b", "c", "d"]
    );
    assert_eq!(components("a b c d", ComponentCount::MultipleOf(3)), Err(TextError::ComponentCount));
    assert_eq!(components("0 0 1 1", ComponentCount::Exactly(4)).map(|w| w.len()), Ok(4));
}
