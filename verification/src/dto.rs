use vstd::prelude::*;

use crate::color::ColorU8;
use crate::text::{
    IntErrorKind, parse_uint, parse_uint_spec, split_whitespace, views, words,
};

verus! {

/// How a film turns colors into black and white dots, as a scene file names it.
#[derive(Debug, Clone, Copy, PartialEq, Eq, Structural)]
pub enum DitheringDTO {
    /// No dithering: colors are kept.
    Disabled,
    Bayer,
    WhiteNoise,
    BlueNoise,
}

impl Default for DitheringDTO {
    fn default() -> (d: Self)
        ensures
            d == DitheringDTO::Disabled,
    {
        DitheringDTO::Disabled
    }
}

/// A background as a scene file gives it: one color, or one color per corner.
#[derive(Debug, Clone, Copy)]
pub enum BackgroundDTO {
    SingleColor { color: ColorU8 },
    FourColors { bl: ColorU8, tl: ColorU8, tr: ColorU8, br: ColorU8 },
}

/// A list of values given as one white-space separated text.
pub struct ArrayDTO<T>(pub Vec<T>);

/// An integrator as a scene file names it.
pub enum IntegratorDTO {
    Flat,
    NormalMap,
    BlinnPhong { depth: u8 },
    CelShading { mapping_interval: ArrayDTO<u8> },
}

/// How the primitives of a scene are gathered for intersection tests.
#[derive(Debug, Clone, Copy, PartialEq, Eq, Structural)]
pub enum AggregatorDTO {
    /// A plain list.
    List,
    /// A bounding-volume hierarchy with at most `max_prims_per_node` primitives per leaf
    /// (where the split heuristic allows).
    Bvh { max_prims_per_node: usize },
}

/// Why a text is not the list of numbers it should be.
#[derive(Debug, Clone, Copy, PartialEq, Eq, Structural)]
pub enum TextError {
    /// The text has the wrong number of components.
    ComponentCount,
    /// A component is not a number of the expected type.
    Int(IntErrorKind),
}

/// How many white-space separated components a value of a scene file has.
#[derive(Debug, Clone, Copy, PartialEq, Eq, Structural)]
pub enum ComponentCount {
    /// Exactly this many.
    Exactly(usize),
    /// Any multiple of this many, none included.
    MultipleOf(usize),
}

/// Whether `n` components are as many as `count` asks for.
pub open spec fn count_fits(n: int, count: ComponentCount) -> bool {
    match count {
        ComponentCount::Exactly(k) => n == k,
        ComponentCount::MultipleOf(k) => n % (k as int) == 0,
    }
}

/// The white-space separated components of `s`, where there are as many as `count` asks for;
/// the components themselves are read by the caller.
pub fn components(s: &str, count: ComponentCount) -> (r: Result<Vec<Vec<char>>, TextError>)
    requires
        count matches ComponentCount::MultipleOf(k) ==> k > 0,
    ensures
        r is Ok <==> count_fits(words(s@).len() as int, count),
        r matches Ok(ws) ==> views(ws@) == words(s@),
        r matches Err(e) ==> e == TextError::ComponentCount,
{
    let ws = split_whitespace(s);
    let fits = match count {
        ComponentCount::Exactly(k) => ws.len() == k,
        ComponentCount::MultipleOf(k) => ws.len() % k == 0,
    };
    if fits {
        Ok(ws)
    } else {
        Err(TextError::ComponentCount)
    }
}

/// Reads the words `ws` in order as unsigned integers no larger than `max`; the first word
/// that fails decides the error.
pub open spec fn parse_all_spec(ws: Seq<Seq<char>>, max: int) -> Result<Seq<int>, IntErrorKind>
    decreases ws.len(),
{
    if ws.len() == 0 {
        Ok(seq![])
    } else {
        match parse_all_spec(ws.drop_last(), max) {
            Err(e) => Err(e),
            Ok(vs) => match parse_uint_spec(ws.last(), max) {
                Err(e) => Err(e),
                Ok(v) => Ok(vs.push(v)),
            },
        }
    }
}

proof fn lemma_parse_all_len(ws: Seq<Seq<char>>, max: int)
    ensures
        parse_all_spec(ws, max) matches Ok(vs) ==> vs.len() == ws.len(),
    decreases ws.len(),
{
    if ws.len() > 0 {
        lemma_parse_all_len(ws.drop_last(), max);
    }
}

/// Reads all the words as numbers; see `parse_all_spec`.
fn parse_all(ws: &Vec<Vec<char>>, max: u64) -> (r: Result<Vec<u64>, IntErrorKind>)
    requires
        max >= 9,
    ensures
        match parse_all_spec(views(ws@), max as int) {
            Ok(vs) => r matches Ok(out) && out@.len() == vs.len() && forall|i: int|
                0 <= i < vs.len() ==> #[trigger] out@[i] == vs[i],
            Err(e) => r == Err::<Vec<u64>, IntErrorKind>(e),
        },
{
    let mut out: Vec<u64> = Vec::new();
    let mut i: usize = 0;
    proof {
        assert(views(ws@).take(0) == Seq::<Seq<char>>::empty());
    }
    while i < ws.len()
        invariant
            i <= ws@.len(),
            max >= 9,
            parse_all_spec(views(ws@).take(i as int), max as int) matches Ok(vs) && out@.len()
                == vs.len() && forall|j: int| 0 <= j < vs.len() ==> #[trigger] out@[j] == vs[j],
        decreases ws@.len() - i,
    {
        let ghost part = views(ws@).take(i + 1);
        proof {
            assert(part.drop_last() == views(ws@).take(i as int));
            assert(part.last() == ws@[i as int]@);
        }
        match parse_uint(&ws[i], max) {
            Ok(v) => {
                out.push(v);
            },
            Err(e) => {
                proof {
                    lemma_parse_all_error_sticks(views(ws@), i + 1, max as int);
                }
                return Err(e);
            },
        }
        i = i + 1;
    }
    proof {
        assert(views(ws@).take(ws@.len() as int) == views(ws@));
    }
    Ok(out)
}

/// Once a prefix of the words fails, the whole list fails the same way.
proof fn lemma_parse_all_error_sticks(ws: Seq<Seq<char>>, i: int, max: int)
    requires
        0 <= i <= ws.len(),
        parse_all_spec(ws.take(i), max) is Err,
    ensures
        parse_all_spec(ws, max) == parse_all_spec(ws.take(i), max),
    decreases ws.len() - i,
{
    if i < ws.len() {
        assert(ws.take(i + 1).drop_last() == ws.take(i));
        lemma_parse_all_error_sticks(ws, i + 1, max);
    } else {
        assert(ws.take(i) == ws);
    }
}

/// The color that the text `s` gives as three white-space separated bytes (red, green, blue).
pub open spec fn color_u8_spec(s: Seq<char>) -> Result<ColorU8, TextError> {
    let ws = words(s);
    if ws.len() != 3 {
        Err(TextError::ComponentCount)
    } else {
        match parse_all_spec(ws, u8::MAX as int) {
            Err(e) => Err(TextError::Int(e)),
            Ok(vs) => Ok(ColorU8 { red: vs[0] as u8, green: vs[1] as u8, blue: vs[2] as u8 }),
        }
    }
}

/// The colors that the text `s` gives as consecutive triples of bytes.
pub open spec fn color_list_spec(s: Seq<char>) -> Result<Seq<ColorU8>, TextError> {
    let ws = words(s);
    if ws.len() % 3 != 0 {
        Err(TextError::ComponentCount)
    } else {
        match parse_all_spec(ws, u8::MAX as int) {
            Err(e) => Err(TextError::Int(e)),
            Ok(vs) => Ok(
                Seq::new(
                    ws.len() / 3,
                    |i: int|
                        ColorU8 {
                            red: vs[3 * i] as u8,
                            green: vs[3 * i + 1] as u8,
                            blue: vs[3 * i + 2] as u8,
                        },
                ),
            ),
        }
    }
}

/// The numbers no larger than `max` that the text `s` gives, separated by white space.
pub open spec fn number_list_spec(s: Seq<char>, max: int) -> Result<Seq<int>, TextError> {
    match parse_all_spec(words(s), max) {
        Err(e) => Err(TextError::Int(e)),
        Ok(vs) => Ok(vs),
    }
}

proof fn lemma_parse_all_bounded(ws: Seq<Seq<char>>, max: int)
    requires
        max >= 0,
    ensures
        parse_all_spec(ws, max) matches Ok(vs) ==> forall|i: int|
            0 <= i < vs.len() ==> 0 <= #[trigger] vs[i] <= max,
    decreases ws.len(),
{
    if ws.len() > 0 {
        lemma_parse_all_bounded(ws.drop_last(), max);
        lemma_uint_bounded(ws.last(), max);
    }
}

proof fn lemma_uint_bounded(s: Seq<char>, max: int)
    requires
        max >= 0,
    ensures
        parse_uint_spec(s, max) matches Ok(v) ==> 0 <= v <= max,
{
    if s.len() > 0 {
        crate::text::lemma_scan_bounded(s.drop_first(), max);
        crate::text::lemma_scan_bounded(s, max);
    }
}

impl ColorU8 {
    /// The color that `s` gives; see `color_u8_spec`.
    pub fn parse(s: &str) -> (r: Result<ColorU8, TextError>)
        ensures
            r == color_u8_spec(s@),
    {
        let ws = split_whitespace(s);
        if ws.len() != 3 {
            return Err(TextError::ComponentCount);
        }
        proof {
            lemma_parse_all_len(views(ws@), u8::MAX as int);
            lemma_parse_all_bounded(views(ws@), u8::MAX as int);
        }
        match parse_all(&ws, u8::MAX as u64) {
            Err(e) => Err(TextError::Int(e)),
            Ok(vs) => Ok(
                ColorU8 { red: vs[0] as u8, green: vs[1] as u8, blue: vs[2] as u8 },
            ),
        }
    }

    /// The colors that `s` gives as consecutive triples of bytes; see `color_list_spec`.
    pub fn parse_list(s: &str) -> (r: Result<Vec<ColorU8>, TextError>)
        ensures
            match color_list_spec(s@) {
                Ok(cs) => r matches Ok(out) && out@ == cs,
                Err(e) => r == Err::<Vec<ColorU8>, TextError>(e),
            },
    {
        let ws = split_whitespace(s);
        if ws.len() % 3 != 0 {
            return Err(TextError::ComponentCount);
        }
        proof {
            lemma_parse_all_len(views(ws@), u8::MAX as int);
            lemma_parse_all_bounded(views(ws@), u8::MAX as int);
        }
        let vs = match parse_all(&ws, u8::MAX as u64) {
            Err(e) => {
                return Err(TextError::Int(e));
            },
            Ok(vs) => vs,
        };
        let ghost spec_vs = parse_all_spec(views(ws@), u8::MAX as int)->Ok_0;
        let len = ws.len();
        let n = len / 3;
        let mut out: Vec<ColorU8> = Vec::new();
        let mut i: usize = 0;
        while i < n
            invariant
                i <= n,
                n == ws@.len() / 3,
                len == ws@.len(),
                ws@.len() % 3 == 0,
                vs@.len() == ws@.len(),
                spec_vs.len() == ws@.len(),
                forall|j: int| 0 <= j < spec_vs.len() ==> #[trigger] vs@[j] == spec_vs[j],
                forall|j: int| 0 <= j < spec_vs.len() ==> 0 <= #[trigger] spec_vs[j] <= u8::MAX,
                out@.len() == i,
                forall|j: int|
                    0 <= j < i ==> #[trigger] out@[j] == (ColorU8 {
                        red: spec_vs[3 * j] as u8,
                        green: spec_vs[3 * j + 1] as u8,
                        blue: spec_vs[3 * j + 2] as u8,
                    }),
            decreases n - i,
        {
            proof {
                assert(3 * i + 2 < len) by (nonlinear_arith)
                    requires
                        i < n,
                        n == len / 3,
                        len % 3 == 0,
                ;
            }
            let red = vs[3 * i] as u8;
            let green = vs[3 * i + 1] as u8;
            let blue = vs[3 * i + 2] as u8;
            out.push(ColorU8 { red, green, blue });
            i = i + 1;
        }
        proof {
            let cs = color_list_spec(s@)->Ok_0;
            assert(out@ =~= cs);
        }
        Ok(out)
    }
}

impl ArrayDTO<u8> {
    /// The bytes that `s` gives, separated by white space; see `number_list_spec`.
    pub fn parse(s: &str) -> (r: Result<ArrayDTO<u8>, TextError>)
        ensures
            match number_list_spec(s@, u8::MAX as int) {
                Ok(vs) => r matches Ok(a) && a.0@.len() == vs.len() && forall|i: int|
                    0 <= i < vs.len() ==> #[trigger] a.0@[i] == vs[i],
                Err(e) => r matches Err(e2) && e2 == e,
            },
    {
        let ws = split_whitespace(s);
        proof {
            lemma_parse_all_bounded(views(ws@), u8::MAX as int);
        }
        let vs = match parse_all(&ws, u8::MAX as u64) {
            Err(e) => {
                return Err(TextError::Int(e));
            },
            Ok(vs) => vs,
        };
        let ghost spec_vs = parse_all_spec(views(ws@), u8::MAX as int)->Ok_0;
        let mut out: Vec<u8> = Vec::new();
        let mut i: usize = 0;
        while i < vs.len()
            invariant
                i <= vs@.len(),
                vs@.len() == spec_vs.len(),
                forall|j: int| 0 <= j < spec_vs.len() ==> #[trigger] vs@[j] == spec_vs[j],
                forall|j: int| 0 <= j < spec_vs.len() ==> 0 <= #[trigger] spec_vs[j] <= u8::MAX,
                out@.len() == i,
                forall|j: int| 0 <= j < i ==> #[trigger] out@[j] == spec_vs[j],
            decreases vs@.len() - i,
        {
            out.push(vs[i] as u8);
            i = i + 1;
        }
        Ok(ArrayDTO(out))
    }
}

impl ArrayDTO<u32> {
    /// The 32-bit numbers that `s` gives, separated by white space; see `number_list_spec`.
    pub fn parse(s: &str) -> (r: Result<ArrayDTO<u32>, TextError>)
        ensures
            match number_list_spec(s@, u32::MAX as int) {
                Ok(vs) => r matches Ok(a) && a.0@.len() == vs.len() && forall|i: int|
                    0 <= i < vs.len() ==> #[trigger] a.0@[i] == vs[i],
                Err(e) => r matches Err(e2) && e2 == e,
            },
    {
        let ws = split_whitespace(s);
        proof {
            lemma_parse_all_bounded(views(ws@), u32::MAX as int);
        }
        let vs = match parse_all(&ws, u32::MAX as u64) {
            Err(e) => {
                return Err(TextError::Int(e));
            },
            Ok(vs) => vs,
        };
        let ghost spec_vs = parse_all_spec(views(ws@), u32::MAX as int)->Ok_0;
        let mut out: Vec<u32> = Vec::new();
        let mut i: usize = 0;
        while i < vs.len()
            invariant
                i <= vs@.len(),
                vs@.len() == spec_vs.len(),
                forall|j: int| 0 <= j < spec_vs.len() ==> #[trigger] vs@[j] == spec_vs[j],
                forall|j: int| 0 <= j < spec_vs.len() ==> 0 <= #[trigger] spec_vs[j] <= u32::MAX,
                out@.len() == i,
                forall|j: int| 0 <= j < i ==> #[trigger] out@[j] == spec_vs[j],
            decreases vs@.len() - i,
        {
            out.push(vs[i] as u32);
            i = i + 1;
        }
        Ok(ArrayDTO(out))
    }
}

/// Reading a list of words as numbers reads each word on its own: the list reads exactly
/// when every word does, giving their numbers in order; otherwise the error is that of the
/// first word that does not read.
proof fn lemma_parse_all_each(ws: Seq<Seq<char>>, max: int)
    ensures
        parse_all_spec(ws, max) is Ok <==> forall|j: int|
            0 <= j < ws.len() ==> #[trigger] parse_uint_spec(ws[j], max) is Ok,
        parse_all_spec(ws, max) matches Ok(vs) ==> vs.len() == ws.len() && forall|j: int|
            0 <= j < ws.len() ==> #[trigger] parse_uint_spec(ws[j], max) == Ok::<
                int,
                IntErrorKind,
            >(vs[j]),
        parse_all_spec(ws, max) matches Err(e) ==> exists|j: int|
            0 <= j < ws.len() && #[trigger] parse_uint_spec(ws[j], max) == Err::<int, IntErrorKind>(
                e,
            ) && forall|k: int| 0 <= k < j ==> #[trigger] parse_uint_spec(ws[k], max) is Ok,
    decreases ws.len(),
{
    if ws.len() > 0 {
        let p = ws.drop_last();
        let n = ws.len() - 1;
        lemma_parse_all_each(p, max);
        assert forall|j: int| 0 <= j < p.len() implies p[j] == ws[j] by {}
        match parse_all_spec(p, max) {
            Err(e) => {
                let j = choose|j: int|
                    0 <= j < p.len() && #[trigger] parse_uint_spec(p[j], max) == Err::<
                        int,
                        IntErrorKind,
                    >(e) && forall|k: int| 0 <= k < j ==> #[trigger] parse_uint_spec(p[k], max) is Ok;
                assert(parse_uint_spec(ws[j], max) == Err::<int, IntErrorKind>(e));
                assert forall|k: int| 0 <= k < j implies #[trigger] parse_uint_spec(ws[k], max) is Ok by {
                    assert(parse_uint_spec(p[k], max) is Ok);
                }
                assert(!(parse_uint_spec(ws[j], max) is Ok));
            },
            Ok(vs) => {
                assert forall|k: int| 0 <= k < n implies #[trigger] parse_uint_spec(ws[k], max) is Ok by {
                    assert(parse_uint_spec(p[k], max) is Ok);
                }
                match parse_uint_spec(ws.last(), max) {
                    Err(e) => {
                        assert(parse_uint_spec(ws[n], max) == Err::<int, IntErrorKind>(e));
                    },
                    Ok(v) => {
                        let out = vs.push(v);
                        assert forall|j: int| 0 <= j < ws.len() implies #[trigger] parse_uint_spec(
                            ws[j],
                            max,
                        ) == Ok::<int, IntErrorKind>(out[j]) by {
                            if j < n {
                                assert(parse_uint_spec(p[j], max) == Ok::<int, IntErrorKind>(vs[j]));
                            }
                        }
                    },
                }
            },
        }
    }
}

/// A color is read from exactly three words, red, green and blue in that order, each a byte;
/// the wrong number of words is refused first, and otherwise the first word that is not a
/// byte decides the error.
pub proof fn law_color_reads_three_words(s: Seq<char>)
    ensures
        words(s).len() != 3 ==> color_u8_spec(s) == Err::<ColorU8, TextError>(
            TextError::ComponentCount,
        ),
        words(s).len() == 3 ==> (color_u8_spec(s) is Ok <==> forall|j: int|
            0 <= j < 3 ==> #[trigger] parse_uint_spec(words(s)[j], 255) is Ok),
        color_u8_spec(s) matches Ok(c) ==> {
            &&& parse_uint_spec(words(s)[0], 255) == Ok::<int, IntErrorKind>(c.red as int)
            &&& parse_uint_spec(words(s)[1], 255) == Ok::<int, IntErrorKind>(c.green as int)
            &&& parse_uint_spec(words(s)[2], 255) == Ok::<int, IntErrorKind>(c.blue as int)
        },
        color_u8_spec(s) matches Err(TextError::Int(e)) ==> exists|j: int|
            0 <= j < words(s).len() && #[trigger] parse_uint_spec(words(s)[j], 255) == Err::<
                int,
                IntErrorKind,
            >(e) && forall|k: int| 0 <= k < j ==> #[trigger] parse_uint_spec(words(s)[k], 255) is Ok,
{
    let ws = words(s);
    lemma_parse_all_each(ws, 255);
    if ws.len() == 3 {
        if let Ok(vs) = parse_all_spec(ws, 255) {
            lemma_uint_bounded(ws[0], 255);
            lemma_uint_bounded(ws[1], 255);
            lemma_uint_bounded(ws[2], 255);
            assert(parse_uint_spec(ws[0], 255) == Ok::<int, IntErrorKind>(vs[0]));
            assert(parse_uint_spec(ws[1], 255) == Ok::<int, IntErrorKind>(vs[1]));
            assert(parse_uint_spec(ws[2], 255) == Ok::<int, IntErrorKind>(vs[2]));
        }
    }
}

/// A color list is read from consecutive triples of words: color `i` has the byte of word
/// `3 i` as red, of word `3 i + 1` as green and of word `3 i + 2` as blue, and there is one
/// color per triple. A number of words that is not a multiple of three is refused first;
/// otherwise the list reads exactly when every word is a byte, and the first word that is not
/// decides the error.
pub proof fn law_color_list_reads_triples(s: Seq<char>)
    ensures
        words(s).len() % 3 != 0 ==> color_list_spec(s) == Err::<Seq<ColorU8>, TextError>(
            TextError::ComponentCount,
        ),
        words(s).len() % 3 == 0 ==> (color_list_spec(s) is Ok <==> forall|j: int|
            0 <= j < words(s).len() ==> #[trigger] parse_uint_spec(words(s)[j], 255) is Ok),
        color_list_spec(s) matches Ok(cs) ==> 3 * cs.len() == words(s).len() && forall|i: int|
            0 <= i < cs.len() ==> {
                &&& parse_uint_spec(words(s)[3 * i], 255) == Ok::<int, IntErrorKind>(
                    #[trigger] cs[i].red as int,
                )
                &&& parse_uint_spec(words(s)[3 * i + 1], 255) == Ok::<int, IntErrorKind>(
                    cs[i].green as int,
                )
                &&& parse_uint_spec(words(s)[3 * i + 2], 255) == Ok::<int, IntErrorKind>(
                    cs[i].blue as int,
                )
            },
        color_list_spec(s) matches Err(TextError::Int(e)) ==> exists|j: int|
            0 <= j < words(s).len() && #[trigger] parse_uint_spec(words(s)[j], 255) == Err::<
                int,
                IntErrorKind,
            >(e) && forall|k: int| 0 <= k < j ==> #[trigger] parse_uint_spec(words(s)[k], 255) is Ok,
{
    let ws = words(s);
    lemma_parse_all_each(ws, 255);
    if ws.len() % 3 == 0 {
        if let Ok(vs) = parse_all_spec(ws, 255) {
            let cs = color_list_spec(s)->Ok_0;
            assert forall|i: int| 0 <= i < cs.len() implies {
                &&& parse_uint_spec(ws[3 * i], 255) == Ok::<int, IntErrorKind>(
                    #[trigger] cs[i].red as int,
                )
                &&& parse_uint_spec(ws[3 * i + 1], 255) == Ok::<int, IntErrorKind>(
                    cs[i].green as int,
                )
                &&& parse_uint_spec(ws[3 * i + 2], 255) == Ok::<int, IntErrorKind>(
                    cs[i].blue as int,
                )
            } by {
                assert(3 * i + 2 < ws.len());
                lemma_uint_bounded(ws[3 * i], 255);
                lemma_uint_bounded(ws[3 * i + 1], 255);
                lemma_uint_bounded(ws[3 * i + 2], 255);
                assert(parse_uint_spec(ws[3 * i], 255) == Ok::<int, IntErrorKind>(vs[3 * i]));
                assert(parse_uint_spec(ws[3 * i + 1], 255) == Ok::<int, IntErrorKind>(
                    vs[3 * i + 1],
                ));
                assert(parse_uint_spec(ws[3 * i + 2], 255) == Ok::<int, IntErrorKind>(
                    vs[3 * i + 2],
                ));
            }
        }
    }
}

/// A list of numbers is read word by word: it reads exactly when every word is a number no
/// larger than `max`, giving one number per word in order; otherwise the first word that does
/// not read decides the error. The number of words is never refused.
pub proof fn law_number_list_reads_each_word(s: Seq<char>, max: int)
    ensures
        number_list_spec(s, max) is Ok <==> forall|j: int|
            0 <= j < words(s).len() ==> #[trigger] parse_uint_spec(words(s)[j], max) is Ok,
        number_list_spec(s, max) matches Ok(vs) ==> vs.len() == words(s).len() && forall|j: int|
            0 <= j < vs.len() ==> #[trigger] parse_uint_spec(words(s)[j], max) == Ok::<
                int,
                IntErrorKind,
            >(vs[j]),
        number_list_spec(s, max) != Err::<Seq<int>, TextError>(TextError::ComponentCount),
        number_list_spec(s, max) matches Err(TextError::Int(e)) ==> exists|j: int|
            0 <= j < words(s).len() && #[trigger] parse_uint_spec(words(s)[j], max) == Err::<
                int,
                IntErrorKind,
            >(e) && forall|k: int| 0 <= k < j ==> #[trigger] parse_uint_spec(words(s)[k], max) is Ok,
{
    lemma_parse_all_each(words(s), max);
}

} // verus!
