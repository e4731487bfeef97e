use vstd::prelude::*;

verus! {

/// Whether `c` is white space in the sense of Unicode's `White_Space` property.
pub open spec fn is_white_space(c: char) -> bool {
    ||| '\u{9}' <= c <= '\u{d}'
    ||| c == ' '
    ||| c == '\u{85}'
    ||| c == '\u{a0}'
    ||| c == '\u{1680}'
    ||| '\u{2000}' <= c <= '\u{200a}'
    ||| c == '\u{2028}'
    ||| c == '\u{2029}'
    ||| c == '\u{202f}'
    ||| c == '\u{205f}'
    ||| c == '\u{3000}'
}

/// Whether `c` is white space; see `is_white_space`.
pub fn white_space(c: char) -> (r: bool)
    ensures
        r == is_white_space(c),
{
    ('\u{9}' <= c && c <= '\u{d}') || c == ' ' || c == '\u{85}' || c == '\u{a0}' || c
        == '\u{1680}' || ('\u{2000}' <= c && c <= '\u{200a}') || c == '\u{2028}' || c
        == '\u{2029}' || c == '\u{202f}' || c == '\u{205f}' || c == '\u{3000}'
}

/// The words of `s`: its longest runs of characters that are not white space, in order.
pub open spec fn words(s: Seq<char>) -> Seq<Seq<char>>
    decreases s.len(),
{
    if s.len() == 0 {
        seq![]
    } else {
        let init = s.drop_last();
        let c = s.last();
        if is_white_space(c) {
            words(init)
        } else if init.len() > 0 && !is_white_space(init.last()) {
            let w = words(init);
            w.update(w.len() - 1, w.last().push(c))
        } else {
            words(init).push(seq![c])
        }
    }
}

/// The characters of `s`.
pub fn chars_of(s: &str) -> (v: Vec<char>)
    ensures
        v@ == s@,
{
    let mut v: Vec<char> = Vec::new();
    for c in it: s.chars()
        invariant
            v@ == it.seq().take(it.index() as int),
            it.seq() == s@,
    {
        v.push(c);
    }
    v
}

/// The views of a list of character vectors.
pub open spec fn views(v: Seq<Vec<char>>) -> Seq<Seq<char>> {
    v.map_values(|w: Vec<char>| w@)
}

/// The words of `s`, split at white space.
pub fn split_whitespace(s: &str) -> (r: Vec<Vec<char>>)
    ensures
        views(r@) == words(s@),
{
    let cs = chars_of(s);
    let mut done: Vec<Vec<char>> = Vec::new();
    let mut cur: Vec<char> = Vec::new();
    let mut in_word = false;
    let mut i: usize = 0;
    proof {
        assert(cs@.take(0) == Seq::<char>::empty());
        assert(views(done@) == Seq::<Seq<char>>::empty());
    }
    while i < cs.len()
        invariant
            i <= cs@.len(),
            cs@ == s@,
            in_word ==> i > 0 && !is_white_space(cs@[i - 1]) && words(cs@.take(i as int)) == views(
                done@,
            ).push(cur@),
            !in_word ==> (i == 0 || is_white_space(cs@[i - 1])) && words(cs@.take(i as int))
                == views(done@),
        decreases cs@.len() - i,
    {
        let c = cs[i];
        let ghost prefix = cs@.take(i + 1);
        proof {
            assert(prefix.drop_last() == cs@.take(i as int));
            assert(prefix.last() == c);
        }
        if white_space(c) {
            if in_word {
                let w = cur;
                cur = Vec::new();
                let ghost old_done = done@;
                done.push(w);
                proof {
                    assert(views(done@) =~= views(old_done).push(w@));
                }
                in_word = false;
            }
        } else {
            if in_word {
                let ghost before = views(done@).push(cur@);
                cur.push(c);
                proof {
                    assert(words(prefix) =~= views(done@).push(cur@)) by {
                        assert(words(prefix) == before.update(before.len() - 1, before.last().push(c)));
                    }
                }
            } else {
                cur = Vec::new();
                cur.push(c);
                proof {
                    assert(cur@ == seq![c]);
                }
                in_word = true;
            }
        }
        i = i + 1;
    }
    if in_word {
        let ghost old_done = done@;
        let ghost w = cur@;
        done.push(cur);
        proof {
            assert(views(done@) =~= views(old_done).push(w));
        }
    }
    proof {
        assert(cs@.take(cs@.len() as int) == cs@);
        assert(views(done@) =~= words(s@));
    }
    done
}

/// Why a text is not an unsigned integer.
#[derive(Debug, Clone, Copy, PartialEq, Eq, Structural)]
pub enum IntErrorKind {
    /// The text is empty.
    Empty,
    /// The text holds something that is not a decimal digit (a lone sign included).
    InvalidDigit,
    /// The number is larger than the target type holds.
    PosOverflow,
}

/// Whether `c` is one of the ASCII digits `0` to `9`.
pub open spec fn is_digit(c: char) -> bool {
    '0' <= c <= '9'
}

/// The value of the decimal digit `c`.
pub open spec fn digit_value(c: char) -> int {
    c as int - '0' as int
}

/// Reads the digits `ds` from left to right into a number no larger than `max`: the first
/// character that is not a digit, or the first digit that takes the number past `max`,
/// decides the error.
pub open spec fn scan_digits(ds: Seq<char>, max: int) -> Result<int, IntErrorKind>
    decreases ds.len(),
{
    if ds.len() == 0 {
        Ok(0)
    } else {
        match scan_digits(ds.drop_last(), max) {
            Err(e) => Err(e),
            Ok(v) => if !is_digit(ds.last()) {
                Err(IntErrorKind::InvalidDigit)
            } else if v * 10 + digit_value(ds.last()) > max {
                Err(IntErrorKind::PosOverflow)
            } else {
                Ok(v * 10 + digit_value(ds.last()))
            },
        }
    }
}

/// The unsigned integer no larger than `max` that the text `s` spells: optionally a `+`,
/// then decimal digits.
pub open spec fn parse_uint_spec(s: Seq<char>, max: int) -> Result<int, IntErrorKind> {
    if s.len() == 0 {
        Err(IntErrorKind::Empty)
    } else if s.len() == 1 && (s[0] == '+' || s[0] == '-') {
        Err(IntErrorKind::InvalidDigit)
    } else if s[0] == '+' {
        scan_digits(s.drop_first(), max)
    } else {
        scan_digits(s, max)
    }
}

pub proof fn lemma_scan_bounded(ds: Seq<char>, max: int)
    requires
        max >= 0,
    ensures
        scan_digits(ds, max) matches Ok(v) ==> 0 <= v <= max,
    decreases ds.len(),
{
    if ds.len() > 0 {
        lemma_scan_bounded(ds.drop_last(), max);
    }
}

/// Reads `ds` from position `from` on, as `scan_digits` does.
fn scan_digits_exec(ds: &Vec<char>, from: usize, max: u64) -> (r: Result<u64, IntErrorKind>)
    requires
        from <= ds@.len(),
        max >= 9,
    ensures
        r == (match scan_digits(ds@.subrange(from as int, ds@.len() as int), max as int) {
            Ok(v) => Ok::<u64, IntErrorKind>(v as u64),
            Err(e) => Err(e),
        }),
        r matches Ok(v) ==> v <= max,
{
    let mut v: u64 = 0;
    let mut i: usize = from;
    proof {
        assert(ds@.subrange(from as int, from as int) == Seq::<char>::empty());
    }
    while i < ds.len()
        invariant
            from <= i <= ds@.len(),
            max >= 9,
            scan_digits(ds@.subrange(from as int, i as int), max as int) == Ok::<int, IntErrorKind>(
                v as int,
            ),
            v <= max,
        decreases ds@.len() - i,
    {
        let c = ds[i];
        let ghost part = ds@.subrange(from as int, i + 1);
        proof {
            assert(part.drop_last() == ds@.subrange(from as int, i as int));
            assert(part.last() == c);
        }
        if !('0' <= c && c <= '9') {
            proof {
                lemma_scan_error_sticks(ds@, from as int, i + 1, max as int);
            }
            return Err(IntErrorKind::InvalidDigit);
        }
        let d = (c as u32 - '0' as u32) as u64;
        if v > (max - d) / 10 {
            proof {
                lemma_scan_error_sticks(ds@, from as int, i + 1, max as int);
            }
            return Err(IntErrorKind::PosOverflow);
        }
        v = v * 10 + d;
        i = i + 1;
    }
    proof {
        assert(ds@.subrange(from as int, ds@.len() as int) == ds@.subrange(from as int, i as int));
    }
    Ok(v)
}

/// Once a prefix of the digits fails, the whole of them fails the same way.
proof fn lemma_scan_error_sticks(ds: Seq<char>, from: int, i: int, max: int)
    requires
        0 <= from <= i <= ds.len(),
        scan_digits(ds.subrange(from, i), max) is Err,
    ensures
        scan_digits(ds.subrange(from, ds.len() as int), max) == scan_digits(ds.subrange(from, i), max),
    decreases ds.len() - i,
{
    if i < ds.len() {
        assert(ds.subrange(from, i + 1).drop_last() == ds.subrange(from, i));
        lemma_scan_error_sticks(ds, from, i + 1, max);
    } else {
    }
}

/// The unsigned integer no larger than `max` that `s` spells; see `parse_uint_spec`.
pub fn parse_uint(s: &Vec<char>, max: u64) -> (r: Result<u64, IntErrorKind>)
    requires
        max >= 9,
    ensures
        r == (match parse_uint_spec(s@, max as int) {
            Ok(v) => Ok::<u64, IntErrorKind>(v as u64),
            Err(e) => Err(e),
        }),
        r matches Ok(v) ==> v <= max,
        parse_uint_spec(s@, max as int) matches Ok(v) ==> 0 <= v <= max,
{
    proof {
        if s@.len() > 0 {
            lemma_scan_bounded(s@.drop_first(), max as int);
            lemma_scan_bounded(s@, max as int);
        }
    }
    if s.len() == 0 {
        return Err(IntErrorKind::Empty);
    }
    if s.len() == 1 && (s[0] == '+' || s[0] == '-') {
        return Err(IntErrorKind::InvalidDigit);
    }
    if s[0] == '+' {
        proof {
            assert(s@.drop_first() == s@.subrange(1, s@.len() as int));
        }
        scan_digits_exec(s, 1, max)
    } else {
        proof {
            assert(s@ == s@.subrange(0, s@.len() as int));
        }
        scan_digits_exec(s, 0, max)
    }
}

/// The `u8` that `s` spells.
pub fn parse_u8(s: &Vec<char>) -> (r: Result<u8, IntErrorKind>)
    ensures
        r == (match parse_uint_spec(s@, u8::MAX as int) {
            Ok(v) => Ok::<u8, IntErrorKind>(v as u8),
            Err(e) => Err(e),
        }),
{
    match parse_uint(s, u8::MAX as u64) {
        Ok(v) => Ok(v as u8),
        Err(e) => Err(e),
    }
}

/// The `u16` that `s` spells.
pub fn parse_u16(s: &Vec<char>) -> (r: Result<u16, IntErrorKind>)
    ensures
        r == (match parse_uint_spec(s@, u16::MAX as int) {
            Ok(v) => Ok::<u16, IntErrorKind>(v as u16),
            Err(e) => Err(e),
        }),
{
    match parse_uint(s, u16::MAX as u64) {
        Ok(v) => Ok(v as u16),
        Err(e) => Err(e),
    }
}

/// The `u32` that `s` spells.
pub fn parse_u32(s: &Vec<char>) -> (r: Result<u32, IntErrorKind>)
    ensures
        r == (match parse_uint_spec(s@, u32::MAX as int) {
            Ok(v) => Ok::<u32, IntErrorKind>(v as u32),
            Err(e) => Err(e),
        }),
{
    match parse_uint(s, u32::MAX as u64) {
        Ok(v) => Ok(v as u32),
        Err(e) => Err(e),
    }
}

/// The `usize` that `s` spells.
pub fn parse_usize(s: &Vec<char>) -> (r: Result<usize, IntErrorKind>)
    ensures
        r == (match parse_uint_spec(s@, usize::MAX as int) {
            Ok(v) => Ok::<usize, IntErrorKind>(v as usize),
            Err(e) => Err(e),
        }),
{
    match parse_uint(s, usize::MAX as u64) {
        Ok(v) => Ok(v as usize),
        Err(e) => Err(e),
    }
}

/// The truth value that `s` spells: exactly `true` or exactly `false`.
pub open spec fn parse_bool_spec(s: Seq<char>) -> Option<bool> {
    if s == "true"@ {
        Some(true)
    } else if s == "false"@ {
        Some(false)
    } else {
        None
    }
}

/// Whether `s` holds exactly the characters `lit`.
fn chars_equal(s: &Vec<char>, lit: &str) -> (r: bool)
    ensures
        r == (s@ == lit@),
{
    let l = chars_of(lit);
    if s.len() != l.len() {
        return false;
    }
    let mut i: usize = 0;
    while i < s.len()
        invariant
            i <= s@.len(),
            s@.len() == l@.len(),
            l@ == lit@,
            forall|j: int| 0 <= j < i ==> s@[j] == l@[j],
        decreases s@.len() - i,
    {
        if s[i] != l[i] {
            return false;
        }
        i = i + 1;
    }
    proof {
        assert(s@ =~= l@);
    }
    true
}

/// The truth value that `s` spells; `None` for anything but `true` and `false`.
pub fn parse_bool(s: &Vec<char>) -> (r: Option<bool>)
    ensures
        r == parse_bool_spec(s@),
{
    if chars_equal(s, "true") {
        Some(true)
    } else if chars_equal(s, "false") {
        Some(false)
    } else {
        None
    }
}

} // verus!
