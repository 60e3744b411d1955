//! Recognisers for the assembly source's numbers, labels and the `hlt`
//! mnemonic. Each takes the input and returns the rest of it with what was
//! recognised, or the point at which recognition failed and why.
use vstd::prelude::*;
use vstd::string::*;

verus! {

/// What a failing recogniser expected.
#[derive(Debug, Clone, Copy, PartialEq, Eq, Structural)]
pub enum ErrorKind {
    /// A fixed word.
    Tag,
    /// A number that fits a byte.
    Digit,
    /// At least one character of a class.
    TakeWhile1,
    /// One character of a set.
    OneOf,
}

/// A failed recognition: the input where the failing step stood, and what it
/// expected there.
#[derive(Debug, Clone, Copy, PartialEq, Eq)]
pub struct ParseError<'a> {
    pub input: &'a str,
    pub kind: ErrorKind,
}

/// Value of `c` as a digit: 0 to 9 for the decimal digits, 10 upwards for the
/// letters in either case, 36 for every other character.
pub open spec fn digit_value(c: char) -> nat {
    if '0' <= c && c <= '9' {
        (c as int - '0' as int) as nat
    } else if 'a' <= c && c <= 'z' {
        (c as int - 'a' as int + 10) as nat
    } else if 'A' <= c && c <= 'Z' {
        (c as int - 'A' as int + 10) as nat
    } else {
        36
    }
}

pub open spec fn is_digit_of(c: char, radix: nat) -> bool {
    digit_value(c) < radix
}

/// Number of leading characters of `s` that are digits in `radix`.
pub open spec fn digit_run(s: Seq<char>, radix: nat) -> nat
    decreases s.len(),
{
    if s.len() > 0 && is_digit_of(s[0], radix) {
        1 + digit_run(s.drop_first(), radix)
    } else {
        0
    }
}

/// Value of the numeral `s` in `radix`, most significant digit first.
pub open spec fn numeral_value(s: Seq<char>, radix: nat) -> nat
    decreases s.len(),
{
    if s.len() == 0 {
        0
    } else {
        numeral_value(s.drop_last(), radix) * radix + digit_value(s.last())
    }
}

/// A character that may start an identifier: a lower-case letter or `_`.
pub open spec fn is_ident_start(c: char) -> bool {
    ('a' <= c && c <= 'z') || c == '_'
}

/// A character that may continue an identifier: an ASCII letter or digit, or
/// `_`.
pub open spec fn is_ident_char(c: char) -> bool {
    ('a' <= c && c <= 'z') || ('A' <= c && c <= 'Z') || ('0' <= c && c <= '9') || c == '_'
}

/// Number of leading characters of `s` that may continue an identifier.
pub open spec fn ident_run(s: Seq<char>) -> nat
    decreases s.len(),
{
    if s.len() > 0 && is_ident_char(s[0]) {
        1 + ident_run(s.drop_first())
    } else {
        0
    }
}

/// How a recogniser ends on a text: `Ok((n, v))`, the value `v` of its first
/// `n` characters, or `Err((at, kind))`, a failure `at` characters in.
pub type Outcome<T> = Result<(int, T), (int, ErrorKind)>;

/// `r` is what a recogniser on `input` returns for the outcome `o`.
pub open spec fn yields<'a, T>(input: &str, r: Result<(&'a str, T), ParseError<'a>>, o: Outcome<T>) -> bool {
    match (r, o) {
        (Ok((rest, v)), Ok((n, w))) => rest@ == input@.skip(n) && v == w,
        (Err(e), Err((at, kind))) => e.input@ == input@.skip(at) && e.kind == kind,
        _ => false,
    }
}

/// `r` is what a recogniser that hands back recognised text returns for the
/// outcome `o`: for `Ok((n, len))`, the input after its first `n` characters
/// and the first `len` characters.
pub open spec fn yields_span<'a>(input: &str, r: Result<(&'a str, &'a str), ParseError<'a>>, o: Outcome<int>) -> bool {
    match (r, o) {
        (Ok((rest, word)), Ok((n, len))) => rest@ == input@.skip(n) && word@ == input@.take(len),
        (Err(e), Err((at, kind))) => e.input@ == input@.skip(at) && e.kind == kind,
        _ => false,
    }
}

/// A byte in decimal: one or more decimal digits whose value fits a byte.
pub open spec fn dec_u8_outcome(s: Seq<char>) -> Outcome<u8> {
    let n = digit_run(s, 10);
    let v = numeral_value(s.take(n as int), 10);
    if n == 0 || v > 255 {
        Err((0, ErrorKind::Digit))
    } else {
        Ok((n as int, v as u8))
    }
}

/// A byte after the prefix `0` and `lower` or `upper`: one or more digits in
/// `radix` whose value fits a byte.
pub open spec fn prefixed_u8_outcome(s: Seq<char>, radix: nat, lower: char, upper: char) -> Outcome<u8> {
    if !(s.len() >= 2 && s[0] == '0' && (s[1] == lower || s[1] == upper)) {
        Err((0, ErrorKind::Tag))
    } else {
        let n = digit_run(s.skip(2), radix);
        let v = numeral_value(s.skip(2).take(n as int), radix);
        if n == 0 {
            Err((2, ErrorKind::TakeWhile1))
        } else if v > 255 {
            Err((0, ErrorKind::Digit))
        } else {
            Ok((n + 2int, v as u8))
        }
    }
}

pub open spec fn hex_u8_outcome(s: Seq<char>) -> Outcome<u8> {
    prefixed_u8_outcome(s, 16, 'x', 'X')
}

pub open spec fn bin_u8_outcome(s: Seq<char>) -> Outcome<u8> {
    prefixed_u8_outcome(s, 2, 'b', 'B')
}

/// A byte in hexadecimal, binary or decimal, tried in that order; the last
/// failure where none fits.
pub open spec fn memory_location_outcome(s: Seq<char>) -> Outcome<u8> {
    if hex_u8_outcome(s) is Ok {
        hex_u8_outcome(s)
    } else if bin_u8_outcome(s) is Ok {
        bin_u8_outcome(s)
    } else {
        dec_u8_outcome(s)
    }
}

/// An identifier: a lower-case letter or `_`, then letters, digits and `_`.
pub open spec fn identifier_outcome(s: Seq<char>) -> Outcome<int> {
    if s.len() > 0 && is_ident_start(s[0]) {
        Ok((ident_run(s) as int, ident_run(s) as int))
    } else {
        Err((0, ErrorKind::OneOf))
    }
}

/// A label definition: an identifier and a colon; the value is the
/// identifier.
pub open spec fn label_def_outcome(s: Seq<char>) -> Outcome<int> {
    if !(s.len() > 0 && is_ident_start(s[0])) {
        Err((0, ErrorKind::OneOf))
    } else {
        let n = ident_run(s) as int;
        if n < s.len() && s[n] == ':' {
            Ok((n + 1, n))
        } else {
            Err((n, ErrorKind::Tag))
        }
    }
}

/// The mnemonic `hlt`.
pub open spec fn hlt_outcome(s: Seq<char>) -> Outcome<int> {
    if s.len() >= 3 && s[0] == 'h' && s[1] == 'l' && s[2] == 't' {
        Ok((3, 3))
    } else {
        Err((0, ErrorKind::Tag))
    }
}

proof fn lemma_digit_run(s: Seq<char>, radix: nat, i: int)
    requires
        0 <= i <= s.len(),
        forall|j: int| 0 <= j < i ==> is_digit_of(#[trigger] s[j], radix),
        i == s.len() || !is_digit_of(s[i], radix),
    ensures
        digit_run(s, radix) == i,
    decreases i,
{
    if i > 0 {
        let t = s.drop_first();
        assert forall|j: int| 0 <= j < i - 1 implies is_digit_of(#[trigger] t[j], radix) by {
            assert(t[j] == s[j + 1]);
        }
        lemma_digit_run(t, radix, i - 1);
    }
}

proof fn lemma_ident_run(s: Seq<char>, i: int)
    requires
        0 <= i <= s.len(),
        forall|j: int| 0 <= j < i ==> is_ident_char(#[trigger] s[j]),
        i == s.len() || !is_ident_char(s[i]),
    ensures
        ident_run(s) == i,
    decreases i,
{
    if i > 0 {
        let t = s.drop_first();
        assert forall|j: int| 0 <= j < i - 1 implies is_ident_char(#[trigger] t[j]) by {
            assert(t[j] == s[j + 1]);
        }
        lemma_ident_run(t, i - 1);
    }
}

proof fn lemma_ident_run_bound(s: Seq<char>)
    ensures
        ident_run(s) <= s.len(),
    decreases s.len(),
{
    if s.len() > 0 {
        lemma_ident_run_bound(s.drop_first());
    }
}

proof fn lemma_numeral_grows(s: Seq<char>, radix: nat, i: int, j: int)
    requires
        0 <= i <= j <= s.len(),
        radix >= 1,
    ensures
        numeral_value(s.take(i), radix) <= numeral_value(s.take(j), radix),
    decreases j - i,
{
    if i < j {
        lemma_numeral_grows(s, radix, i, j - 1);
        assert(s.take(j).drop_last() =~= s.take(j - 1));
        let a = numeral_value(s.take(j - 1), radix);
        assert(a <= a * radix) by (nonlinear_arith)
            requires
                radix >= 1,
        ;
    }
}

fn digit_of(c: char) -> (r: u32)
    ensures
        r == digit_value(c),
{
    if '0' <= c && c <= '9' {
        (c as u32) - ('0' as u32)
    } else if 'a' <= c && c <= 'z' {
        (c as u32) - ('a' as u32) + 10
    } else if 'A' <= c && c <= 'Z' {
        (c as u32) - ('A' as u32) + 10
    } else {
        36
    }
}

/// Number of digits in `radix` from character `from` of `input` on.
fn count_digits(input: &str, from: usize, radix: u32) -> (n: usize)
    requires
        from <= input@.len(),
    ensures
        n == digit_run(input@.skip(from as int), radix as nat),
        from + n <= input@.len(),
{
    let len = input.unicode_len();
    let mut i: usize = from;
    let mut stop = false;
    while !stop && i < len
        invariant
            len == input@.len(),
            from <= i <= len,
            forall|j: int| from <= j < i ==> is_digit_of(#[trigger] input@[j], radix as nat),
            stop ==> i < len && !is_digit_of(input@[i as int], radix as nat),
        decreases len - i + (if stop { 0int } else { 1int }),
    {
        if digit_of(input.get_char(i)) >= radix {
            stop = true;
        } else {
            i += 1;
        }
    }
    let ghost s = input@.skip(from as int);
    proof {
        assert forall|j: int| 0 <= j < i - from implies is_digit_of(#[trigger] s[j], radix as nat) by {
            assert(s[j] == input@[j + from]);
        }
        lemma_digit_run(s, radix as nat, i - from);
    }
    i - from
}

/// Value of the `n` digits in `radix` from character `from` of `input` on, or
/// `None` where it does not fit a byte.
fn numeral_u8(input: &str, from: usize, n: usize, radix: u32) -> (r: Option<u8>)
    requires
        2 <= radix <= 16,
        from + n <= input@.len(),
        forall|j: int| from <= j < from + n ==> is_digit_of(#[trigger] input@[j], radix as nat),
    ensures
        ({
            let v = numeral_value(input@.subrange(from as int, from + n), radix as nat);
            if v <= 255 {
                r == Some(v as u8)
            } else {
                r is None
            }
        }),
{
    let ghost s = input@.subrange(from as int, from + n);
    let len = input.unicode_len();
    let mut v: u32 = 0;
    let mut i: usize = 0;
    while i < n
        invariant
            i <= n,
            s == input@.subrange(from as int, from + n),
            from + n <= input@.len(),
            len == input@.len(),
            2 <= radix <= 16,
            forall|j: int| from <= j < from + n ==> is_digit_of(#[trigger] input@[j], radix as nat),
            v == numeral_value(s.take(i as int), radix as nat),
            v <= 255,
        decreases n - i,
    {
        let d = digit_of(input.get_char(from + i));
        assert(s[i as int] == input@[from + i]);
        assert(s.take(i + 1).drop_last() =~= s.take(i as int));
        assert(v * radix <= 255 * 16) by (nonlinear_arith)
            requires
                v <= 255,
                radix <= 16,
        ;
        let next = v * radix + d;
        if next > 255 {
            proof {
                lemma_numeral_grows(s, radix as nat, i + 1, n as int);
                assert(s.take(n as int) =~= s);
            }
            return None;
        }
        v = next;
        i += 1;
    }
    assert(s.take(n as int) =~= s);
    Some(v as u8)
}

/// A byte in decimal at the start of `input`.
pub fn dec_u8<'a>(input: &'a str) -> (r: Result<(&'a str, u8), ParseError<'a>>)
    ensures
        yields(input, r, dec_u8_outcome(input@)),
{
    assert(input@.skip(0) =~= input@);
    let n = count_digits(input, 0, 10);
    if n == 0 {
        return Err(ParseError { input, kind: ErrorKind::Digit });
    }
    proof {
        assert forall|j: int| 0 <= j < n implies is_digit_of(#[trigger] input@[j], 10) by {
            lemma_run_digits(input@, 10, j);
        }
        assert(input@.subrange(0, n as int) =~= input@.take(n as int));
    }
    match numeral_u8(input, 0, n, 10) {
        Some(v) => Ok((input.substring_char(n, input.unicode_len()), v)),
        None => Err(ParseError { input, kind: ErrorKind::Digit }),
    }
}

proof fn lemma_run_digits(s: Seq<char>, radix: nat, j: int)
    requires
        0 <= j < digit_run(s, radix),
    ensures
        j < s.len(),
        is_digit_of(s[j], radix),
    decreases j,
{
    if j > 0 {
        lemma_run_digits(s.drop_first(), radix, j - 1);
    }
}

fn prefixed_u8<'a>(input: &'a str, radix: u32, lower: char, upper: char) -> (r: Result<(&'a str, u8), ParseError<'a>>)
    requires
        2 <= radix <= 16,
    ensures
        yields(input, r, prefixed_u8_outcome(input@, radix as nat, lower, upper)),
{
    let len = input.unicode_len();
    if len < 2 || input.get_char(0) != '0' || (input.get_char(1) != lower && input.get_char(1) != upper) {
        assert(input@.skip(0) =~= input@);
        return Err(ParseError { input, kind: ErrorKind::Tag });
    }
    let n = count_digits(input, 2, radix);
    if n == 0 {
        return Err(ParseError { input: input.substring_char(2, len), kind: ErrorKind::TakeWhile1 });
    }
    let ghost t = input@.skip(2);
    proof {
        assert forall|j: int| 2 <= j < 2 + n implies is_digit_of(#[trigger] input@[j], radix as nat) by {
            lemma_run_digits(t, radix as nat, j - 2);
            assert(t[j - 2] == input@[j]);
        }
        assert(input@.subrange(2, 2 + n) =~= t.take(n as int));
    }
    match numeral_u8(input, 2, n, radix) {
        Some(v) => Ok((input.substring_char(2 + n, len), v)),
        None => {
            assert(input@.skip(0) =~= input@);
            Err(ParseError { input, kind: ErrorKind::Digit })
        },
    }
}

/// A byte in hexadecimal, prefixed `0x` or `0X`, at the start of `input`.
pub fn hex_u8<'a>(input: &'a str) -> (r: Result<(&'a str, u8), ParseError<'a>>)
    ensures
        yields(input, r, hex_u8_outcome(input@)),
{
    prefixed_u8(input, 16, 'x', 'X')
}

/// A byte in binary, prefixed `0b` or `0B`, at the start of `input`.
pub fn bin_u8<'a>(input: &'a str) -> (r: Result<(&'a str, u8), ParseError<'a>>)
    ensures
        yields(input, r, bin_u8_outcome(input@)),
{
    prefixed_u8(input, 2, 'b', 'B')
}

/// A byte in hexadecimal, binary or decimal at the start of `input`.
pub fn memory_location<'a>(input: &'a str) -> (r: Result<(&'a str, u8), ParseError<'a>>)
    ensures
        yields(input, r, memory_location_outcome(input@)),
{
    let h = hex_u8(input);
    if h.is_ok() {
        return h;
    }
    let b = bin_u8(input);
    if b.is_ok() {
        return b;
    }
    dec_u8(input)
}

fn ident_start(c: char) -> (r: bool)
    ensures
        r == is_ident_start(c),
{
    ('a' <= c && c <= 'z') || c == '_'
}

fn ident_char(c: char) -> (r: bool)
    ensures
        r == is_ident_char(c),
{
    ('a' <= c && c <= 'z') || ('A' <= c && c <= 'Z') || ('0' <= c && c <= '9') || c == '_'
}

/// Number of leading characters of `input` that may continue an identifier.
fn count_ident(input: &str) -> (n: usize)
    ensures
        n == ident_run(input@),
        n <= input@.len(),
{
    let len = input.unicode_len();
    let mut i: usize = 0;
    let mut stop = false;
    while !stop && i < len
        invariant
            len == input@.len(),
            i <= len,
            forall|j: int| 0 <= j < i ==> is_ident_char(#[trigger] input@[j]),
            stop ==> i < len && !is_ident_char(input@[i as int]),
        decreases len - i + (if stop { 0int } else { 1int }),
    {
        if ident_char(input.get_char(i)) {
            i += 1;
        } else {
            stop = true;
        }
    }
    proof {
        lemma_ident_run(input@, i as int);
    }
    i
}

/// An identifier at the start of `input`.
pub fn identifier<'a>(input: &'a str) -> (r: Result<(&'a str, &'a str), ParseError<'a>>)
    ensures
        yields_span(input, r, identifier_outcome(input@)),
{
    let len = input.unicode_len();
    if len == 0 || !ident_start(input.get_char(0)) {
        assert(input@.skip(0) =~= input@);
        return Err(ParseError { input, kind: ErrorKind::OneOf });
    }
    let n = count_ident(input);
    Ok((input.substring_char(n, len), input.substring_char(0, n)))
}

/// A label definition, an identifier and a colon, at the start of `input`;
/// the value is the identifier.
pub fn label_def<'a>(input: &'a str) -> (r: Result<(&'a str, &'a str), ParseError<'a>>)
    ensures
        yields_span(input, r, label_def_outcome(input@)),
{
    let (rest, name) = match identifier(input) {
        Ok(p) => p,
        Err(e) => {
            return Err(e);
        },
    };
    let len = rest.unicode_len();
    let ghost n = ident_run(input@) as int;
    proof {
        lemma_ident_run_bound(input@);
    }
    assert(rest@ == input@.skip(n));
    assert(rest@.len() > 0 ==> rest@[0] == input@[n]);
    if len > 0 && rest.get_char(0) == ':' {
        assert(rest@.skip(1) =~= input@.skip(n + 1));
        Ok((rest.substring_char(1, len), name))
    } else {
        Err(ParseError { input: rest, kind: ErrorKind::Tag })
    }
}

/// The mnemonic `hlt` at the start of `input`.
pub fn hlt<'a>(input: &'a str) -> (r: Result<(&'a str, &'a str), ParseError<'a>>)
    ensures
        yields_span(input, r, hlt_outcome(input@)),
{
    let len = input.unicode_len();
    if len >= 3 && input.get_char(0) == 'h' && input.get_char(1) == 'l' && input.get_char(2) == 't' {
        Ok((input.substring_char(3, len), input.substring_char(0, 3)))
    } else {
        assert(input@.skip(0) =~= input@);
        Err(ParseError { input, kind: ErrorKind::Tag })
    }
}

} // verus!
