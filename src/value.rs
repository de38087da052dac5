use vstd::prelude::*;

use crate::decimal::{parse_int, parse_signed, parse_unsigned};
use crate::error::{int_error_view, Error, ErrorView, IntErrorKind, ParseIntError};
use crate::text::{candidates_starting_with, eq_ignoring_case, matches_ignoring_case, starting_with};

verus! {

/// A type whose values can be read from text and whose text can be
/// completed from a prefix.
pub trait Value: Sized {
    /// Reads a value from the text `s`.
    fn parse(s: &str) -> Result<Self, Error>;

    /// The candidates that complete the prefix `s`, or why it can lead to
    /// no value.
    fn validate(s: &str) -> Result<Vec<String>, Error>;
}

/// The view of a list of candidates.
pub open spec fn listed(r: Result<Vec<String>, Error>) -> Result<Seq<Seq<char>>, ErrorView> {
    match r {
        Ok(v) => Ok(v.deep_view()),
        Err(e) => Err(e@),
    }
}

/// The view of a parse result whose values are their own view.
pub open spec fn parsed<T>(r: Result<T, Error>) -> Result<T, ErrorView> {
    match r {
        Ok(v) => Ok(v),
        Err(e) => Err(e@),
    }
}

/// The view of a string parse result.
pub open spec fn parsed_text(r: Result<String, Error>) -> Result<Seq<char>, ErrorView> {
    match r {
        Ok(v) => Ok(v@),
        Err(e) => Err(e@),
    }
}

pub open spec fn true_words() -> Seq<Seq<char>> {
    seq![seq!['t'], seq!['t', 'r', 'u', 'e'], seq!['1']]
}

pub open spec fn false_words() -> Seq<Seq<char>> {
    seq![seq!['f'], seq!['f', 'a', 'l', 's', 'e'], seq!['0']]
}

/// The full names a boolean prefix is completed to.
pub open spec fn bool_candidates() -> Seq<Seq<char>> {
    seq![seq!['t', 'r', 'u', 'e'], seq!['f', 'a', 'l', 's', 'e']]
}

pub open spec fn spells_one_of(s: Seq<char>, words: Seq<Seq<char>>) -> bool {
    exists|i: int| 0 <= i < words.len() && matches_ignoring_case(s, #[trigger] words[i])
}

/// A text wrapped in double quotes, which a string value must be.
pub open spec fn is_quoted(s: Seq<char>) -> bool {
    s.len() >= 2 && s[0] == '"' && s.last() == '"'
}

/// The decimal text of `usize::MAX`, by the width of a machine word.
pub open spec fn usize_max_text() -> Seq<char> {
    if usize::MAX == u64::MAX {
        "18446744073709551615"@
    } else {
        "4294967295"@
    }
}

/// The decimal text of `isize::MIN`, by the width of a machine word.
pub open spec fn isize_min_text() -> Seq<char> {
    if isize::MIN == i64::MIN {
        "-9223372036854775808"@
    } else {
        "-2147483648"@
    }
}

/// The decimal text of `isize::MAX`, by the width of a machine word.
pub open spec fn isize_max_text() -> Seq<char> {
    if isize::MAX == i64::MAX {
        "9223372036854775807"@
    } else {
        "2147483647"@
    }
}

/// The bound texts of `usize`, as the machine has them.
fn usize_bound_texts() -> (r: (&'static str, &'static str))
    ensures
        r.0@ == "0"@,
        r.1@ == usize_max_text(),
{
    if usize::MAX as u128 == u64::MAX as u128 {
        ("0", "18446744073709551615")
    } else {
        ("0", "4294967295")
    }
}

/// The bound texts of `isize`, as the machine has them.
fn isize_bound_texts() -> (r: (&'static str, &'static str))
    ensures
        r.0@ == isize_min_text(),
        r.1@ == isize_max_text(),
{
    if isize::MAX as i128 == i64::MAX as i128 {
        ("-9223372036854775808", "9223372036854775807")
    } else {
        ("-2147483648", "2147483647")
    }
}

/// Reading a boolean: empty text is `EmptyValue`; `t`, `true` and `1` are
/// `true` and `f`, `false` and `0` are `false`, ignoring ASCII case; anything
/// else is `InvalidValue`.
pub open spec fn bool_from_text(s: Seq<char>) -> Result<bool, ErrorView> {
    if s.len() == 0 {
        Err(ErrorView::EmptyValue)
    } else if spells_one_of(s, true_words()) {
        Ok(true)
    } else if spells_one_of(s, false_words()) {
        Ok(false)
    } else {
        Err(ErrorView::InvalidValue { value: s })
    }
}

/// Reading a string: the text between the quotes of a quoted text.
pub open spec fn string_from_text(s: Seq<char>) -> Result<Seq<char>, ErrorView> {
    if is_quoted(s) {
        Ok(s.subrange(1, s.len() - 1))
    } else {
        Err(ErrorView::InvalidValue { value: s })
    }
}

/// Checking a string prefix: a quoted text has no candidates.
pub open spec fn string_prefix_check(s: Seq<char>) -> Result<Seq<Seq<char>>, ErrorView> {
    if is_quoted(s) {
        Ok(Seq::empty())
    } else {
        Err(ErrorView::InvalidValue { value: s })
    }
}

/// Reading an integer of a type with bounds `min` and `max`, whose texts are
/// `min_text` and `max_text`.
pub open spec fn int_from_text(
    s: Seq<char>,
    signed: bool,
    min: int,
    max: int,
    min_text: Seq<char>,
    max_text: Seq<char>,
) -> Result<int, ErrorView> {
    match parse_int(s, signed, min, max) {
        Ok(v) => Ok(v),
        Err(k) => Err(int_error_view(k, s, min_text, max_text)),
    }
}

/// Checking an integer prefix: a text that reads as an integer has no
/// candidates; one that does not gives the error of reading it.
pub open spec fn int_prefix_check(
    s: Seq<char>,
    signed: bool,
    min: int,
    max: int,
    min_text: Seq<char>,
    max_text: Seq<char>,
) -> Result<Seq<Seq<char>>, ErrorView> {
    match parse_int(s, signed, min, max) {
        Ok(_) => Ok(Seq::empty()),
        Err(k) => Err(int_error_view(k, s, min_text, max_text)),
    }
}

/// Reads a boolean, as [`bool_from_text`] states.
pub fn parse_bool(s: &str) -> (r: Result<bool, Error>)
    ensures
        parsed(r) == bool_from_text(s@),
{
    proof {
        reveal_strlit("t");
        reveal_strlit("true");
        reveal_strlit("1");
        reveal_strlit("f");
        reveal_strlit("false");
        reveal_strlit("0");
        assert("t"@ =~= true_words()[0]);
        assert("true"@ =~= true_words()[1]);
        assert("1"@ =~= true_words()[2]);
        assert("f"@ =~= false_words()[0]);
        assert("false"@ =~= false_words()[1]);
        assert("0"@ =~= false_words()[2]);
    }
    if s.unicode_len() == 0 {
        Err(Error::EmptyValue)
    } else if eq_ignoring_case(s, "t") || eq_ignoring_case(s, "true") || eq_ignoring_case(s, "1") {
        Ok(true)
    } else if eq_ignoring_case(s, "f") || eq_ignoring_case(s, "false") || eq_ignoring_case(
        s,
        "0",
    ) {
        proof {
            assert(!spells_one_of(s@, true_words())) by {
                assert forall|i: int| 0 <= i < 3 implies !matches_ignoring_case(s@, #[trigger] true_words()[i]) by {
                    if i == 0 {} else if i == 1 {} else {}
                }
            }
        }
        Ok(false)
    } else {
        proof {
            assert forall|i: int| 0 <= i < 3 implies !matches_ignoring_case(s@, #[trigger] true_words()[i]) by {
                if i == 0 {} else if i == 1 {} else {}
            }
            assert forall|i: int| 0 <= i < 3 implies !matches_ignoring_case(s@, #[trigger] false_words()[i]) by {
                if i == 0 {} else if i == 1 {} else {}
            }
        }
        Err(Error::invalid_value(s))
    }
}

/// The boolean words `true` and `false` that start with `s`, in that order.
pub fn validate_bool(s: &str) -> (r: Result<Vec<String>, Error>)
    ensures
        listed(r) == Ok::<Seq<Seq<char>>, ErrorView>(starting_with(bool_candidates(), s@)),
{
    proof {
        reveal_strlit("true");
        reveal_strlit("false");
    }
    let mut names: Vec<String> = Vec::new();
    names.push(String::from_str("true"));
    names.push(String::from_str("false"));
    proof {
        assert("true"@ =~= bool_candidates()[0]);
        assert("false"@ =~= bool_candidates()[1]);
        assert(names.deep_view()[0] == bool_candidates()[0]);
        assert(names.deep_view()[1] == bool_candidates()[1]);
        assert(names.deep_view() =~= bool_candidates());
    }
    Ok(candidates_starting_with(&names, s))
}

/// Reads a string: the text between the quotes of a quoted text.
pub fn parse_string(s: &str) -> (r: Result<String, Error>)
    ensures
        parsed_text(r) == string_from_text(s@),
{
    let n = s.unicode_len();
    if n >= 2 && s.get_char(0) == '"' && s.get_char(n - 1) == '"' {
        Ok(String::from_str(s.substring_char(1, n - 1)))
    } else {
        Err(Error::invalid_value(s))
    }
}

/// Checks a string prefix: strings have no candidates to complete.
pub fn validate_string(s: &str) -> (r: Result<Vec<String>, Error>)
    ensures
        listed(r) == string_prefix_check(s@),
{
    let n = s.unicode_len();
    if n >= 2 && s.get_char(0) == '"' && s.get_char(n - 1) == '"' {
        let v: Vec<String> = Vec::new();
        proof {
            assert(v.deep_view() =~= Seq::<Seq<char>>::empty());
        }
        Ok(v)
    } else {
        Err(Error::invalid_value(s))
    }
}

impl Value for bool {
    fn parse(s: &str) -> (r: Result<bool, Error>)
        ensures
            parsed(r) == bool_from_text(s@),
    {
        parse_bool(s)
    }

    fn validate(s: &str) -> (r: Result<Vec<String>, Error>)
        ensures
            listed(r) == Ok::<Seq<Seq<char>>, ErrorView>(starting_with(bool_candidates(), s@)),
    {
        validate_bool(s)
    }
}

impl Value for String {
    fn parse(s: &str) -> (r: Result<String, Error>)
        ensures
            parsed_text(r) == string_from_text(s@),
    {
        parse_string(s)
    }

    fn validate(s: &str) -> (r: Result<Vec<String>, Error>)
        ensures
            listed(r) == string_prefix_check(s@),
    {
        validate_string(s)
    }
}

/// Reads a `u8` in decimal; a failure is mapped with the bounds of `u8`.
pub fn parse_u8(s: &str) -> (r: Result<u8, Error>)
    ensures
        r matches Ok(v) ==> int_from_text(s@, false, u8::MIN as int, u8::MAX as int, "0"@, "255"@) == Ok::<int, ErrorView>(v as int),
        r matches Err(e) ==> int_from_text(s@, false, u8::MIN as int, u8::MAX as int, "0"@, "255"@) == Err::<int, ErrorView>(e@),
{
    match parse_unsigned(s, u8::MAX as u128) {
        Ok(v) => Ok(v as u8),
        Err(k) => Err(Error::from_parse_int_error(ParseIntError { kind: k }, s, "0", "255")),
    }
}

/// Checks a `u8` prefix: numbers have no candidates to complete.
pub fn validate_u8(s: &str) -> (r: Result<Vec<String>, Error>)
    ensures
        listed(r) == int_prefix_check(s@, false, u8::MIN as int, u8::MAX as int, "0"@, "255"@),
{
    match parse_unsigned(s, u8::MAX as u128) {
        Ok(_) => {
            let v: Vec<String> = Vec::new();
            proof {
                assert(v.deep_view() =~= Seq::<Seq<char>>::empty());
            }
            Ok(v)
        },
        Err(k) => Err(Error::from_parse_int_error(ParseIntError { kind: k }, s, "0", "255")),
    }
}

impl Value for u8 {
    fn parse(s: &str) -> (r: Result<u8, Error>)
        ensures
            r matches Ok(v) ==> int_from_text(s@, false, u8::MIN as int, u8::MAX as int, "0"@, "255"@) == Ok::<int, ErrorView>(v as int),
            r matches Err(e) ==> int_from_text(s@, false, u8::MIN as int, u8::MAX as int, "0"@, "255"@) == Err::<int, ErrorView>(e@),
    {
        parse_u8(s)
    }

    fn validate(s: &str) -> (r: Result<Vec<String>, Error>)
        ensures
            listed(r) == int_prefix_check(s@, false, u8::MIN as int, u8::MAX as int, "0"@, "255"@),
    {
        validate_u8(s)
    }
}

/// Reads a `u16` in decimal; a failure is mapped with the bounds of `u16`.
pub fn parse_u16(s: &str) -> (r: Result<u16, Error>)
    ensures
        r matches Ok(v) ==> int_from_text(s@, false, u16::MIN as int, u16::MAX as int, "0"@, "65535"@) == Ok::<int, ErrorView>(v as int),
        r matches Err(e) ==> int_from_text(s@, false, u16::MIN as int, u16::MAX as int, "0"@, "65535"@) == Err::<int, ErrorView>(e@),
{
    match parse_unsigned(s, u16::MAX as u128) {
        Ok(v) => Ok(v as u16),
        Err(k) => Err(Error::from_parse_int_error(ParseIntError { kind: k }, s, "0", "65535")),
    }
}

/// Checks a `u16` prefix: numbers have no candidates to complete.
pub fn validate_u16(s: &str) -> (r: Result<Vec<String>, Error>)
    ensures
        listed(r) == int_prefix_check(s@, false, u16::MIN as int, u16::MAX as int, "0"@, "65535"@),
{
    match parse_unsigned(s, u16::MAX as u128) {
        Ok(_) => {
            let v: Vec<String> = Vec::new();
            proof {
                assert(v.deep_view() =~= Seq::<Seq<char>>::empty());
            }
            Ok(v)
        },
        Err(k) => Err(Error::from_parse_int_error(ParseIntError { kind: k }, s, "0", "65535")),
    }
}

impl Value for u16 {
    fn parse(s: &str) -> (r: Result<u16, Error>)
        ensures
            r matches Ok(v) ==> int_from_text(s@, false, u16::MIN as int, u16::MAX as int, "0"@, "65535"@) == Ok::<int, ErrorView>(v as int),
            r matches Err(e) ==> int_from_text(s@, false, u16::MIN as int, u16::MAX as int, "0"@, "65535"@) == Err::<int, ErrorView>(e@),
    {
        parse_u16(s)
    }

    fn validate(s: &str) -> (r: Result<Vec<String>, Error>)
        ensures
            listed(r) == int_prefix_check(s@, false, u16::MIN as int, u16::MAX as int, "0"@, "65535"@),
    {
        validate_u16(s)
    }
}

/// Reads a `u32` in decimal; a failure is mapped with the bounds of `u32`.
pub fn parse_u32(s: &str) -> (r: Result<u32, Error>)
    ensures
        r matches Ok(v) ==> int_from_text(s@, false, u32::MIN as int, u32::MAX as int, "0"@, "4294967295"@) == Ok::<int, ErrorView>(v as int),
        r matches Err(e) ==> int_from_text(s@, false, u32::MIN as int, u32::MAX as int, "0"@, "4294967295"@) == Err::<int, ErrorView>(e@),
{
    match parse_unsigned(s, u32::MAX as u128) {
        Ok(v) => Ok(v as u32),
        Err(k) => Err(Error::from_parse_int_error(ParseIntError { kind: k }, s, "0", "4294967295")),
    }
}

/// Checks a `u32` prefix: numbers have no candidates to complete.
pub fn validate_u32(s: &str) -> (r: Result<Vec<String>, Error>)
    ensures
        listed(r) == int_prefix_check(s@, false, u32::MIN as int, u32::MAX as int, "0"@, "4294967295"@),
{
    match parse_unsigned(s, u32::MAX as u128) {
        Ok(_) => {
            let v: Vec<String> = Vec::new();
            proof {
                assert(v.deep_view() =~= Seq::<Seq<char>>::empty());
            }
            Ok(v)
        },
        Err(k) => Err(Error::from_parse_int_error(ParseIntError { kind: k }, s, "0", "4294967295")),
    }
}

impl Value for u32 {
    fn parse(s: &str) -> (r: Result<u32, Error>)
        ensures
            r matches Ok(v) ==> int_from_text(s@, false, u32::MIN as int, u32::MAX as int, "0"@, "4294967295"@) == Ok::<int, ErrorView>(v as int),
            r matches Err(e) ==> int_from_text(s@, false, u32::MIN as int, u32::MAX as int, "0"@, "4294967295"@) == Err::<int, ErrorView>(e@),
    {
        parse_u32(s)
    }

    fn validate(s: &str) -> (r: Result<Vec<String>, Error>)
        ensures
            listed(r) == int_prefix_check(s@, false, u32::MIN as int, u32::MAX as int, "0"@, "4294967295"@),
    {
        validate_u32(s)
    }
}

/// Reads a `u64` in decimal; a failure is mapped with the bounds of `u64`.
pub fn parse_u64(s: &str) -> (r: Result<u64, Error>)
    ensures
        r matches Ok(v) ==> int_from_text(s@, false, u64::MIN as int, u64::MAX as int, "0"@, "18446744073709551615"@) == Ok::<int, ErrorView>(v as int),
        r matches Err(e) ==> int_from_text(s@, false, u64::MIN as int, u64::MAX as int, "0"@, "18446744073709551615"@) == Err::<int, ErrorView>(e@),
{
    match parse_unsigned(s, u64::MAX as u128) {
        Ok(v) => Ok(v as u64),
        Err(k) => Err(Error::from_parse_int_error(ParseIntError { kind: k }, s, "0", "18446744073709551615")),
    }
}

/// Checks a `u64` prefix: numbers have no candidates to complete.
pub fn validate_u64(s: &str) -> (r: Result<Vec<String>, Error>)
    ensures
        listed(r) == int_prefix_check(s@, false, u64::MIN as int, u64::MAX as int, "0"@, "18446744073709551615"@),
{
    match parse_unsigned(s, u64::MAX as u128) {
        Ok(_) => {
            let v: Vec<String> = Vec::new();
            proof {
                assert(v.deep_view() =~= Seq::<Seq<char>>::empty());
            }
            Ok(v)
        },
        Err(k) => Err(Error::from_parse_int_error(ParseIntError { kind: k }, s, "0", "18446744073709551615")),
    }
}

impl Value for u64 {
    fn parse(s: &str) -> (r: Result<u64, Error>)
        ensures
            r matches Ok(v) ==> int_from_text(s@, false, u64::MIN as int, u64::MAX as int, "0"@, "18446744073709551615"@) == Ok::<int, ErrorView>(v as int),
            r matches Err(e) ==> int_from_text(s@, false, u64::MIN as int, u64::MAX as int, "0"@, "18446744073709551615"@) == Err::<int, ErrorView>(e@),
    {
        parse_u64(s)
    }

    fn validate(s: &str) -> (r: Result<Vec<String>, Error>)
        ensures
            listed(r) == int_prefix_check(s@, false, u64::MIN as int, u64::MAX as int, "0"@, "18446744073709551615"@),
    {
        validate_u64(s)
    }
}

/// Reads a `u128` in decimal; a failure is mapped with the bounds of `u128`.
pub fn parse_u128(s: &str) -> (r: Result<u128, Error>)
    ensures
        r matches Ok(v) ==> int_from_text(s@, false, u128::MIN as int, u128::MAX as int, "0"@, "340282366920938463463374607431768211455"@) == Ok::<int, ErrorView>(v as int),
        r matches Err(e) ==> int_from_text(s@, false, u128::MIN as int, u128::MAX as int, "0"@, "340282366920938463463374607431768211455"@) == Err::<int, ErrorView>(e@),
{
    match parse_unsigned(s, u128::MAX as u128) {
        Ok(v) => Ok(v as u128),
        Err(k) => Err(Error::from_parse_int_error(ParseIntError { kind: k }, s, "0", "340282366920938463463374607431768211455")),
    }
}

/// Checks a `u128` prefix: numbers have no candidates to complete.
pub fn validate_u128(s: &str) -> (r: Result<Vec<String>, Error>)
    ensures
        listed(r) == int_prefix_check(s@, false, u128::MIN as int, u128::MAX as int, "0"@, "340282366920938463463374607431768211455"@),
{
    match parse_unsigned(s, u128::MAX as u128) {
        Ok(_) => {
            let v: Vec<String> = Vec::new();
            proof {
                assert(v.deep_view() =~= Seq::<Seq<char>>::empty());
            }
            Ok(v)
        },
        Err(k) => Err(Error::from_parse_int_error(ParseIntError { kind: k }, s, "0", "340282366920938463463374607431768211455")),
    }
}

impl Value for u128 {
    fn parse(s: &str) -> (r: Result<u128, Error>)
        ensures
            r matches Ok(v) ==> int_from_text(s@, false, u128::MIN as int, u128::MAX as int, "0"@, "340282366920938463463374607431768211455"@) == Ok::<int, ErrorView>(v as int),
            r matches Err(e) ==> int_from_text(s@, false, u128::MIN as int, u128::MAX as int, "0"@, "340282366920938463463374607431768211455"@) == Err::<int, ErrorView>(e@),
    {
        parse_u128(s)
    }

    fn validate(s: &str) -> (r: Result<Vec<String>, Error>)
        ensures
            listed(r) == int_prefix_check(s@, false, u128::MIN as int, u128::MAX as int, "0"@, "340282366920938463463374607431768211455"@),
    {
        validate_u128(s)
    }
}

/// Reads a `usize` in decimal; a failure is mapped with the bounds of `usize`.
pub fn parse_usize(s: &str) -> (r: Result<usize, Error>)
    ensures
        r matches Ok(v) ==> int_from_text(s@, false, usize::MIN as int, usize::MAX as int, "0"@, usize_max_text()) == Ok::<int, ErrorView>(v as int),
        r matches Err(e) ==> int_from_text(s@, false, usize::MIN as int, usize::MAX as int, "0"@, usize_max_text()) == Err::<int, ErrorView>(e@),
{
    match parse_unsigned(s, usize::MAX as u128) {
        Ok(v) => Ok(v as usize),
        Err(k) => Err(Error::from_parse_int_error(ParseIntError { kind: k }, s, usize_bound_texts().0, usize_bound_texts().1)),
    }
}

/// Checks a `usize` prefix: numbers have no candidates to complete.
pub fn validate_usize(s: &str) -> (r: Result<Vec<String>, Error>)
    ensures
        listed(r) == int_prefix_check(s@, false, usize::MIN as int, usize::MAX as int, "0"@, usize_max_text()),
{
    match parse_unsigned(s, usize::MAX as u128) {
        Ok(_) => {
            let v: Vec<String> = Vec::new();
            proof {
                assert(v.deep_view() =~= Seq::<Seq<char>>::empty());
            }
            Ok(v)
        },
        Err(k) => Err(Error::from_parse_int_error(ParseIntError { kind: k }, s, usize_bound_texts().0, usize_bound_texts().1)),
    }
}

impl Value for usize {
    fn parse(s: &str) -> (r: Result<usize, Error>)
        ensures
            r matches Ok(v) ==> int_from_text(s@, false, usize::MIN as int, usize::MAX as int, "0"@, usize_max_text()) == Ok::<int, ErrorView>(v as int),
            r matches Err(e) ==> int_from_text(s@, false, usize::MIN as int, usize::MAX as int, "0"@, usize_max_text()) == Err::<int, ErrorView>(e@),
    {
        parse_usize(s)
    }

    fn validate(s: &str) -> (r: Result<Vec<String>, Error>)
        ensures
            listed(r) == int_prefix_check(s@, false, usize::MIN as int, usize::MAX as int, "0"@, usize_max_text()),
    {
        validate_usize(s)
    }
}

/// Reads a `i8` in decimal; a failure is mapped with the bounds of `i8`.
pub fn parse_i8(s: &str) -> (r: Result<i8, Error>)
    ensures
        r matches Ok(v) ==> int_from_text(s@, true, i8::MIN as int, i8::MAX as int, "-128"@, "127"@) == Ok::<int, ErrorView>(v as int),
        r matches Err(e) ==> int_from_text(s@, true, i8::MIN as int, i8::MAX as int, "-128"@, "127"@) == Err::<int, ErrorView>(e@),
{
    match parse_signed(s, i8::MIN as i128, i8::MAX as i128) {
        Ok(v) => Ok(v as i8),
        Err(k) => Err(Error::from_parse_int_error(ParseIntError { kind: k }, s, "-128", "127")),
    }
}

/// Checks a `i8` prefix: numbers have no candidates to complete.
pub fn validate_i8(s: &str) -> (r: Result<Vec<String>, Error>)
    ensures
        listed(r) == int_prefix_check(s@, true, i8::MIN as int, i8::MAX as int, "-128"@, "127"@),
{
    match parse_signed(s, i8::MIN as i128, i8::MAX as i128) {
        Ok(_) => {
            let v: Vec<String> = Vec::new();
            proof {
                assert(v.deep_view() =~= Seq::<Seq<char>>::empty());
            }
            Ok(v)
        },
        Err(k) => Err(Error::from_parse_int_error(ParseIntError { kind: k }, s, "-128", "127")),
    }
}

impl Value for i8 {
    fn parse(s: &str) -> (r: Result<i8, Error>)
        ensures
            r matches Ok(v) ==> int_from_text(s@, true, i8::MIN as int, i8::MAX as int, "-128"@, "127"@) == Ok::<int, ErrorView>(v as int),
            r matches Err(e) ==> int_from_text(s@, true, i8::MIN as int, i8::MAX as int, "-128"@, "127"@) == Err::<int, ErrorView>(e@),
    {
        parse_i8(s)
    }

    fn validate(s: &str) -> (r: Result<Vec<String>, Error>)
        ensures
            listed(r) == int_prefix_check(s@, true, i8::MIN as int, i8::MAX as int, "-128"@, "127"@),
    {
        validate_i8(s)
    }
}

/// Reads a `i16` in decimal; a failure is mapped with the bounds of `i16`.
pub fn parse_i16(s: &str) -> (r: Result<i16, Error>)
    ensures
        r matches Ok(v) ==> int_from_text(s@, true, i16::MIN as int, i16::MAX as int, "-32768"@, "32767"@) == Ok::<int, ErrorView>(v as int),
        r matches Err(e) ==> int_from_text(s@, true, i16::MIN as int, i16::MAX as int, "-32768"@, "32767"@) == Err::<int, ErrorView>(e@),
{
    match parse_signed(s, i16::MIN as i128, i16::MAX as i128) {
        Ok(v) => Ok(v as i16),
        Err(k) => Err(Error::from_parse_int_error(ParseIntError { kind: k }, s, "-32768", "32767")),
    }
}

/// Checks a `i16` prefix: numbers have no candidates to complete.
pub fn validate_i16(s: &str) -> (r: Result<Vec<String>, Error>)
    ensures
        listed(r) == int_prefix_check(s@, true, i16::MIN as int, i16::MAX as int, "-32768"@, "32767"@),
{
    match parse_signed(s, i16::MIN as i128, i16::MAX as i128) {
        Ok(_) => {
            let v: Vec<String> = Vec::new();
            proof {
                assert(v.deep_view() =~= Seq::<Seq<char>>::empty());
            }
            Ok(v)
        },
        Err(k) => Err(Error::from_parse_int_error(ParseIntError { kind: k }, s, "-32768", "32767")),
    }
}

impl Value for i16 {
    fn parse(s: &str) -> (r: Result<i16, Error>)
        ensures
            r matches Ok(v) ==> int_from_text(s@, true, i16::MIN as int, i16::MAX as int, "-32768"@, "32767"@) == Ok::<int, ErrorView>(v as int),
            r matches Err(e) ==> int_from_text(s@, true, i16::MIN as int, i16::MAX as int, "-32768"@, "32767"@) == Err::<int, ErrorView>(e@),
    {
        parse_i16(s)
    }

    fn validate(s: &str) -> (r: Result<Vec<String>, Error>)
        ensures
            listed(r) == int_prefix_check(s@, true, i16::MIN as int, i16::MAX as int, "-32768"@, "32767"@),
    {
        validate_i16(s)
    }
}

/// Reads a `i32` in decimal; a failure is mapped with the bounds of `i32`.
pub fn parse_i32(s: &str) -> (r: Result<i32, Error>)
    ensures
        r matches Ok(v) ==> int_from_text(s@, true, i32::MIN as int, i32::MAX as int, "-2147483648"@, "2147483647"@) == Ok::<int, ErrorView>(v as int),
        r matches Err(e) ==> int_from_text(s@, true, i32::MIN as int, i32::MAX as int, "-2147483648"@, "2147483647"@) == Err::<int, ErrorView>(e@),
{
    match parse_signed(s, i32::MIN as i128, i32::MAX as i128) {
        Ok(v) => Ok(v as i32),
        Err(k) => Err(Error::from_parse_int_error(ParseIntError { kind: k }, s, "-2147483648", "2147483647")),
    }
}

/// Checks a `i32` prefix: numbers have no candidates to complete.
pub fn validate_i32(s: &str) -> (r: Result<Vec<String>, Error>)
    ensures
        listed(r) == int_prefix_check(s@, true, i32::MIN as int, i32::MAX as int, "-2147483648"@, "2147483647"@),
{
    match parse_signed(s, i32::MIN as i128, i32::MAX as i128) {
        Ok(_) => {
            let v: Vec<String> = Vec::new();
            proof {
                assert(v.deep_view() =~= Seq::<Seq<char>>::empty());
            }
            Ok(v)
        },
        Err(k) => Err(Error::from_parse_int_error(ParseIntError { kind: k }, s, "-2147483648", "2147483647")),
    }
}

impl Value for i32 {
    fn parse(s: &str) -> (r: Result<i32, Error>)
        ensures
            r matches Ok(v) ==> int_from_text(s@, true, i32::MIN as int, i32::MAX as int, "-2147483648"@, "2147483647"@) == Ok::<int, ErrorView>(v as int),
            r matches Err(e) ==> int_from_text(s@, true, i32::MIN as int, i32::MAX as int, "-2147483648"@, "2147483647"@) == Err::<int, ErrorView>(e@),
    {
        parse_i32(s)
    }

    fn validate(s: &str) -> (r: Result<Vec<String>, Error>)
        ensures
            listed(r) == int_prefix_check(s@, true, i32::MIN as int, i32::MAX as int, "-2147483648"@, "2147483647"@),
    {
        validate_i32(s)
    }
}

/// Reads a `i64` in decimal; a failure is mapped with the bounds of `i64`.
pub fn parse_i64(s: &str) -> (r: Result<i64, Error>)
    ensures
        r matches Ok(v) ==> int_from_text(s@, true, i64::MIN as int, i64::MAX as int, "-9223372036854775808"@, "9223372036854775807"@) == Ok::<int, ErrorView>(v as int),
        r matches Err(e) ==> int_from_text(s@, true, i64::MIN as int, i64::MAX as int, "-9223372036854775808"@, "9223372036854775807"@) == Err::<int, ErrorView>(e@),
{
    match parse_signed(s, i64::MIN as i128, i64::MAX as i128) {
        Ok(v) => Ok(v as i64),
        Err(k) => Err(Error::from_parse_int_error(ParseIntError { kind: k }, s, "-9223372036854775808", "9223372036854775807")),
    }
}

/// Checks a `i64` prefix: numbers have no candidates to complete.
pub fn validate_i64(s: &str) -> (r: Result<Vec<String>, Error>)
    ensures
        listed(r) == int_prefix_check(s@, true, i64::MIN as int, i64::MAX as int, "-9223372036854775808"@, "9223372036854775807"@),
{
    match parse_signed(s, i64::MIN as i128, i64::MAX as i128) {
        Ok(_) => {
            let v: Vec<String> = Vec::new();
            proof {
                assert(v.deep_view() =~= Seq::<Seq<char>>::empty());
            }
            Ok(v)
        },
        Err(k) => Err(Error::from_parse_int_error(ParseIntError { kind: k }, s, "-9223372036854775808", "9223372036854775807")),
    }
}

impl Value for i64 {
    fn parse(s: &str) -> (r: Result<i64, Error>)
        ensures
            r matches Ok(v) ==> int_from_text(s@, true, i64::MIN as int, i64::MAX as int, "-9223372036854775808"@, "9223372036854775807"@) == Ok::<int, ErrorView>(v as int),
            r matches Err(e) ==> int_from_text(s@, true, i64::MIN as int, i64::MAX as int, "-9223372036854775808"@, "9223372036854775807"@) == Err::<int, ErrorView>(e@),
    {
        parse_i64(s)
    }

    fn validate(s: &str) -> (r: Result<Vec<String>, Error>)
        ensures
            listed(r) == int_prefix_check(s@, true, i64::MIN as int, i64::MAX as int, "-9223372036854775808"@, "9223372036854775807"@),
    {
        validate_i64(s)
    }
}

/// Reads a `i128` in decimal; a failure is mapped with the bounds of `i128`.
pub fn parse_i128(s: &str) -> (r: Result<i128, Error>)
    ensures
        r matches Ok(v) ==> int_from_text(s@, true, i128::MIN as int, i128::MAX as int, "-170141183460469231731687303715884105728"@, "170141183460469231731687303715884105727"@) == Ok::<int, ErrorView>(v as int),
        r matches Err(e) ==> int_from_text(s@, true, i128::MIN as int, i128::MAX as int, "-170141183460469231731687303715884105728"@, "170141183460469231731687303715884105727"@) == Err::<int, ErrorView>(e@),
{
    match parse_signed(s, i128::MIN as i128, i128::MAX as i128) {
        Ok(v) => Ok(v as i128),
        Err(k) => Err(Error::from_parse_int_error(ParseIntError { kind: k }, s, "-170141183460469231731687303715884105728", "170141183460469231731687303715884105727")),
    }
}

/// Checks a `i128` prefix: numbers have no candidates to complete.
pub fn validate_i128(s: &str) -> (r: Result<Vec<String>, Error>)
    ensures
        listed(r) == int_prefix_check(s@, true, i128::MIN as int, i128::MAX as int, "-170141183460469231731687303715884105728"@, "170141183460469231731687303715884105727"@),
{
    match parse_signed(s, i128::MIN as i128, i128::MAX as i128) {
        Ok(_) => {
            let v: Vec<String> = Vec::new();
            proof {
                assert(v.deep_view() =~= Seq::<Seq<char>>::empty());
            }
            Ok(v)
        },
        Err(k) => Err(Error::from_parse_int_error(ParseIntError { kind: k }, s, "-170141183460469231731687303715884105728", "170141183460469231731687303715884105727")),
    }
}

impl Value for i128 {
    fn parse(s: &str) -> (r: Result<i128, Error>)
        ensures
            r matches Ok(v) ==> int_from_text(s@, true, i128::MIN as int, i128::MAX as int, "-170141183460469231731687303715884105728"@, "170141183460469231731687303715884105727"@) == Ok::<int, ErrorView>(v as int),
            r matches Err(e) ==> int_from_text(s@, true, i128::MIN as int, i128::MAX as int, "-170141183460469231731687303715884105728"@, "170141183460469231731687303715884105727"@) == Err::<int, ErrorView>(e@),
    {
        parse_i128(s)
    }

    fn validate(s: &str) -> (r: Result<Vec<String>, Error>)
        ensures
            listed(r) == int_prefix_check(s@, true, i128::MIN as int, i128::MAX as int, "-170141183460469231731687303715884105728"@, "170141183460469231731687303715884105727"@),
    {
        validate_i128(s)
    }
}

/// Reads a `isize` in decimal; a failure is mapped with the bounds of `isize`.
pub fn parse_isize(s: &str) -> (r: Result<isize, Error>)
    ensures
        r matches Ok(v) ==> int_from_text(s@, true, isize::MIN as int, isize::MAX as int, isize_min_text(), isize_max_text()) == Ok::<int, ErrorView>(v as int),
        r matches Err(e) ==> int_from_text(s@, true, isize::MIN as int, isize::MAX as int, isize_min_text(), isize_max_text()) == Err::<int, ErrorView>(e@),
{
    match parse_signed(s, isize::MIN as i128, isize::MAX as i128) {
        Ok(v) => Ok(v as isize),
        Err(k) => Err(Error::from_parse_int_error(ParseIntError { kind: k }, s, isize_bound_texts().0, isize_bound_texts().1)),
    }
}

/// Checks a `isize` prefix: numbers have no candidates to complete.
pub fn validate_isize(s: &str) -> (r: Result<Vec<String>, Error>)
    ensures
        listed(r) == int_prefix_check(s@, true, isize::MIN as int, isize::MAX as int, isize_min_text(), isize_max_text()),
{
    match parse_signed(s, isize::MIN as i128, isize::MAX as i128) {
        Ok(_) => {
            let v: Vec<String> = Vec::new();
            proof {
                assert(v.deep_view() =~= Seq::<Seq<char>>::empty());
            }
            Ok(v)
        },
        Err(k) => Err(Error::from_parse_int_error(ParseIntError { kind: k }, s, isize_bound_texts().0, isize_bound_texts().1)),
    }
}

impl Value for isize {
    fn parse(s: &str) -> (r: Result<isize, Error>)
        ensures
            r matches Ok(v) ==> int_from_text(s@, true, isize::MIN as int, isize::MAX as int, isize_min_text(), isize_max_text()) == Ok::<int, ErrorView>(v as int),
            r matches Err(e) ==> int_from_text(s@, true, isize::MIN as int, isize::MAX as int, isize_min_text(), isize_max_text()) == Err::<int, ErrorView>(e@),
    {
        parse_isize(s)
    }

    fn validate(s: &str) -> (r: Result<Vec<String>, Error>)
        ensures
            listed(r) == int_prefix_check(s@, true, isize::MIN as int, isize::MAX as int, isize_min_text(), isize_max_text()),
    {
        validate_isize(s)
    }
}

/// Reading a non-zero integer: as an integer of the same width, with zero
/// refused as `InvalidValue`, and with the non-zero bounds in range errors.
pub open spec fn nonzero_from_text(
    s: Seq<char>,
    signed: bool,
    min: int,
    max: int,
    min_text: Seq<char>,
    max_text: Seq<char>,
) -> Result<int, ErrorView> {
    match parse_int(s, signed, min, max) {
        Ok(v) => if v == 0 {
            Err(ErrorView::InvalidValue { value: s })
        } else {
            Ok(v)
        },
        Err(k) => Err(int_error_view(k, s, min_text, max_text)),
    }
}

/// Checking a non-zero integer prefix: no candidates where it reads as a
/// non-zero integer, else the error of reading it.
pub open spec fn nonzero_prefix_check(
    s: Seq<char>,
    signed: bool,
    min: int,
    max: int,
    min_text: Seq<char>,
    max_text: Seq<char>,
) -> Result<Seq<Seq<char>>, ErrorView> {
    match nonzero_from_text(s, signed, min, max, min_text, max_text) {
        Ok(_) => Ok(Seq::empty()),
        Err(e) => Err(e),
    }
}

/// Reads a non-zero `u8` in decimal: the value, never zero.
pub fn parse_nonzero_u8(s: &str) -> (r: Result<u8, Error>)
    ensures
        r matches Ok(v) ==> v != 0 && nonzero_from_text(s@, false, u8::MIN as int, u8::MAX as int, "1"@, "255"@) == Ok::<int, ErrorView>(v as int),
        r matches Err(e) ==> nonzero_from_text(s@, false, u8::MIN as int, u8::MAX as int, "1"@, "255"@) == Err::<int, ErrorView>(e@),
{
    match parse_unsigned(s, u8::MAX as u128) {
        Ok(v) => {
            if v == 0 {
                Err(Error::from_parse_int_error(ParseIntError { kind: IntErrorKind::Zero }, s, "1", "255"))
            } else {
                Ok(v as u8)
            }
        },
        Err(k) => Err(Error::from_parse_int_error(ParseIntError { kind: k }, s, "1", "255")),
    }
}

/// Checks a non-zero `u8` prefix: numbers have no candidates to complete.
pub fn validate_nonzero_u8(s: &str) -> (r: Result<Vec<String>, Error>)
    ensures
        listed(r) == nonzero_prefix_check(s@, false, u8::MIN as int, u8::MAX as int, "1"@, "255"@),
{
    match parse_nonzero_u8(s) {
        Ok(_) => {
            let v: Vec<String> = Vec::new();
            proof {
                assert(v.deep_view() =~= Seq::<Seq<char>>::empty());
            }
            Ok(v)
        },
        Err(e) => Err(e),
    }
}

/// Reads a non-zero `u16` in decimal: the value, never zero.
pub fn parse_nonzero_u16(s: &str) -> (r: Result<u16, Error>)
    ensures
        r matches Ok(v) ==> v != 0 && nonzero_from_text(s@, false, u16::MIN as int, u16::MAX as int, "1"@, "65535"@) == Ok::<int, ErrorView>(v as int),
        r matches Err(e) ==> nonzero_from_text(s@, false, u16::MIN as int, u16::MAX as int, "1"@, "65535"@) == Err::<int, ErrorView>(e@),
{
    match parse_unsigned(s, u16::MAX as u128) {
        Ok(v) => {
            if v == 0 {
                Err(Error::from_parse_int_error(ParseIntError { kind: IntErrorKind::Zero }, s, "1", "65535"))
            } else {
                Ok(v as u16)
            }
        },
        Err(k) => Err(Error::from_parse_int_error(ParseIntError { kind: k }, s, "1", "65535")),
    }
}

/// Checks a non-zero `u16` prefix: numbers have no candidates to complete.
pub fn validate_nonzero_u16(s: &str) -> (r: Result<Vec<String>, Error>)
    ensures
        listed(r) == nonzero_prefix_check(s@, false, u16::MIN as int, u16::MAX as int, "1"@, "65535"@),
{
    match parse_nonzero_u16(s) {
        Ok(_) => {
            let v: Vec<String> = Vec::new();
            proof {
                assert(v.deep_view() =~= Seq::<Seq<char>>::empty());
            }
            Ok(v)
        },
        Err(e) => Err(e),
    }
}

/// Reads a non-zero `u32` in decimal: the value, never zero.
pub fn parse_nonzero_u32(s: &str) -> (r: Result<u32, Error>)
    ensures
        r matches Ok(v) ==> v != 0 && nonzero_from_text(s@, false, u32::MIN as int, u32::MAX as int, "1"@, "4294967295"@) == Ok::<int, ErrorView>(v as int),
        r matches Err(e) ==> nonzero_from_text(s@, false, u32::MIN as int, u32::MAX as int, "1"@, "4294967295"@) == Err::<int, ErrorView>(e@),
{
    match parse_unsigned(s, u32::MAX as u128) {
        Ok(v) => {
            if v == 0 {
                Err(Error::from_parse_int_error(ParseIntError { kind: IntErrorKind::Zero }, s, "1", "4294967295"))
            } else {
                Ok(v as u32)
            }
        },
        Err(k) => Err(Error::from_parse_int_error(ParseIntError { kind: k }, s, "1", "4294967295")),
    }
}

/// Checks a non-zero `u32` prefix: numbers have no candidates to complete.
pub fn validate_nonzero_u32(s: &str) -> (r: Result<Vec<String>, Error>)
    ensures
        listed(r) == nonzero_prefix_check(s@, false, u32::MIN as int, u32::MAX as int, "1"@, "4294967295"@),
{
    match parse_nonzero_u32(s) {
        Ok(_) => {
            let v: Vec<String> = Vec::new();
            proof {
                assert(v.deep_view() =~= Seq::<Seq<char>>::empty());
            }
            Ok(v)
        },
        Err(e) => Err(e),
    }
}

/// Reads a non-zero `u64` in decimal: the value, never zero.
pub fn parse_nonzero_u64(s: &str) -> (r: Result<u64, Error>)
    ensures
        r matches Ok(v) ==> v != 0 && nonzero_from_text(s@, false, u64::MIN as int, u64::MAX as int, "1"@, "18446744073709551615"@) == Ok::<int, ErrorView>(v as int),
        r matches Err(e) ==> nonzero_from_text(s@, false, u64::MIN as int, u64::MAX as int, "1"@, "18446744073709551615"@) == Err::<int, ErrorView>(e@),
{
    match parse_unsigned(s, u64::MAX as u128) {
        Ok(v) => {
            if v == 0 {
                Err(Error::from_parse_int_error(ParseIntError { kind: IntErrorKind::Zero }, s, "1", "18446744073709551615"))
            } else {
                Ok(v as u64)
            }
        },
        Err(k) => Err(Error::from_parse_int_error(ParseIntError { kind: k }, s, "1", "18446744073709551615")),
    }
}

/// Checks a non-zero `u64` prefix: numbers have no candidates to complete.
pub fn validate_nonzero_u64(s: &str) -> (r: Result<Vec<String>, Error>)
    ensures
        listed(r) == nonzero_prefix_check(s@, false, u64::MIN as int, u64::MAX as int, "1"@, "18446744073709551615"@),
{
    match parse_nonzero_u64(s) {
        Ok(_) => {
            let v: Vec<String> = Vec::new();
            proof {
                assert(v.deep_view() =~= Seq::<Seq<char>>::empty());
            }
            Ok(v)
        },
        Err(e) => Err(e),
    }
}

/// Reads a non-zero `u128` in decimal: the value, never zero.
pub fn parse_nonzero_u128(s: &str) -> (r: Result<u128, Error>)
    ensures
        r matches Ok(v) ==> v != 0 && nonzero_from_text(s@, false, u128::MIN as int, u128::MAX as int, "1"@, "340282366920938463463374607431768211455"@) == Ok::<int, ErrorView>(v as int),
        r matches Err(e) ==> nonzero_from_text(s@, false, u128::MIN as int, u128::MAX as int, "1"@, "340282366920938463463374607431768211455"@) == Err::<int, ErrorView>(e@),
{
    match parse_unsigned(s, u128::MAX as u128) {
        Ok(v) => {
            if v == 0 {
                Err(Error::from_parse_int_error(ParseIntError { kind: IntErrorKind::Zero }, s, "1", "340282366920938463463374607431768211455"))
            } else {
                Ok(v as u128)
            }
        },
        Err(k) => Err(Error::from_parse_int_error(ParseIntError { kind: k }, s, "1", "340282366920938463463374607431768211455")),
    }
}

/// Checks a non-zero `u128` prefix: numbers have no candidates to complete.
pub fn validate_nonzero_u128(s: &str) -> (r: Result<Vec<String>, Error>)
    ensures
        listed(r) == nonzero_prefix_check(s@, false, u128::MIN as int, u128::MAX as int, "1"@, "340282366920938463463374607431768211455"@),
{
    match parse_nonzero_u128(s) {
        Ok(_) => {
            let v: Vec<String> = Vec::new();
            proof {
                assert(v.deep_view() =~= Seq::<Seq<char>>::empty());
            }
            Ok(v)
        },
        Err(e) => Err(e),
    }
}

/// Reads a non-zero `usize` in decimal: the value, never zero.
pub fn parse_nonzero_usize(s: &str) -> (r: Result<usize, Error>)
    ensures
        r matches Ok(v) ==> v != 0 && nonzero_from_text(s@, false, usize::MIN as int, usize::MAX as int, "1"@, usize_max_text()) == Ok::<int, ErrorView>(v as int),
        r matches Err(e) ==> nonzero_from_text(s@, false, usize::MIN as int, usize::MAX as int, "1"@, usize_max_text()) == Err::<int, ErrorView>(e@),
{
    match parse_unsigned(s, usize::MAX as u128) {
        Ok(v) => {
            if v == 0 {
                Err(Error::from_parse_int_error(ParseIntError { kind: IntErrorKind::Zero }, s, "1", usize_bound_texts().1))
            } else {
                Ok(v as usize)
            }
        },
        Err(k) => Err(Error::from_parse_int_error(ParseIntError { kind: k }, s, "1", usize_bound_texts().1)),
    }
}

/// Checks a non-zero `usize` prefix: numbers have no candidates to complete.
pub fn validate_nonzero_usize(s: &str) -> (r: Result<Vec<String>, Error>)
    ensures
        listed(r) == nonzero_prefix_check(s@, false, usize::MIN as int, usize::MAX as int, "1"@, usize_max_text()),
{
    match parse_nonzero_usize(s) {
        Ok(_) => {
            let v: Vec<String> = Vec::new();
            proof {
                assert(v.deep_view() =~= Seq::<Seq<char>>::empty());
            }
            Ok(v)
        },
        Err(e) => Err(e),
    }
}

/// Reads a non-zero `i8` in decimal: the value, never zero.
pub fn parse_nonzero_i8(s: &str) -> (r: Result<i8, Error>)
    ensures
        r matches Ok(v) ==> v != 0 && nonzero_from_text(s@, true, i8::MIN as int, i8::MAX as int, "-128"@, "127"@) == Ok::<int, ErrorView>(v as int),
        r matches Err(e) ==> nonzero_from_text(s@, true, i8::MIN as int, i8::MAX as int, "-128"@, "127"@) == Err::<int, ErrorView>(e@),
{
    match parse_signed(s, i8::MIN as i128, i8::MAX as i128) {
        Ok(v) => {
            if v == 0 {
                Err(Error::from_parse_int_error(ParseIntError { kind: IntErrorKind::Zero }, s, "-128", "127"))
            } else {
                Ok(v as i8)
            }
        },
        Err(k) => Err(Error::from_parse_int_error(ParseIntError { kind: k }, s, "-128", "127")),
    }
}

/// Checks a non-zero `i8` prefix: numbers have no candidates to complete.
pub fn validate_nonzero_i8(s: &str) -> (r: Result<Vec<String>, Error>)
    ensures
        listed(r) == nonzero_prefix_check(s@, true, i8::MIN as int, i8::MAX as int, "-128"@, "127"@),
{
    match parse_nonzero_i8(s) {
        Ok(_) => {
            let v: Vec<String> = Vec::new();
            proof {
                assert(v.deep_view() =~= Seq::<Seq<char>>::empty());
            }
            Ok(v)
        },
        Err(e) => Err(e),
    }
}

/// Reads a non-zero `i16` in decimal: the value, never zero.
pub fn parse_nonzero_i16(s: &str) -> (r: Result<i16, Error>)
    ensures
        r matches Ok(v) ==> v != 0 && nonzero_from_text(s@, true, i16::MIN as int, i16::MAX as int, "-32768"@, "32767"@) == Ok::<int, ErrorView>(v as int),
        r matches Err(e) ==> nonzero_from_text(s@, true, i16::MIN as int, i16::MAX as int, "-32768"@, "32767"@) == Err::<int, ErrorView>(e@),
{
    match parse_signed(s, i16::MIN as i128, i16::MAX as i128) {
        Ok(v) => {
            if v == 0 {
                Err(Error::from_parse_int_error(ParseIntError { kind: IntErrorKind::Zero }, s, "-32768", "32767"))
            } else {
                Ok(v as i16)
            }
        },
        Err(k) => Err(Error::from_parse_int_error(ParseIntError { kind: k }, s, "-32768", "32767")),
    }
}

/// Checks a non-zero `i16` prefix: numbers have no candidates to complete.
pub fn validate_nonzero_i16(s: &str) -> (r: Result<Vec<String>, Error>)
    ensures
        listed(r) == nonzero_prefix_check(s@, true, i16::MIN as int, i16::MAX as int, "-32768"@, "32767"@),
{
    match parse_nonzero_i16(s) {
        Ok(_) => {
            let v: Vec<String> = Vec::new();
            proof {
                assert(v.deep_view() =~= Seq::<Seq<char>>::empty());
            }
            Ok(v)
        },
        Err(e) => Err(e),
    }
}

/// Reads a non-zero `i32` in decimal: the value, never zero.
pub fn parse_nonzero_i32(s: &str) -> (r: Result<i32, Error>)
    ensures
        r matches Ok(v) ==> v != 0 && nonzero_from_text(s@, true, i32::MIN as int, i32::MAX as int, "-2147483648"@, "2147483647"@) == Ok::<int, ErrorView>(v as int),
        r matches Err(e) ==> nonzero_from_text(s@, true, i32::MIN as int, i32::MAX as int, "-2147483648"@, "2147483647"@) == Err::<int, ErrorView>(e@),
{
    match parse_signed(s, i32::MIN as i128, i32::MAX as i128) {
        Ok(v) => {
            if v == 0 {
                Err(Error::from_parse_int_error(ParseIntError { kind: IntErrorKind::Zero }, s, "-2147483648", "2147483647"))
            } else {
                Ok(v as i32)
            }
        },
        Err(k) => Err(Error::from_parse_int_error(ParseIntError { kind: k }, s, "-2147483648", "2147483647")),
    }
}

/// Checks a non-zero `i32` prefix: numbers have no candidates to complete.
pub fn validate_nonzero_i32(s: &str) -> (r: Result<Vec<String>, Error>)
    ensures
        listed(r) == nonzero_prefix_check(s@, true, i32::MIN as int, i32::MAX as int, "-2147483648"@, "2147483647"@),
{
    match parse_nonzero_i32(s) {
        Ok(_) => {
            let v: Vec<String> = Vec::new();
            proof {
                assert(v.deep_view() =~= Seq::<Seq<char>>::empty());
            }
            Ok(v)
        },
        Err(e) => Err(e),
    }
}

/// Reads a non-zero `i64` in decimal: the value, never zero.
pub fn parse_nonzero_i64(s: &str) -> (r: Result<i64, Error>)
    ensures
        r matches Ok(v) ==> v != 0 && nonzero_from_text(s@, true, i64::MIN as int, i64::MAX as int, "-9223372036854775808"@, "9223372036854775807"@) == Ok::<int, ErrorView>(v as int),
        r matches Err(e) ==> nonzero_from_text(s@, true, i64::MIN as int, i64::MAX as int, "-9223372036854775808"@, "9223372036854775807"@) == Err::<int, ErrorView>(e@),
{
    match parse_signed(s, i64::MIN as i128, i64::MAX as i128) {
        Ok(v) => {
            if v == 0 {
                Err(Error::from_parse_int_error(ParseIntError { kind: IntErrorKind::Zero }, s, "-9223372036854775808", "9223372036854775807"))
            } else {
                Ok(v as i64)
            }
        },
        Err(k) => Err(Error::from_parse_int_error(ParseIntError { kind: k }, s, "-9223372036854775808", "9223372036854775807")),
    }
}

/// Checks a non-zero `i64` prefix: numbers have no candidates to complete.
pub fn validate_nonzero_i64(s: &str) -> (r: Result<Vec<String>, Error>)
    ensures
        listed(r) == nonzero_prefix_check(s@, true, i64::MIN as int, i64::MAX as int, "-9223372036854775808"@, "9223372036854775807"@),
{
    match parse_nonzero_i64(s) {
        Ok(_) => {
            let v: Vec<String> = Vec::new();
            proof {
                assert(v.deep_view() =~= Seq::<Seq<char>>::empty());
            }
            Ok(v)
        },
        Err(e) => Err(e),
    }
}

/// Reads a non-zero `i128` in decimal: the value, never zero.
pub fn parse_nonzero_i128(s: &str) -> (r: Result<i128, Error>)
    ensures
        r matches Ok(v) ==> v != 0 && nonzero_from_text(s@, true, i128::MIN as int, i128::MAX as int, "-170141183460469231731687303715884105728"@, "170141183460469231731687303715884105727"@) == Ok::<int, ErrorView>(v as int),
        r matches Err(e) ==> nonzero_from_text(s@, true, i128::MIN as int, i128::MAX as int, "-170141183460469231731687303715884105728"@, "170141183460469231731687303715884105727"@) == Err::<int, ErrorView>(e@),
{
    match parse_signed(s, i128::MIN as i128, i128::MAX as i128) {
        Ok(v) => {
            if v == 0 {
                Err(Error::from_parse_int_error(ParseIntError { kind: IntErrorKind::Zero }, s, "-170141183460469231731687303715884105728", "170141183460469231731687303715884105727"))
            } else {
                Ok(v as i128)
            }
        },
        Err(k) => Err(Error::from_parse_int_error(ParseIntError { kind: k }, s, "-170141183460469231731687303715884105728", "170141183460469231731687303715884105727")),
    }
}

/// Checks a non-zero `i128` prefix: numbers have no candidates to complete.
pub fn validate_nonzero_i128(s: &str) -> (r: Result<Vec<String>, Error>)
    ensures
        listed(r) == nonzero_prefix_check(s@, true, i128::MIN as int, i128::MAX as int, "-170141183460469231731687303715884105728"@, "170141183460469231731687303715884105727"@),
{
    match parse_nonzero_i128(s) {
        Ok(_) => {
            let v: Vec<String> = Vec::new();
            proof {
                assert(v.deep_view() =~= Seq::<Seq<char>>::empty());
            }
            Ok(v)
        },
        Err(e) => Err(e),
    }
}

/// Reads a non-zero `isize` in decimal: the value, never zero.
pub fn parse_nonzero_isize(s: &str) -> (r: Result<isize, Error>)
    ensures
        r matches Ok(v) ==> v != 0 && nonzero_from_text(s@, true, isize::MIN as int, isize::MAX as int, isize_min_text(), isize_max_text()) == Ok::<int, ErrorView>(v as int),
        r matches Err(e) ==> nonzero_from_text(s@, true, isize::MIN as int, isize::MAX as int, isize_min_text(), isize_max_text()) == Err::<int, ErrorView>(e@),
{
    match parse_signed(s, isize::MIN as i128, isize::MAX as i128) {
        Ok(v) => {
            if v == 0 {
                Err(Error::from_parse_int_error(ParseIntError { kind: IntErrorKind::Zero }, s, isize_bound_texts().0, isize_bound_texts().1))
            } else {
                Ok(v as isize)
            }
        },
        Err(k) => Err(Error::from_parse_int_error(ParseIntError { kind: k }, s, isize_bound_texts().0, isize_bound_texts().1)),
    }
}

/// Checks a non-zero `isize` prefix: numbers have no candidates to complete.
pub fn validate_nonzero_isize(s: &str) -> (r: Result<Vec<String>, Error>)
    ensures
        listed(r) == nonzero_prefix_check(s@, true, isize::MIN as int, isize::MAX as int, isize_min_text(), isize_max_text()),
{
    match parse_nonzero_isize(s) {
        Ok(_) => {
            let v: Vec<String> = Vec::new();
            proof {
                assert(v.deep_view() =~= Seq::<Seq<char>>::empty());
            }
            Ok(v)
        },
        Err(e) => Err(e),
    }
}

/// Every candidate that boolean completion offers reads back as a boolean:
/// `true` as `true` and `false` as `false`.
pub proof fn lemma_bool_candidates_parse(i: int)
    requires
        0 <= i < bool_candidates().len(),
    ensures
        bool_from_text(bool_candidates()[i]) == Ok::<bool, ErrorView>(i == 0),
{
    let c = bool_candidates()[i];
    assert(matches_ignoring_case(c, c));
    if i == 0 {
        assert(c == true_words()[1]);
    } else {
        assert(c == false_words()[1]);
        assert(!matches_ignoring_case(c, true_words()[0]));
        assert(!matches_ignoring_case(c, true_words()[1]));
        assert(!matches_ignoring_case(c, true_words()[2]));
    }
}

/// Any text wrapped in double quotes reads as a string back to that text.
pub proof fn lemma_quoted_text_round_trip(t: Seq<char>)
    ensures
        string_from_text(seq!['"'] + t + seq!['"']) == Ok::<Seq<char>, ErrorView>(t),
{
    let q = seq!['"'] + t + seq!['"'];
    assert(q.subrange(1, q.len() - 1) =~= t);
    assert(q[0] == '"');
    assert(q.last() == '"');
}

} // verus!
