//! Recognises paper identifiers such as `[P1488R2]` that are mentioned in
//! free text.
//!
//! A mention is one opening bracket, a paper type, a number, an optional
//! revision and one closing bracket. Every parser here is described by a
//! `spec_` function over the characters of its input; the executable
//! function of the same name computes exactly that.

use crate::text::skip_chars;
use crate::text::string_of;
use crate::text::take_chars;
use crate::text::to_chars;
use vstd::prelude::*;

verus! {

/// A paper identifier that was mentioned in a message.
#[derive(Debug, Eq, PartialEq)]
pub struct ImplicitPaperSearchRequest {
    /// The type prefix as it was written, for example `p` or `LEWG`.
    pub paper_type: String,
    /// The decimal digits that follow the type.
    pub paper_number: String,
    /// The number behind the revision marker `R`, if there is one.
    pub revision_number: Option<i32>,
}

/// What an [`ImplicitPaperSearchRequest`] holds, as plain sequences.
pub struct ImplicitPaperSearchRequestView {
    pub paper_type: Seq<char>,
    pub paper_number: Seq<char>,
    pub revision_number: Option<i32>,
}

impl View for ImplicitPaperSearchRequest {
    type V = ImplicitPaperSearchRequestView;

    open spec fn view(&self) -> ImplicitPaperSearchRequestView {
        ImplicitPaperSearchRequestView {
            paper_type: self.paper_type@,
            paper_number: self.paper_number@,
            revision_number: self.revision_number,
        }
    }
}

/// The views of a list of requests, in the same order.
pub open spec fn requests_view(requests: Seq<ImplicitPaperSearchRequest>) -> Seq<
    ImplicitPaperSearchRequestView,
> {
    Seq::new(requests.len(), |i: int| requests[i]@)
}

/// Why a parser gave up.
#[derive(Clone, Copy, Debug, Eq, PartialEq)]
pub enum ParseErrorKind {
    /// A fixed piece of text was expected.
    Tag,
    /// None of several alternatives applied.
    Alt,
    /// At least one character of a class was expected.
    TakeWhile1,
}

/// The failure of a parser: the innermost cause first, each entry with the
/// input that was left when it occurred.
#[derive(Debug, Eq, PartialEq)]
pub struct ParseError {
    pub errors: Vec<(String, ParseErrorKind)>,
}

/// The entries of a [`ParseError`] over plain sequences.
pub type ErrorTrace = Seq<(Seq<char>, ParseErrorKind)>;

impl View for ParseError {
    type V = ErrorTrace;

    open spec fn view(&self) -> ErrorTrace {
        Seq::new(self.errors@.len(), |i: int| (self.errors@[i].0@, self.errors@[i].1))
    }
}

/// What a parser returns: the input that is left and the value, or the
/// failure.
pub type Parsed<T> = Result<(Seq<char>, T), ErrorTrace>;

/// A parser found `value` and left `rest`.
pub open spec fn parsed<T>(rest: Seq<char>, value: T) -> Parsed<T> {
    Ok((rest, value))
}

/// A parser for one fixed text failed on `input`.
pub open spec fn tag_failure(input: Seq<char>) -> ErrorTrace {
    seq![(input, ParseErrorKind::Tag)]
}

/// Every alternative failed on `input`; the last one tried was a fixed text.
pub open spec fn alt_failure(input: Seq<char>) -> ErrorTrace {
    seq![(input, ParseErrorKind::Tag), (input, ParseErrorKind::Alt)]
}

/// `input` does not start with a character of the wanted class.
pub open spec fn take_while1_failure(input: Seq<char>) -> ErrorTrace {
    seq![(input, ParseErrorKind::TakeWhile1)]
}

/// The ASCII decimal digits.
pub open spec fn is_digit(c: char) -> bool {
    '0' <= c <= '9'
}

/// The three characters that open a mention.
pub open spec fn is_start_request_character(c: char) -> bool {
    c == '[' || c == '{' || c == '<'
}

/// The three characters that close a mention.
pub open spec fn is_end_request_character(c: char) -> bool {
    c == ']' || c == '}' || c == '>'
}

/// `c` is the upper-case ASCII letter `upper` or its lower-case form.
pub open spec fn same_letter(c: char, upper: char) -> bool {
    c == upper || c as int == upper as int + 32
}

/// The number of digits at the start of `input`.
pub open spec fn digits_len(input: Seq<char>) -> nat
    decreases input.len(),
{
    if input.len() > 0 && is_digit(input[0]) {
        1 + digits_len(input.skip(1))
    } else {
        0
    }
}

/// The number of characters at the start of `input` that open no mention.
pub open spec fn trash_len(input: Seq<char>) -> nat
    decreases input.len(),
{
    if input.len() > 0 && !is_start_request_character(input[0]) {
        1 + trash_len(input.skip(1))
    } else {
        0
    }
}

/// The number that the decimal digits `digits` spell; leading zeros count
/// for nothing.
pub open spec fn decimal_value(digits: Seq<char>) -> nat
    decreases digits.len(),
{
    if digits.len() == 0 {
        0
    } else {
        decimal_value(digits.drop_last()) * 10 + (digits.last() as int - '0' as int) as nat
    }
}

/// The paper types, upper case, in the order in which they are tried.
pub open spec fn paper_type_tags() -> Seq<Seq<char>> {
    seq![
        seq!['N'],
        seq!['P'],
        seq!['D'],
        seq!['C', 'W', 'G'],
        seq!['E', 'W', 'G'],
        seq!['L', 'W', 'G'],
        seq!['L', 'E', 'W', 'G'],
        seq!['F', 'S'],
        seq!['E', 'D', 'I', 'T'],
        seq!['S', 'D'],
    ]
}

/// `input` starts with `tag`, in upper or lower case or any mix of them.
pub open spec fn starts_with_tag(input: Seq<char>, tag: Seq<char>) -> bool {
    &&& tag.len() <= input.len()
    &&& forall|i: int| 0 <= i < tag.len() ==> same_letter(#[trigger] input[i], tag[i])
}

/// The first of `tags[from..]` that `input` starts with.
pub open spec fn first_tag(input: Seq<char>, tags: Seq<Seq<char>>, from: int) -> Option<int>
    decreases tags.len() - from,
{
    if from < 0 || from >= tags.len() {
        None
    } else if starts_with_tag(input, tags[from]) {
        Some(from)
    } else {
        first_tag(input, tags, from + 1)
    }
}

/// One of `[`, `{`, `<`.
pub open spec fn spec_start_paper_search_request(input: Seq<char>) -> Parsed<Seq<char>> {
    if input.len() > 0 && is_start_request_character(input[0]) {
        Ok((input.skip(1), input.take(1)))
    } else {
        Err(alt_failure(input))
    }
}

/// One of `]`, `}`, `>`.
pub open spec fn spec_end_paper_search_request(input: Seq<char>) -> Parsed<Seq<char>> {
    if input.len() > 0 && is_end_request_character(input[0]) {
        Ok((input.skip(1), input.take(1)))
    } else {
        Err(alt_failure(input))
    }
}

/// The first paper type of [`paper_type_tags`] that `input` starts with, as
/// it is written in `input`.
pub open spec fn spec_paper_type(input: Seq<char>) -> Parsed<Seq<char>> {
    match first_tag(input, paper_type_tags(), 0) {
        Some(i) => {
            let len = paper_type_tags()[i].len() as int;
            Ok((input.skip(len), input.take(len)))
        },
        None => Err(alt_failure(input)),
    }
}

/// All the digits at the start of `input`, of which there must be one.
pub open spec fn spec_paper_number(input: Seq<char>) -> Parsed<Seq<char>> {
    let len = digits_len(input) as int;
    if len > 0 {
        Ok((input.skip(len), input.take(len)))
    } else {
        Err(take_while1_failure(input))
    }
}

/// The revision marker, `R` or `r`.
pub open spec fn spec_revision(input: Seq<char>) -> Parsed<Seq<char>> {
    if input.len() > 0 && same_letter(input[0], 'R') {
        Ok((input.skip(1), input.take(1)))
    } else {
        Err(tag_failure(input))
    }
}

/// All the digits at the start of `input`, of which there must be one.
pub open spec fn spec_revision_number(input: Seq<char>) -> Parsed<Seq<char>> {
    spec_paper_number(input)
}

/// A revision marker, digits behind it, and a value of them that an `i32`
/// holds. Where any of these is missing there is no revision suffix, and
/// nothing of `input` belongs to it.
pub open spec fn spec_revision_suffix(input: Seq<char>) -> Option<(Seq<char>, i32)> {
    match spec_revision(input) {
        Ok((after_marker, _)) => match spec_revision_number(after_marker) {
            Ok((rest, digits)) => if decimal_value(digits) <= i32::MAX {
                Some((rest, decimal_value(digits) as i32))
            } else {
                None
            },
            Err(_) => None,
        },
        Err(_) => None,
    }
}

/// A paper type, a number and, if one follows, a revision suffix.
pub open spec fn spec_paper(input: Seq<char>) -> Parsed<ImplicitPaperSearchRequestView> {
    match spec_paper_type(input) {
        Err(failure) => Err(failure),
        Ok((after_type, paper_type)) => match spec_paper_number(after_type) {
            Err(failure) => Err(failure),
            Ok((after_number, paper_number)) => match spec_revision_suffix(after_number) {
                Some((rest, revision)) => Ok(
                    (
                        rest,
                        ImplicitPaperSearchRequestView {
                            paper_type,
                            paper_number,
                            revision_number: Some(revision),
                        },
                    ),
                ),
                None => Ok(
                    (
                        after_number,
                        ImplicitPaperSearchRequestView {
                            paper_type,
                            paper_number,
                            revision_number: None,
                        },
                    ),
                ),
            },
        },
    }
}

/// An opening bracket, a paper and a closing bracket. The two brackets need
/// not be of one kind.
pub open spec fn spec_paper_request(input: Seq<char>) -> Parsed<ImplicitPaperSearchRequestView> {
    match spec_start_paper_search_request(input) {
        Err(failure) => Err(failure),
        Ok((after_start, _)) => match spec_paper(after_start) {
            Err(failure) => Err(failure),
            Ok((after_paper, request)) => match spec_end_paper_search_request(after_paper) {
                Err(failure) => Err(failure),
                Ok((rest, _)) => Ok((rest, request)),
            },
        },
    }
}

/// A mention behind any text that holds no opening bracket.
pub open spec fn spec_paper_request_with_leading_trash(input: Seq<char>) -> Parsed<
    ImplicitPaperSearchRequestView,
> {
    spec_paper_request(input.skip(trash_len(input) as int))
}

/// The mentions of `input` from left to right, each behind its leading
/// text, up to the first place where no mention can be read; and `input`
/// from that place on. What follows a bracket that opens no valid mention
/// is not looked at.
pub open spec fn spec_many_paper_requests(input: Seq<char>) -> (
    Seq<char>,
    Seq<ImplicitPaperSearchRequestView>,
)
    decreases input.len(),
{
    match spec_paper_request_with_leading_trash(input) {
        Ok((rest, request)) => if rest.len() < input.len() {
            let (left, more) = spec_many_paper_requests(rest);
            (left, seq![request] + more)
        } else {
            // A mention is never empty: see `lemma_mention_is_not_empty`.
            (input, Seq::empty())
        },
        Err(_) => (input, Seq::empty()),
    }
}

/// The result of a parser that hands out a piece of its input.
pub open spec fn text_result_view(result: Result<(&str, &str), ParseError>) -> Parsed<Seq<char>> {
    match result {
        Ok((rest, found)) => Ok((rest@, found@)),
        Err(failure) => Err(failure@),
    }
}

/// The result of a parser that hands out a request.
pub open spec fn request_result_view(
    result: Result<(&str, ImplicitPaperSearchRequest), ParseError>,
) -> Parsed<ImplicitPaperSearchRequestView> {
    match result {
        Ok((rest, request)) => Ok((rest@, request@)),
        Err(failure) => Err(failure@),
    }
}

/// `nom::character::is_digit`: true for the bytes `0x30` to `0x39`, the
/// ASCII digits, and for no other byte.
#[verifier::external_body]
fn is_digit_byte(chr: u8) -> (result: bool)
    ensures
        result == (0x30 <= chr <= 0x39),
{
    nom::character::is_digit(chr)
}

/// Whether `chr` is an ASCII decimal digit.
pub fn is_char_digit(chr: char) -> (result: bool)
    ensures
        result == is_digit(chr),
{
    chr as u32 <= 0x7f && is_digit_byte(chr as u8)
}

/// Whether `chr` can stand in the text before a mention.
pub fn is_not_start_request_character(chr: char) -> (result: bool)
    ensures
        result == !is_start_request_character(chr),
{
    !(chr == '[' || chr == '{' || chr == '<')
}

/// Whether `chr` closes a mention.
fn is_end_character(chr: char) -> (result: bool)
    ensures
        result == is_end_request_character(chr),
{
    chr == ']' || chr == '}' || chr == '>'
}

/// The failure of the given kind with the input from `at` on.
fn failure_at(chars: &Vec<char>, at: usize, kind: ParseErrorKind) -> (failure: ParseError)
    requires
        at <= chars.len(),
    ensures
        failure@ == match kind {
            ParseErrorKind::Tag => tag_failure(chars@.skip(at as int)),
            ParseErrorKind::Alt => alt_failure(chars@.skip(at as int)),
            ParseErrorKind::TakeWhile1 => take_while1_failure(chars@.skip(at as int)),
        },
{
    let mut errors: Vec<(String, ParseErrorKind)> = Vec::new();
    let left = string_of(chars, at, chars.len());
    assert(chars@.subrange(at as int, chars.len() as int) =~= chars@.skip(at as int));
    match kind {
        ParseErrorKind::Tag => {
            errors.push((left, ParseErrorKind::Tag));
        },
        ParseErrorKind::Alt => {
            errors.push((left.clone(), ParseErrorKind::Tag));
            errors.push((left, ParseErrorKind::Alt));
        },
        ParseErrorKind::TakeWhile1 => {
            errors.push((left, ParseErrorKind::TakeWhile1));
        },
    }
    let failure = ParseError { errors };
    assert(failure@ =~= match kind {
        ParseErrorKind::Tag => tag_failure(chars@.skip(at as int)),
        ParseErrorKind::Alt => alt_failure(chars@.skip(at as int)),
        ParseErrorKind::TakeWhile1 => take_while1_failure(chars@.skip(at as int)),
    });
    failure
}

/// Where the digits that start at `pos` end.
fn digits_end(chars: &Vec<char>, pos: usize) -> (end: usize)
    requires
        pos <= chars.len(),
    ensures
        pos <= end <= chars.len(),
        end - pos == digits_len(chars@.skip(pos as int)),
{
    let mut end: usize = pos;
    while end < chars.len() && is_char_digit(chars[end])
        invariant
            pos <= end <= chars.len(),
            digits_len(chars@.skip(pos as int)) == (end - pos) + digits_len(
                chars@.skip(end as int),
            ),
        decreases chars.len() - end,
    {
        assert(chars@.skip(end as int).skip(1) =~= chars@.skip(end + 1));
        end += 1;
    }
    end
}

/// Where the text without an opening bracket that starts at `pos` ends.
fn trash_end(chars: &Vec<char>, pos: usize) -> (end: usize)
    requires
        pos <= chars.len(),
    ensures
        pos <= end <= chars.len(),
        end - pos == trash_len(chars@.skip(pos as int)),
{
    let mut end: usize = pos;
    while end < chars.len() && is_not_start_request_character(chars[end])
        invariant
            pos <= end <= chars.len(),
            trash_len(chars@.skip(pos as int)) == (end - pos) + trash_len(
                chars@.skip(end as int),
            ),
        decreases chars.len() - end,
    {
        assert(chars@.skip(end as int).skip(1) =~= chars@.skip(end + 1));
        end += 1;
    }
    end
}

/// Whether `chr` is the upper-case letter `upper` or its lower-case form.
fn is_same_letter(chr: char, upper: char) -> (result: bool)
    requires
        'A' <= upper <= 'Z',
    ensures
        result == same_letter(chr, upper),
{
    chr == upper || chr as u32 == upper as u32 + 32
}

/// Whether the characters from `pos` on start with `tag`, whatever their
/// case.
fn has_tag(chars: &Vec<char>, pos: usize, tag: &[char]) -> (result: bool)
    requires
        pos <= chars.len(),
        forall|i: int| 0 <= i < tag@.len() ==> 'A' <= #[trigger] tag@[i] <= 'Z',
    ensures
        result == starts_with_tag(chars@.skip(pos as int), tag@),
{
    if tag.len() > chars.len() - pos {
        return false;
    }
    let ghost input = chars@.skip(pos as int);
    let mut i: usize = 0;
    while i < tag.len()
        invariant
            pos <= chars.len(),
            tag@.len() <= chars.len() - pos,
            0 <= i <= tag@.len(),
            input == chars@.skip(pos as int),
            forall|j: int| 0 <= j < tag@.len() ==> 'A' <= #[trigger] tag@[j] <= 'Z',
            forall|j: int| 0 <= j < i ==> same_letter(#[trigger] input[j], tag@[j]),
        decreases tag@.len() - i,
    {
        let c = chars[pos + i];
        let upper = tag[i];
        assert(input[i as int] == c);
        assert('A' <= tag@[i as int] <= 'Z');
        if !is_same_letter(c, upper) {
            return false;
        }
        i += 1;
    }
    true
}

/// How long the paper type at `pos` is, if there is one.
fn paper_type_len(chars: &Vec<char>, pos: usize) -> (result: Option<usize>)
    requires
        pos <= chars.len(),
    ensures
        match first_tag(chars@.skip(pos as int), paper_type_tags(), 0) {
            Some(i) => result matches Some(len) && len == paper_type_tags()[i].len(),
            None => result is None,
        },
        result matches Some(len) ==> 1 <= len <= chars.len() - pos,
{
    proof {
        reveal_with_fuel(first_tag, 11);
    }
    let n: [char; 1] = ['N'];
    let p: [char; 1] = ['P'];
    let d: [char; 1] = ['D'];
    let cwg: [char; 3] = ['C', 'W', 'G'];
    let ewg: [char; 3] = ['E', 'W', 'G'];
    let lwg: [char; 3] = ['L', 'W', 'G'];
    let lewg: [char; 4] = ['L', 'E', 'W', 'G'];
    let fs: [char; 2] = ['F', 'S'];
    let edit: [char; 4] = ['E', 'D', 'I', 'T'];
    let sd: [char; 2] = ['S', 'D'];
    assert(n@ =~= paper_type_tags()[0]);
    assert(p@ =~= paper_type_tags()[1]);
    assert(d@ =~= paper_type_tags()[2]);
    assert(cwg@ =~= paper_type_tags()[3]);
    assert(ewg@ =~= paper_type_tags()[4]);
    assert(lwg@ =~= paper_type_tags()[5]);
    assert(lewg@ =~= paper_type_tags()[6]);
    assert(fs@ =~= paper_type_tags()[7]);
    assert(edit@ =~= paper_type_tags()[8]);
    assert(sd@ =~= paper_type_tags()[9]);
    if has_tag(chars, pos, n.as_slice()) {
        Some(1)
    } else if has_tag(chars, pos, p.as_slice()) {
        Some(1)
    } else if has_tag(chars, pos, d.as_slice()) {
        Some(1)
    } else if has_tag(chars, pos, cwg.as_slice()) {
        Some(3)
    } else if has_tag(chars, pos, ewg.as_slice()) {
        Some(3)
    } else if has_tag(chars, pos, lwg.as_slice()) {
        Some(3)
    } else if has_tag(chars, pos, lewg.as_slice()) {
        Some(4)
    } else if has_tag(chars, pos, fs.as_slice()) {
        Some(2)
    } else if has_tag(chars, pos, edit.as_slice()) {
        Some(4)
    } else if has_tag(chars, pos, sd.as_slice()) {
        Some(2)
    } else {
        None
    }
}

/// A longer run of digits spells no smaller number.
proof fn lemma_decimal_value_grows(digits: Seq<char>, shorter: int)
    requires
        0 <= shorter <= digits.len(),
        forall|i: int| 0 <= i < digits.len() ==> is_digit(#[trigger] digits[i]),
    ensures
        decimal_value(digits.take(shorter)) <= decimal_value(digits),
    decreases digits.len() - shorter,
{
    if shorter == digits.len() {
        assert(digits.take(shorter) =~= digits);
    } else {
        assert(digits.drop_last().take(shorter) =~= digits.take(shorter));
        lemma_decimal_value_grows(digits.drop_last(), shorter);
    }
}

/// The number that the digits `from..to` spell, if an `i32` holds it.
fn revision_value(chars: &Vec<char>, from: usize, to: usize) -> (result: Option<i32>)
    requires
        from <= to <= chars.len(),
        forall|i: int| from <= i < to ==> is_digit(#[trigger] chars@[i]),
    ensures
        result == if decimal_value(chars@.subrange(from as int, to as int)) <= i32::MAX {
            Some(decimal_value(chars@.subrange(from as int, to as int)) as i32)
        } else {
            None
        },
{
    let ghost digits = chars@.subrange(from as int, to as int);
    let mut value: u64 = 0;
    let mut i: usize = from;
    while i < to
        invariant
            from <= i <= to <= chars.len(),
            digits == chars@.subrange(from as int, to as int),
            forall|j: int| from <= j < to ==> is_digit(#[trigger] chars@[j]),
            value == decimal_value(digits.take(i - from)),
            value <= i32::MAX,
        decreases to - i,
    {
        let digit = digit_of(chars[i]);
        proof {
            let longer = digits.take(i + 1 - from);
            assert(longer.drop_last() =~= digits.take(i - from));
            assert(longer.last() == chars@[i as int]);
        }
        value = value * 10 + digit as u64;
        if value > i32::MAX as u64 {
            proof {
                lemma_decimal_value_grows(digits, i + 1 - from);
            }
            return None;
        }
        i += 1;
    }
    assert(digits.take(to - from) =~= digits);
    Some(value as i32)
}

/// The value of one decimal digit.
fn digit_of(chr: char) -> (value: u8)
    requires
        is_digit(chr),
    ensures
        value == chr as int - '0' as int,
        value <= 9,
{
    (chr as u32 - 48) as u8
}

/// `digits_len` counts digits, all of them, and stops at the first
/// character that is none.
pub proof fn lemma_digits_len(input: Seq<char>)
    ensures
        digits_len(input) <= input.len(),
        forall|i: int| 0 <= i < digits_len(input) ==> is_digit(#[trigger] input[i]),
        digits_len(input) < input.len() ==> !is_digit(input[digits_len(input) as int]),
    decreases input.len(),
{
    if input.len() > 0 && is_digit(input[0]) {
        let tail = input.skip(1);
        lemma_digits_len(tail);
        assert forall|i: int| 0 <= i < digits_len(input) implies is_digit(
            #[trigger] input[i],
        ) by {
            if i > 0 {
                assert(input[i] == tail[i - 1]);
            }
        }
        if digits_len(input) < input.len() {
            assert(input[digits_len(input) as int] == tail[digits_len(tail) as int]);
        }
    }
}

/// `trash_len` counts characters that open no mention, all of them, and
/// stops at the first opening bracket.
pub proof fn lemma_trash_len(input: Seq<char>)
    ensures
        trash_len(input) <= input.len(),
        forall|i: int|
            0 <= i < trash_len(input) ==> !is_start_request_character(#[trigger] input[i]),
        trash_len(input) < input.len() ==> is_start_request_character(
            input[trash_len(input) as int],
        ),
    decreases input.len(),
{
    if input.len() > 0 && !is_start_request_character(input[0]) {
        let tail = input.skip(1);
        lemma_trash_len(tail);
        assert forall|i: int| 0 <= i < trash_len(input) implies !is_start_request_character(
            #[trigger] input[i],
        ) by {
            if i > 0 {
                assert(input[i] == tail[i - 1]);
            }
        }
        if trash_len(input) < input.len() {
            assert(input[trash_len(input) as int] == tail[trash_len(tail) as int]);
        }
    }
}

/// The part of a mention that could not be read.
enum Stage {
    Start,
    PaperType,
    PaperNumber,
    End,
}

/// Where the reading of a mention stopped, and at which part of it.
struct Stop {
    at: usize,
    stage: Stage,
}

/// The failure that a [`Stop`] stands for.
spec fn stop_trace(chars: Seq<char>, stop: Stop) -> ErrorTrace {
    match stop.stage {
        Stage::PaperNumber => take_while1_failure(chars.skip(stop.at as int)),
        _ => alt_failure(chars.skip(stop.at as int)),
    }
}

/// Reads a paper at `pos`.
fn scan_paper(chars: &Vec<char>, pos: usize) -> (result: Result<
    (usize, ImplicitPaperSearchRequest),
    Stop,
>)
    requires
        pos <= chars.len(),
    ensures
        match spec_paper(chars@.skip(pos as int)) {
            Ok((rest, request)) => {
                &&& result matches Ok((end, found))
                &&& pos < end <= chars.len()
                &&& rest == chars@.skip(end as int)
                &&& found@ == request
            },
            Err(failure) => {
                &&& result matches Err(stop)
                &&& pos <= stop.at <= chars.len()
                &&& stop.stage is PaperType || stop.stage is PaperNumber
                &&& failure == stop_trace(chars@, stop)
            },
        },
{
    let ghost input = chars@.skip(pos as int);
    let type_len = match paper_type_len(chars, pos) {
        Some(len) => len,
        None => {
            return Err(Stop { at: pos, stage: Stage::PaperType });
        },
    };
    let number_start = pos + type_len;
    let number_end = digits_end(chars, number_start);
    assert(input.skip(type_len as int) =~= chars@.skip(number_start as int));
    if number_end == number_start {
        return Err(Stop { at: number_start, stage: Stage::PaperNumber });
    }
    let ghost after_type = chars@.skip(number_start as int);
    let ghost after_number = chars@.skip(number_end as int);
    assert(after_type.skip(number_end - number_start) =~= after_number);
    let mut end = number_end;
    let mut revision_number: Option<i32> = None;
    if number_end < chars.len() && is_same_letter(chars[number_end], 'R') {
        let digits_start = number_end + 1;
        let revision_end = digits_end(chars, digits_start);
        let ghost after_marker = chars@.skip(digits_start as int);
        assert(after_number.skip(1) =~= after_marker);
        if revision_end > digits_start {
            proof {
                lemma_digits_len(after_marker);
                assert forall|i: int| digits_start <= i < revision_end implies is_digit(
                    #[trigger] chars@[i],
                ) by {
                    assert(chars@[i] == after_marker[i - digits_start]);
                }
                assert(after_marker.take(revision_end - digits_start) =~= chars@.subrange(
                    digits_start as int,
                    revision_end as int,
                ));
                assert(after_marker.skip(revision_end - digits_start) =~= chars@.skip(
                    revision_end as int,
                ));
            }
            match revision_value(chars, digits_start, revision_end) {
                Some(value) => {
                    revision_number = Some(value);
                    end = revision_end;
                },
                None => {},
            }
        }
    }
    let paper_type = string_of(chars, pos, number_start);
    let paper_number = string_of(chars, number_start, number_end);
    assert(input.take(type_len as int) =~= chars@.subrange(pos as int, number_start as int));
    assert(after_type.take(number_end - number_start) =~= chars@.subrange(
        number_start as int,
        number_end as int,
    ));
    Ok((end, ImplicitPaperSearchRequest { paper_type, paper_number, revision_number }))
}

/// `input` starts with an opening bracket and a paper, and no closing
/// bracket follows the paper.
pub open spec fn is_unclosed_paper_request(input: Seq<char>) -> bool {
    match spec_start_paper_search_request(input) {
        Ok((after_start, _)) => match spec_paper(after_start) {
            Ok((after_paper, _)) => spec_end_paper_search_request(after_paper) is Err,
            Err(_) => false,
        },
        Err(_) => false,
    }
}

/// Reads a mention at `pos`.
fn scan_paper_request(chars: &Vec<char>, pos: usize) -> (result: Result<
    (usize, ImplicitPaperSearchRequest),
    Stop,
>)
    requires
        pos <= chars.len(),
    ensures
        match spec_paper_request(chars@.skip(pos as int)) {
            Ok((rest, request)) => {
                &&& result matches Ok((end, found))
                &&& pos < end <= chars.len()
                &&& rest == chars@.skip(end as int)
                &&& found@ == request
            },
            Err(failure) => {
                &&& result matches Err(stop)
                &&& pos <= stop.at <= chars.len()
                &&& failure == stop_trace(chars@, stop)
                &&& stop.stage is End <==> is_unclosed_paper_request(chars@.skip(pos as int))
            },
        },
{
    let ghost input = chars@.skip(pos as int);
    if !(pos < chars.len() && !is_not_start_request_character(chars[pos])) {
        return Err(Stop { at: pos, stage: Stage::Start });
    }
    assert(input.skip(1) =~= chars@.skip(pos + 1));
    match scan_paper(chars, pos + 1) {
        Err(stop) => Err(stop),
        Ok((paper_end, request)) => {
            if paper_end < chars.len() && is_end_character(chars[paper_end]) {
                assert(chars@.skip(paper_end as int).skip(1) =~= chars@.skip(paper_end + 1));
                Ok((paper_end + 1, request))
            } else {
                Err(Stop { at: paper_end, stage: Stage::End })
            }
        },
    }
}

/// Reads a mention behind the text without opening bracket that starts at
/// `pos`.
fn scan_paper_request_with_leading_trash(chars: &Vec<char>, pos: usize) -> (result: Result<
    (usize, ImplicitPaperSearchRequest),
    Stop,
>)
    requires
        pos <= chars.len(),
    ensures
        match spec_paper_request_with_leading_trash(chars@.skip(pos as int)) {
            Ok((rest, request)) => {
                &&& result matches Ok((end, found))
                &&& pos < end <= chars.len()
                &&& rest == chars@.skip(end as int)
                &&& found@ == request
            },
            Err(failure) => {
                &&& result matches Err(stop)
                &&& pos <= stop.at <= chars.len()
                &&& failure == stop_trace(chars@, stop)
                &&& stop.stage is End <==> is_unclosed_paper_request(
                    chars@.skip(pos as int).skip(trash_len(chars@.skip(pos as int)) as int),
                )
            },
        },
{
    let start = trash_end(chars, pos);
    assert(chars@.skip(pos as int).skip(start - pos) =~= chars@.skip(start as int));
    scan_paper_request(chars, start)
}

/// The failure that `stop` stands for.
fn failure_of(chars: &Vec<char>, stop: Stop) -> (failure: ParseError)
    requires
        stop.at <= chars.len(),
    ensures
        failure@ == stop_trace(chars@, stop),
{
    match stop.stage {
        Stage::PaperNumber => failure_at(chars, stop.at, ParseErrorKind::TakeWhile1),
        _ => failure_at(chars, stop.at, ParseErrorKind::Alt),
    }
}

/// Reads one opening bracket: `[`, `{` or `<`.
pub fn start_paper_search_request(input: &str) -> (result: Result<(&str, &str), ParseError>)
    ensures
        text_result_view(result) == spec_start_paper_search_request(input@),
{
    let chars = to_chars(input);
    if chars.len() > 0 && !is_not_start_request_character(chars[0]) {
        Ok((skip_chars(input, 1), take_chars(input, 1)))
    } else {
        assert(chars@.skip(0) =~= chars@);
        Err(failure_at(&chars, 0, ParseErrorKind::Alt))
    }
}

/// Reads one closing bracket: `]`, `}` or `>`.
pub fn end_paper_search_request(input: &str) -> (result: Result<(&str, &str), ParseError>)
    ensures
        text_result_view(result) == spec_end_paper_search_request(input@),
{
    let chars = to_chars(input);
    if chars.len() > 0 && is_end_character(chars[0]) {
        Ok((skip_chars(input, 1), take_chars(input, 1)))
    } else {
        assert(chars@.skip(0) =~= chars@);
        Err(failure_at(&chars, 0, ParseErrorKind::Alt))
    }
}

/// Reads a paper type: one of `N`, `P`, `D`, `CWG`, `EWG`, `LWG`, `LEWG`,
/// `FS`, `EDIT`, `SD`, in upper or lower case.
pub fn paper_type(input: &str) -> (result: Result<(&str, &str), ParseError>)
    ensures
        text_result_view(result) == spec_paper_type(input@),
{
    let chars = to_chars(input);
    assert(chars@.skip(0) =~= chars@);
    match paper_type_len(&chars, 0) {
        Some(len) => Ok((skip_chars(input, len), take_chars(input, len))),
        None => Err(failure_at(&chars, 0, ParseErrorKind::Alt)),
    }
}

/// Reads the digits of a paper number; there must be at least one.
pub fn paper_number(input: &str) -> (result: Result<(&str, &str), ParseError>)
    ensures
        text_result_view(result) == spec_paper_number(input@),
{
    let chars = to_chars(input);
    assert(chars@.skip(0) =~= chars@);
    let end = digits_end(&chars, 0);
    if end > 0 {
        Ok((skip_chars(input, end), take_chars(input, end)))
    } else {
        Err(failure_at(&chars, 0, ParseErrorKind::TakeWhile1))
    }
}

/// Reads the revision marker, `R` or `r`.
pub fn revision(input: &str) -> (result: Result<(&str, &str), ParseError>)
    ensures
        text_result_view(result) == spec_revision(input@),
{
    let chars = to_chars(input);
    if chars.len() > 0 && is_same_letter(chars[0], 'R') {
        Ok((skip_chars(input, 1), take_chars(input, 1)))
    } else {
        assert(chars@.skip(0) =~= chars@);
        Err(failure_at(&chars, 0, ParseErrorKind::Tag))
    }
}

/// Reads the digits of a revision number; there must be at least one.
pub fn revision_number(input: &str) -> (result: Result<(&str, &str), ParseError>)
    ensures
        text_result_view(result) == spec_revision_number(input@),
{
    paper_number(input)
}

/// Reads a paper: its type, its number and, where `R` and digits that an
/// `i32` holds follow, its revision. An `R` without such digits is left in
/// the input.
pub fn paper(input: &str) -> (result: Result<(&str, ImplicitPaperSearchRequest), ParseError>)
    ensures
        request_result_view(result) == spec_paper(input@),
{
    let chars = to_chars(input);
    assert(chars@.skip(0) =~= chars@);
    match scan_paper(&chars, 0) {
        Ok((end, request)) => Ok((skip_chars(input, end), request)),
        Err(stop) => Err(failure_of(&chars, stop)),
    }
}

/// Reads a mention: an opening bracket, a paper and a closing bracket.
pub fn paper_request(input: &str) -> (result: Result<
    (&str, ImplicitPaperSearchRequest),
    ParseError,
>)
    ensures
        request_result_view(result) == spec_paper_request(input@),
{
    let chars = to_chars(input);
    assert(chars@.skip(0) =~= chars@);
    match scan_paper_request(&chars, 0) {
        Ok((end, request)) => Ok((skip_chars(input, end), request)),
        Err(stop) => Err(failure_of(&chars, stop)),
    }
}

/// Reads a mention behind any text that holds no opening bracket.
pub fn paper_request_with_leading_trash(input: &str) -> (result: Result<
    (&str, ImplicitPaperSearchRequest),
    ParseError,
>)
    ensures
        request_result_view(result) == spec_paper_request_with_leading_trash(input@),
{
    let chars = to_chars(input);
    assert(chars@.skip(0) =~= chars@);
    match scan_paper_request_with_leading_trash(&chars, 0) {
        Ok((end, request)) => Ok((skip_chars(input, end), request)),
        Err(stop) => Err(failure_of(&chars, stop)),
    }
}

/// The place at which [`spec_many_paper_requests`] stops is a bracket that
/// opens a paper which no closing bracket follows.
pub open spec fn stops_at_unclosed_paper_request(input: Seq<char>) -> bool {
    let left = spec_many_paper_requests(input).0;
    is_unclosed_paper_request(left.skip(trash_len(left) as int))
}

/// Reads mentions from the start of `chars` until one cannot be read.
/// Returns where that last attempt began, the mentions read before it, and
/// whether it failed for want of a closing bracket.
pub(crate) fn scan_many_paper_requests(chars: &Vec<char>) -> (result: (
    usize,
    Vec<ImplicitPaperSearchRequest>,
    bool,
))
    ensures
        result.0 <= chars.len(),
        spec_many_paper_requests(chars@) == (
            chars@.skip(result.0 as int),
            requests_view(result.1@),
        ),
        result.2 == stops_at_unclosed_paper_request(chars@),
{
    let mut pos: usize = 0;
    let mut requests: Vec<ImplicitPaperSearchRequest> = Vec::new();
    assert(chars@.skip(0) =~= chars@);
    assert(requests_view(requests@) + spec_many_paper_requests(chars@).1
        =~= spec_many_paper_requests(chars@).1);
    loop
        invariant
            pos <= chars.len(),
            spec_many_paper_requests(chars@).0 == spec_many_paper_requests(
                chars@.skip(pos as int),
            ).0,
            spec_many_paper_requests(chars@).1 == requests_view(requests@)
                + spec_many_paper_requests(chars@.skip(pos as int)).1,
        decreases chars.len() - pos,
    {
        match scan_paper_request_with_leading_trash(chars, pos) {
            Ok((end, request)) => {
                proof {
                    let more = spec_many_paper_requests(chars@.skip(end as int)).1;
                    assert(requests_view(requests@.push(request)) =~= requests_view(
                        requests@,
                    ).push(request@));
                    assert(requests_view(requests@).push(request@) + more =~= requests_view(
                        requests@,
                    ) + (seq![request@] + more));
                }
                requests.push(request);
                pos = end;
            },
            Err(stop) => {
                assert(requests_view(requests@) + Seq::empty() =~= requests_view(requests@));
                let unclosed = match stop.stage {
                    Stage::End => true,
                    _ => false,
                };
                return (pos, requests, unclosed);
            },
        }
    }
}

/// Reads all the mentions of `input` from left to right, up to the first
/// place where no mention can be read, and returns them with the input from
/// that place on. It never fails: where the first mention cannot be read,
/// the list is empty and all of `input` is left.
pub fn many_paper_requests(input: &str) -> (result: Result<
    (&str, Vec<ImplicitPaperSearchRequest>),
    ParseError,
>)
    ensures
        result matches Ok((left, requests)) && (left@, requests_view(requests@))
            == spec_many_paper_requests(input@),
{
    let chars = to_chars(input);
    let (pos, requests, _) = scan_many_paper_requests(&chars);
    Ok((skip_chars(input, pos), requests))
}

} // verus!
