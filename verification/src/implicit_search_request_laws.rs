//! What holds of the parsers of mentions on every input.

use crate::error::BotError;
use crate::implicit_search_request_parser::decimal_value;
use crate::implicit_search_request_parser::digits_len;
use crate::implicit_search_request_parser::first_tag;
use crate::implicit_search_request_parser::is_digit;
use crate::implicit_search_request_parser::is_end_request_character;
use crate::implicit_search_request_parser::is_start_request_character;
use crate::implicit_search_request_parser::is_unclosed_paper_request;
use crate::implicit_search_request_parser::lemma_trash_len;
use crate::implicit_search_request_parser::paper_type_tags;
use crate::implicit_search_request_parser::parsed;
use crate::implicit_search_request_parser::same_letter;
use crate::implicit_search_request_parser::spec_many_paper_requests;
use crate::implicit_search_request_parser::spec_paper;
use crate::implicit_search_request_parser::spec_paper_number;
use crate::implicit_search_request_parser::spec_paper_request;
use crate::implicit_search_request_parser::spec_paper_request_with_leading_trash;
use crate::implicit_search_request_parser::spec_paper_type;
use crate::implicit_search_request_parser::spec_revision;
use crate::implicit_search_request_parser::spec_revision_suffix;
use crate::implicit_search_request_parser::spec_start_paper_search_request;
use crate::implicit_search_request_parser::starts_with_tag;
use crate::implicit_search_request_parser::stops_at_unclosed_paper_request;
use crate::implicit_search_request_parser::trash_len;
use crate::implicit_search_request_parser::ImplicitPaperSearchRequestView;
use crate::utils::spec_find_search_request_in_message;
use vstd::prelude::*;

verus! {

/// `written` spells `tag`, letter by letter, in upper or lower case.
pub open spec fn is_spelling_of(written: Seq<char>, tag: Seq<char>) -> bool {
    &&& written.len() == tag.len()
    &&& forall|i: int| 0 <= i < tag.len() ==> same_letter(#[trigger] written[i], tag[i])
}

/// `text` is made of decimal digits, and of one at least.
pub open spec fn is_number(text: Seq<char>) -> bool {
    &&& text.len() > 0
    &&& forall|i: int| 0 <= i < text.len() ==> is_digit(#[trigger] text[i])
}

/// A revision as it is written: the marker and the digits behind it.
pub struct WrittenRevision {
    pub marker: char,
    pub digits: Seq<char>,
}

/// The text of a revision suffix; nothing where there is no revision.
pub open spec fn revision_text(revision: Option<WrittenRevision>) -> Seq<char> {
    match revision {
        Some(revision) => seq![revision.marker] + revision.digits,
        None => Seq::empty(),
    }
}

/// The text of a mention.
pub open spec fn mention_text(
    opening: char,
    paper_type: Seq<char>,
    number: Seq<char>,
    revision: Option<WrittenRevision>,
    closing: char,
) -> Seq<char> {
    seq![opening] + paper_type + number + revision_text(revision) + seq![closing]
}

/// What a mention says.
pub open spec fn mention_view(
    paper_type: Seq<char>,
    number: Seq<char>,
    revision: Option<WrittenRevision>,
) -> ImplicitPaperSearchRequestView {
    ImplicitPaperSearchRequestView {
        paper_type,
        paper_number: number,
        revision_number: match revision {
            Some(revision) => Some(decimal_value(revision.digits) as i32),
            None => None,
        },
    }
}

/// Digits that are followed by the end of the input or by something else
/// than a digit are all the digits there.
pub proof fn lemma_digits_len_of_number(number: Seq<char>, rest: Seq<char>)
    requires
        forall|i: int| 0 <= i < number.len() ==> is_digit(#[trigger] number[i]),
        rest.len() > 0 ==> !is_digit(rest[0]),
    ensures
        digits_len(number + rest) == number.len(),
    decreases number.len(),
{
    if number.len() == 0 {
        assert(number + rest =~= rest);
    } else {
        assert((number + rest)[0] == number[0]);
        assert((number + rest).skip(1) =~= number.skip(1) + rest);
        assert forall|i: int| 0 <= i < number.skip(1).len() implies is_digit(
            #[trigger] number.skip(1)[i],
        ) by {
            assert(number.skip(1)[i] == number[i + 1]);
        }
        lemma_digits_len_of_number(number.skip(1), rest);
    }
}

/// A paper type that is written out, in whatever case, is recognised as
/// itself, whatever follows it.
pub proof fn lemma_paper_type_is_recognised(paper_type: Seq<char>, tag: int, rest: Seq<char>)
    requires
        0 <= tag < paper_type_tags().len(),
        is_spelling_of(paper_type, paper_type_tags()[tag]),
    ensures
        spec_paper_type(paper_type + rest) == parsed(rest, paper_type),
{
    reveal_with_fuel(first_tag, 11);
    let input = paper_type + rest;
    let tags = paper_type_tags();
    assert forall|i: int| 0 <= i < paper_type.len() implies input[i] == paper_type[i] by {}
    assert(starts_with_tag(input, tags[tag])) by {
        assert forall|i: int| 0 <= i < tags[tag].len() implies same_letter(
            #[trigger] input[i],
            tags[tag][i],
        ) by {
            assert(input[i] == paper_type[i]);
        }
    }
    assert(same_letter(paper_type[0], tags[tag][0]));
    assert(input[0] == paper_type[0]);
    if paper_type.len() > 1 {
        assert(same_letter(paper_type[1], tags[tag][1]));
        assert(input[1] == paper_type[1]);
    }
    assert forall|other: int| 0 <= other < tag implies !starts_with_tag(input, tags[other]) by {
        if starts_with_tag(input, tags[other]) {
            assert(same_letter(input[0], tags[other][0]));
            if tags[other].len() > 1 {
                assert(same_letter(input[1], tags[other][1]));
            }
        }
    }
    assert(first_tag(input, tags, 0) == Some(tag));
    assert(input.skip(paper_type.len() as int) =~= rest);
    assert(input.take(paper_type.len() as int) =~= paper_type);
}

/// A mention that is written by the rules is read back as it was written:
/// any opening bracket, a paper type in any case, a number, where wanted a
/// revision marker in either case with a number that an `i32` holds, and
/// any closing bracket make one request with these very fields, and nothing
/// of the text is left.
pub proof fn lemma_mention_is_read_back(
    opening: char,
    paper_type: Seq<char>,
    tag: int,
    number: Seq<char>,
    revision: Option<WrittenRevision>,
    closing: char,
)
    requires
        is_start_request_character(opening),
        is_end_request_character(closing),
        0 <= tag < paper_type_tags().len(),
        is_spelling_of(paper_type, paper_type_tags()[tag]),
        is_number(number),
        revision matches Some(written) ==> same_letter(written.marker, 'R') && is_number(
            written.digits,
        ) && decimal_value(written.digits) <= i32::MAX,
    ensures
        spec_paper_request(mention_text(opening, paper_type, number, revision, closing)) == parsed(
            Seq::empty(),
            mention_view(paper_type, number, revision),
        ),
        spec_many_paper_requests(mention_text(opening, paper_type, number, revision, closing))
            == (Seq::<char>::empty(), seq![mention_view(paper_type, number, revision)]),
        spec_find_search_request_in_message(
            mention_text(opening, paper_type, number, revision, closing),
        ) == Ok::<_, BotError>(seq![mention_view(paper_type, number, revision)]),
{
    let text = mention_text(opening, paper_type, number, revision, closing);
    let view = mention_view(paper_type, number, revision);
    let suffix = revision_text(revision);
    let end = seq![closing];
    let after_start = paper_type + (number + (suffix + end));
    let after_type = number + (suffix + end);
    let after_number = suffix + end;
    assert(text =~= seq![opening] + after_start);
    assert(text[0] == opening);
    assert(text.skip(1) =~= after_start);
    lemma_paper_type_is_recognised(paper_type, tag, after_type);
    assert(after_number[0] == if revision is Some {
        revision->0.marker
    } else {
        closing
    });
    lemma_digits_len_of_number(number, after_number);
    assert(after_type.skip(number.len() as int) =~= after_number);
    assert(after_type.take(number.len() as int) =~= number);
    assert(spec_paper_number(after_type) == parsed(after_number, number));
    match revision {
        Some(written) => {
            let digits = written.digits;
            assert(after_number =~= seq![written.marker] + (digits + end));
            assert(after_number.skip(1) =~= digits + end);
            lemma_digits_len_of_number(digits, end);
            assert((digits + end).skip(digits.len() as int) =~= end);
            assert((digits + end).take(digits.len() as int) =~= digits);
            assert(spec_revision_suffix(after_number) == Some(
                (end, decimal_value(digits) as i32),
            ));
        },
        None => {
            assert(after_number =~= end);
            assert(spec_revision(after_number) is Err);
            assert(spec_revision_suffix(after_number) is None);
        },
    }
    assert(spec_paper(after_start) == parsed(end, view));
    assert(end.skip(1) =~= Seq::<char>::empty());
    assert(spec_paper_request(text) == parsed(Seq::empty(), view));
    assert(trash_len(text) == 0);
    assert(text.skip(0) =~= text);
    let nothing = Seq::<char>::empty();
    assert(trash_len(nothing) == 0);
    assert(nothing.skip(0) =~= nothing);
    assert(spec_paper_request_with_leading_trash(nothing) is Err);
    assert(spec_many_paper_requests(nothing) == (nothing, Seq::<
        ImplicitPaperSearchRequestView,
    >::empty()));
    assert(seq![view] + Seq::<ImplicitPaperSearchRequestView>::empty() =~= seq![view]);
    assert(spec_many_paper_requests(text) == (nothing, seq![view]));
    assert(!is_unclosed_paper_request(nothing));
    assert(!stops_at_unclosed_paper_request(text));
}

/// A text in which no mention starts anywhere yields no request, and all of
/// it is left.
pub proof fn lemma_no_mention_no_request(input: Seq<char>)
    requires
        forall|start: int|
            0 <= start <= input.len() ==> spec_paper_request(#[trigger] input.skip(start)) is Err,
    ensures
        spec_many_paper_requests(input) == (
            input,
            Seq::<ImplicitPaperSearchRequestView>::empty(),
        ),
        spec_find_search_request_in_message(input) matches Ok(requests) ==> requests.len() == 0,
{
    lemma_trash_len(input);
    assert(spec_paper_request(input.skip(trash_len(input) as int)) is Err);
}

/// A text without an opening bracket yields no request and is no error.
pub proof fn lemma_no_bracket_no_request(input: Seq<char>)
    requires
        forall|i: int| 0 <= i < input.len() ==> !is_start_request_character(#[trigger] input[i]),
    ensures
        spec_find_search_request_in_message(input) == Ok::<_, BotError>(
            Seq::<ImplicitPaperSearchRequestView>::empty(),
        ),
{
    lemma_trash_len(input);
    let start = trash_len(input) as int;
    if start < input.len() {
        assert(!is_start_request_character(input[start]));
    }
    assert(input.skip(start) =~= Seq::<char>::empty());
    assert(spec_start_paper_search_request(input.skip(start)) is Err);
}

/// What every request that a parser returns is like: its type spells one
/// of the paper types, its number is made of digits, and its revision,
/// where it has one, is not negative.
pub open spec fn is_well_formed(request: ImplicitPaperSearchRequestView) -> bool {
    &&& exists|tag: int|
        0 <= tag < paper_type_tags().len() && is_spelling_of(
            request.paper_type,
            #[trigger] paper_type_tags()[tag],
        )
    &&& is_number(request.paper_number)
    &&& request.revision_number matches Some(revision) ==> revision >= 0
}

/// The paper that is read from a text is well formed.
pub proof fn lemma_paper_is_well_formed(input: Seq<char>)
    ensures
        spec_paper(input) matches Ok((_, request)) ==> is_well_formed(request),
{
    reveal_with_fuel(first_tag, 11);
    if let Ok((after_type, paper_type)) = spec_paper_type(input) {
        let tag = first_tag(input, paper_type_tags(), 0)->0;
        assert(starts_with_tag(input, paper_type_tags()[tag]));
        assert(is_spelling_of(paper_type, paper_type_tags()[tag])) by {
            assert forall|i: int| 0 <= i < paper_type_tags()[tag].len() implies same_letter(
                #[trigger] paper_type[i],
                paper_type_tags()[tag][i],
            ) by {
                assert(paper_type[i] == input[i]);
            }
        }
        if let Ok((_, paper_number)) = spec_paper_number(after_type) {
            crate::implicit_search_request_parser::lemma_digits_len(after_type);
            assert(is_number(paper_number)) by {
                assert forall|i: int| 0 <= i < paper_number.len() implies is_digit(
                    #[trigger] paper_number[i],
                ) by {
                    assert(paper_number[i] == after_type[i]);
                }
            }
        }
    }
}

/// Every request that is read from a text is well formed.
pub proof fn lemma_requests_are_well_formed(input: Seq<char>)
    ensures
        forall|i: int|
            0 <= i < spec_many_paper_requests(input).1.len() ==> is_well_formed(
                #[trigger] spec_many_paper_requests(input).1[i],
            ),
    decreases input.len(),
{
    if let Ok((rest, request)) = spec_paper_request_with_leading_trash(input) {
        if rest.len() < input.len() {
            let mention = input.skip(trash_len(input) as int);
            lemma_paper_is_well_formed(mention.skip(1));
            lemma_requests_are_well_formed(rest);
            let more = spec_many_paper_requests(rest).1;
            assert forall|i: int|
                0 <= i < spec_many_paper_requests(input).1.len() implies is_well_formed(
                #[trigger] spec_many_paper_requests(input).1[i],
            ) by {
                if i > 0 {
                    assert(spec_many_paper_requests(input).1[i] == more[i - 1]);
                }
            }
        }
    }
}

/// Reading a mention uses up at least four characters: two brackets, a
/// paper type and a digit.
pub proof fn lemma_mention_is_not_empty(input: Seq<char>)
    ensures
        spec_paper_request_with_leading_trash(input) matches Ok((rest, _)) ==> rest.len() + 4
            <= input.len(),
{
    reveal_with_fuel(first_tag, 11);
    lemma_trash_len(input);
    let mention = input.skip(trash_len(input) as int);
    if let Ok((after_start, _)) = spec_start_paper_search_request(mention) {
        if let Ok((after_type, _)) = spec_paper_type(after_start) {
            if let Ok((after_number, _)) = spec_paper_number(after_type) {
                crate::implicit_search_request_parser::lemma_digits_len(after_type);
                match spec_revision_suffix(after_number) {
                    Some((rest, _)) => {
                        crate::implicit_search_request_parser::lemma_digits_len(
                            after_number.skip(1),
                        );
                    },
                    None => {},
                }
            }
        }
    }
}

} // verus!
