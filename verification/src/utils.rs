//! Escaping for the MarkdownV2 dialect, the rendering of search results,
//! and the reading of paper mentions from a message.

use crate::error::BotError;
use crate::implicit_search_request_parser::requests_view;
use crate::implicit_search_request_parser::scan_many_paper_requests;
use crate::implicit_search_request_parser::spec_many_paper_requests;
use crate::implicit_search_request_parser::stops_at_unclosed_paper_request;
use crate::implicit_search_request_parser::ImplicitPaperSearchRequest;
use crate::implicit_search_request_parser::ImplicitPaperSearchRequestView;
use crate::pattern::regex_compiles;
use crate::pattern::regex_replace_all;
use crate::pattern::Pattern;
use crate::storage::papers_view;
use crate::storage::spec_format_with_markdownv2;
use crate::storage::Paper;
use crate::storage::PaperView;
use crate::text::is_sorted;
use crate::text::join;
use crate::text::joined;
use crate::text::lemma_sorted_is_unique;
use crate::text::sort_strings;
use crate::text::sorted;
use crate::text::strings_view;
use crate::text::to_chars;
use vstd::prelude::*;

verus! {

/// Matches each character that MarkdownV2 reads as markup.
pub const MARKDOWN_V2_SPECIAL: &'static str = r#"(?P<symbol>([\{\}\[\]\(\)\+\*\|\.\-_~`>#=!]))"#;

/// Matches each character that ends or escapes the address of an inline
/// link.
pub const MARKDOWN_V2_URI_SPECIAL: &'static str = r#"(?P<symbol>([\)\\]))"#;

/// Puts a backslash before what was matched.
pub const ESCAPED_SYMBOL: &'static str = r#"\$symbol"#;

/// `text` with every match of `pattern` replaced by a backslash and the
/// match. A pattern that the regular expression engine rejects leaves
/// `text` as it is.
pub open spec fn spec_escape(pattern: Seq<char>, text: Seq<char>) -> Seq<char> {
    if regex_compiles(pattern, false) {
        regex_replace_all(pattern, false, text, ESCAPED_SYMBOL@)
    } else {
        text
    }
}

/// `text` with a backslash before each character of
/// [`MARKDOWN_V2_SPECIAL`].
pub open spec fn spec_markdown_v2_escape(text: Seq<char>) -> Seq<char> {
    spec_escape(MARKDOWN_V2_SPECIAL@, text)
}

/// `text` with a backslash before each character of
/// [`MARKDOWN_V2_URI_SPECIAL`].
pub open spec fn spec_markdown_v2_escape_inline_uri(text: Seq<char>) -> Seq<char> {
    spec_escape(MARKDOWN_V2_URI_SPECIAL@, text)
}

/// Escapes in `text` what `pattern` matches.
fn escape(pattern: &str, text: &str) -> (escaped: String)
    ensures
        escaped@ == spec_escape(pattern@, text@),
{
    match Pattern::compile(pattern, false) {
        Ok(compiled) => compiled.replace_all(text, ESCAPED_SYMBOL),
        Err(_) => text.to_owned(),
    }
}

/// Escapes `text` for use as plain text in a MarkdownV2 message.
pub fn markdown_v2_escape(text: &str) -> (escaped: String)
    ensures
        escaped@ == spec_markdown_v2_escape(text@),
{
    escape(MARKDOWN_V2_SPECIAL, text)
}

/// Escapes `text` for use as the address of an inline link in a MarkdownV2
/// message.
pub fn markdown_v2_escape_inline_uri(text: &str) -> (escaped: String)
    ensures
        escaped@ == spec_markdown_v2_escape_inline_uri(text@),
{
    escape(MARKDOWN_V2_URI_SPECIAL, text)
}

/// The line of each paper, in the order of the papers.
pub open spec fn formatted_papers(papers: Seq<PaperView>) -> Seq<Seq<char>> {
    Seq::new(papers.len(), |i: int| spec_format_with_markdownv2(papers[i]))
}

/// The lines of `papers` in ascending order, with an empty line between
/// each two.
pub open spec fn spec_convert_papers_to_result(papers: Seq<PaperView>) -> Seq<char> {
    joined(sorted(formatted_papers(papers)), "\n\n"@)
}

/// Renders the papers that a search found: one line for each, the lines
/// sorted, an empty line between each two.
pub fn convert_papers_to_result(papers: Vec<Paper>) -> (text: String)
    ensures
        text@ == spec_convert_papers_to_result(papers_view(papers@)),
{
    let mut lines: Vec<String> = Vec::new();
    let mut i: usize = 0;
    while i < papers.len()
        invariant
            i <= papers.len(),
            strings_view(lines@) =~= formatted_papers(papers_view(papers@)).take(i as int),
        decreases papers.len() - i,
    {
        let ghost before = lines@;
        let line = papers[i].format_with_markdownv2();
        assert(line@ == formatted_papers(papers_view(papers@))[i as int]);
        lines.push(line);
        assert(strings_view(lines@) =~= strings_view(before).push(line@));
        i += 1;
    }
    assert(strings_view(lines@) =~= formatted_papers(papers_view(papers@)));
    sort_strings(&mut lines);
    proof {
        let unsorted = formatted_papers(papers_view(papers@));
        let ordered = strings_view(lines@);
        assert(is_sorted(ordered) && ordered.to_multiset() == unsorted.to_multiset());
        lemma_sorted_is_unique(ordered, sorted(unsorted));
    }
    join(&lines, "\n\n")
}

/// What [`find_search_request_in_message`] returns: the mentions of `text`
/// up to the first place where none can be read; but
/// [`BotError::ParseAmbiguous`], and no mention at all, where that place is
/// a bracket that opens a paper and is not closed behind it.
pub open spec fn spec_find_search_request_in_message(text: Seq<char>) -> Result<
    Seq<ImplicitPaperSearchRequestView>,
    BotError,
> {
    if stops_at_unclosed_paper_request(text) {
        Err(BotError::ParseAmbiguous)
    } else {
        Ok(spec_many_paper_requests(text).1)
    }
}

/// Reads the papers that `text` mentions in brackets, from left to right.
///
/// The reading ends at the first bracket that opens no valid mention;
/// mentions behind it are not found. Where that bracket opens a paper that
/// no closing bracket follows, the whole message counts as unreadable.
pub fn find_search_request_in_message(text: &str) -> (result: Result<
    Vec<ImplicitPaperSearchRequest>,
    BotError,
>)
    ensures
        match result {
            Ok(requests) => Ok(requests_view(requests@)),
            Err(error) => Err(error),
        } == spec_find_search_request_in_message(text@),
{
    let chars = to_chars(text);
    let (_, requests, unclosed) = scan_many_paper_requests(&chars);
    if unclosed {
        Err(BotError::ParseAmbiguous)
    } else {
        Ok(requests)
    }
}

} // verus!
