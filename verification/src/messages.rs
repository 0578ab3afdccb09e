//! What the bot answers to a message that mentions papers.

use crate::error::BotError;
use crate::implicit_search_request_parser::requests_view;
use crate::implicit_search_request_parser::ImplicitPaperSearchRequest;
use crate::implicit_search_request_parser::ImplicitPaperSearchRequestView;
use crate::storage::papers_view;
use crate::storage::spec_search_result;
use crate::storage::Paper;
use crate::storage::PaperDatabase;
use crate::storage::PaperView;
use crate::storage_laws::lemma_search_truncates;
use crate::text::decimal_text;
use crate::text::push_decimal;
use crate::utils::convert_papers_to_result;
use crate::utils::find_search_request_in_message;
use crate::utils::markdown_v2_escape;
use crate::utils::spec_convert_papers_to_result;
use crate::utils::spec_find_search_request_in_message;
use crate::utils::spec_markdown_v2_escape;
use vstd::prelude::*;
use vstd::string::StringExecFns;

verus! {

/// Sent where a search found no paper, or could not be run.
pub const NOTHING_FOUND: &'static str =
    "К сожалению, по Вашему запросу ничего не найдено. Попробуйте другой запрос!";

/// The start of the notice that follows a shortened list of results; the
/// limit stands behind it.
pub const ONLY_FIRST_SHOWN: &'static str = "Показаны только первые ";

/// The end of that notice.
pub const USE_EXACT_REQUEST: &'static str =
    " результатов. Если нужного среди них нет - используйте более точный запрос. Спасибо!";

/// A message for the chat.
#[derive(Debug, Eq, PartialEq)]
pub struct Reply {
    /// The text to send.
    pub text: String,
    /// Whether the text is MarkdownV2 rather than plain text.
    pub markdown_v2: bool,
}

/// What a [`Reply`] holds, as plain values.
pub struct ReplyView {
    pub text: Seq<char>,
    pub markdown_v2: bool,
}

impl View for Reply {
    type V = ReplyView;

    open spec fn view(&self) -> ReplyView {
        ReplyView { text: self.text@, markdown_v2: self.markdown_v2 }
    }
}

/// The views of a list of replies, in the same order.
pub open spec fn replies_view(replies: Seq<Reply>) -> Seq<ReplyView> {
    Seq::new(replies.len(), |i: int| replies[i]@)
}

/// The pattern that finds a mentioned paper by its number: type and number
/// and, where the mention names a revision, `r` and the revision.
pub open spec fn spec_search_pattern(request: ImplicitPaperSearchRequestView) -> Seq<char> {
    request.paper_type + request.paper_number + match request.revision_number {
        Some(revision) => seq!['r'] + decimal_text(revision as int),
        None => Seq::empty(),
    }
}

/// The pattern that finds the paper of `request` by its number.
pub fn search_pattern(request: &ImplicitPaperSearchRequest) -> (pattern: String)
    ensures
        pattern@ == spec_search_pattern(request@),
{
    let mut pattern = request.paper_type.clone();
    pattern.append(request.paper_number.as_str());
    match request.revision_number {
        Some(revision) => {
            let ghost before = pattern@;
            pattern.push('r');
            push_decimal(&mut pattern, revision as i64);
            assert(pattern@ =~= before + (seq!['r'] + decimal_text(revision as int)));
        },
        None => {
            assert(pattern@ =~= pattern@ + Seq::<char>::empty());
        },
    }
    pattern
}

/// Adds the papers of one search to those found before: all of them, or as
/// many as bring the list to `limit` papers. The flag says that the list
/// reached `limit` in this way.
pub open spec fn spec_accumulate(found: Seq<PaperView>, matches: Seq<PaperView>, limit: nat) -> (
    Seq<PaperView>,
    bool,
) {
    let room = limit - found.len();
    if 0 < room <= matches.len() {
        (found + matches.take(room), true)
    } else {
        (found + matches, false)
    }
}

/// The papers for a list of mentions, given those found so far.
///
/// The mentions are searched one after the other, each with the whole
/// limit. The first search whose result is truncated, or that fills the
/// list, ends the work; the mentions behind it are not searched. A pattern
/// that the regular expression engine rejects ends it with an error.
pub open spec fn spec_resolve(
    requests: Seq<ImplicitPaperSearchRequestView>,
    papers: Seq<PaperView>,
    limit: nat,
    found: Seq<PaperView>,
) -> Result<(bool, Seq<PaperView>), BotError>
    decreases requests.len(),
{
    if requests.len() == 0 {
        Ok((false, found))
    } else {
        match spec_search_result(papers, spec_search_pattern(requests[0]), false, limit) {
            Err(error) => Err(error),
            Ok((more, matches)) => {
                let (longer, full) = spec_accumulate(found, matches, limit);
                if more || full {
                    Ok((true, longer))
                } else {
                    spec_resolve(requests.skip(1), papers, limit, longer)
                }
            },
        }
    }
}

/// A list that is not yet full never grows beyond `limit` papers, and the
/// list that reaches `limit` papers counts as shortened.
pub proof fn lemma_resolve_respects_limit(
    requests: Seq<ImplicitPaperSearchRequestView>,
    papers: Seq<PaperView>,
    limit: nat,
    found: Seq<PaperView>,
)
    requires
        found.len() < limit || (found.len() == 0 && limit == 0),
    ensures
        spec_resolve(requests, papers, limit, found) matches Ok((truncated, all)) ==> all.len()
            <= limit && (limit > 0 && all.len() == limit ==> truncated),
    decreases requests.len(),
{
    if requests.len() > 0 {
        let pattern = spec_search_pattern(requests[0]);
        if let Ok((more, matches)) = spec_search_result(papers, pattern, false, limit) {
            lemma_search_truncates(papers, pattern, false, limit);
            let (longer, full) = spec_accumulate(found, matches, limit);
            if !(more || full) {
                lemma_resolve_respects_limit(requests.skip(1), papers, limit, longer);
            }
        }
    }
}

/// The papers for the mentions of a message are never more than `limit`.
pub proof fn lemma_resolve_returns_at_most_limit(
    requests: Seq<ImplicitPaperSearchRequestView>,
    papers: Seq<PaperView>,
    limit: nat,
)
    ensures
        spec_resolve(requests, papers, limit, Seq::empty()) matches Ok((_, all)) ==> all.len()
            <= limit,
{
    lemma_resolve_respects_limit(requests, papers, limit, Seq::empty());
}

/// Moves papers from `matches` to `found` until `found` holds `limit` of
/// them or `matches` is used up.
fn accumulate(found: &mut Vec<Paper>, matches: Vec<Paper>, limit: u8) -> (full: bool)
    ensures
        (papers_view(final(found)@), full) == spec_accumulate(
            papers_view(old(found)@),
            papers_view(matches@),
            limit as nat,
        ),
{
    let ghost before = papers_view(found@);
    let ghost added = papers_view(matches@);
    assert(before + added.take(0) =~= before);
    for paper in it: matches.into_iter()
        invariant
            it.seq() == matches@,
            before == papers_view(old(found)@),
            added == papers_view(matches@),
            papers_view(found@) == before + added.take(it.index() as int),
            !(0 < limit - before.len() <= it.index()),
    {
        let ghost index = it.index() as int;
        let ghost shorter = found@;
        assert(paper == matches@[index]);
        found.push(paper);
        proof {
            assert(papers_view(found@) =~= papers_view(shorter).push(paper@));
            assert(added.take(index + 1) =~= added.take(index).push(added[index]));
            assert(before + added.take(index + 1) =~= (before + added.take(index)).push(
                added[index],
            ));
        }
        if found.len() == limit as usize {
            return true;
        }
    }
    assert(added.take(added.len() as int) =~= added);
    false
}

/// Looks up the papers that a message mentions.
///
/// Returns the papers found and whether there may be more of them than
/// were returned.
pub fn resolve_requests(
    requests: &Vec<ImplicitPaperSearchRequest>,
    papers: &PaperDatabase,
    limit: u8,
) -> (result: Result<(bool, Vec<Paper>), BotError>)
    ensures
        match result {
            Ok((truncated, found)) => Ok((truncated, papers_view(found@))),
            Err(error) => Err(error),
        } == spec_resolve(
            requests_view(requests@),
            papers@,
            limit as nat,
            Seq::<PaperView>::empty(),
        ),
{
    let ghost all = requests_view(requests@);
    let mut found: Vec<Paper> = Vec::new();
    let mut i: usize = 0;
    assert(all.skip(0) =~= all);
    assert(papers_view(found@) =~= Seq::<PaperView>::empty());
    while i < requests.len()
        invariant
            i <= requests.len(),
            all == requests_view(requests@),
            spec_resolve(all, papers@, limit as nat, Seq::<PaperView>::empty()) == spec_resolve(
                all.skip(i as int),
                papers@,
                limit as nat,
                papers_view(found@),
            ),
        decreases requests.len() - i,
    {
        assert(all.skip(i as int)[0] == requests@[i as int]@);
        assert(all.skip(i as int).skip(1) =~= all.skip(i + 1));
        let pattern = search_pattern(&requests[i]);
        match papers.search_by_number(&pattern, limit) {
            Err(error) => {
                return Err(error);
            },
            Ok((more, matches)) => {
                let full = accumulate(&mut found, matches, limit);
                if more || full {
                    return Ok((true, found));
                }
            },
        }
        i += 1;
    }
    Ok((false, found))
}

/// The notice that only the first `limit` results are shown, escaped.
pub open spec fn spec_truncation_notice(limit: nat) -> Seq<char> {
    spec_markdown_v2_escape(ONLY_FIRST_SHOWN@ + decimal_text(limit as int) + USE_EXACT_REQUEST@)
}

/// The notice that only the first `limit` results are shown, escaped.
pub fn truncation_notice(limit: u8) -> (notice: String)
    ensures
        notice@ == spec_truncation_notice(limit as nat),
{
    let mut notice = ONLY_FIRST_SHOWN.to_owned();
    push_decimal(&mut notice, limit as i64);
    notice.append(USE_EXACT_REQUEST);
    markdown_v2_escape(notice.as_str())
}

/// A reply in MarkdownV2.
pub open spec fn markdown_reply(text: Seq<char>) -> ReplyView {
    ReplyView { text, markdown_v2: true }
}

/// The replies to a search that was run: the papers found and, where the
/// list was shortened, the notice of it; or the word that nothing was
/// found.
pub open spec fn spec_answer(found: Seq<PaperView>, truncated: bool, limit: nat) -> Seq<
    ReplyView,
> {
    if found.len() == 0 {
        seq![markdown_reply(spec_markdown_v2_escape(NOTHING_FOUND@))]
    } else if truncated {
        seq![
            markdown_reply(spec_convert_papers_to_result(found)),
            markdown_reply(spec_truncation_notice(limit)),
        ]
    } else {
        seq![markdown_reply(spec_convert_papers_to_result(found))]
    }
}

/// The replies to a search that was run.
pub fn answer(found: Vec<Paper>, truncated: bool, limit: u8) -> (replies: Vec<Reply>)
    ensures
        replies_view(replies@) == spec_answer(papers_view(found@), truncated, limit as nat),
{
    let mut replies: Vec<Reply> = Vec::new();
    if found.len() == 0 {
        replies.push(Reply { text: markdown_v2_escape(NOTHING_FOUND), markdown_v2: true });
    } else {
        replies.push(Reply { text: convert_papers_to_result(found), markdown_v2: true });
        if truncated {
            replies.push(Reply { text: truncation_notice(limit), markdown_v2: true });
        }
    }
    assert(replies_view(replies@) =~= spec_answer(
        papers_view(found@),
        truncated,
        limit as nat,
    ));
    replies
}

/// What [`process_message`] returns.
///
/// A message that mentions no paper gets no reply, and neither does one
/// that cannot be read or whose search cannot be run: nobody asked.
pub open spec fn spec_process_message(text: Seq<char>, papers: Seq<PaperView>, limit: nat) -> Seq<
    ReplyView,
> {
    match spec_find_search_request_in_message(text) {
        Err(_) => Seq::empty(),
        Ok(requests) => if requests.len() == 0 {
            Seq::empty()
        } else {
            match spec_resolve(requests, papers, limit, Seq::empty()) {
                Err(_) => Seq::empty(),
                Ok((truncated, found)) => spec_answer(found, truncated, limit),
            }
        },
    }
}

/// The replies to a message of the chat: the papers that the message
/// mentions in brackets, at most `max_results_per_request` of them.
pub fn process_message(text: &str, papers: &PaperDatabase, max_results_per_request: u8) -> (replies:
    Vec<Reply>)
    ensures
        replies_view(replies@) == spec_process_message(
            text@,
            papers@,
            max_results_per_request as nat,
        ),
{
    let silence: Vec<Reply> = Vec::new();
    assert(replies_view(silence@) =~= Seq::<ReplyView>::empty());
    let requests = match find_search_request_in_message(text) {
        Ok(requests) => requests,
        Err(_) => {
            return silence;
        },
    };
    if requests.len() == 0 {
        return silence;
    }
    match resolve_requests(&requests, papers, max_results_per_request) {
        Ok((truncated, found)) => answer(found, truncated, max_results_per_request),
        Err(_) => silence,
    }
}

} // verus!
