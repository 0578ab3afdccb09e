//! The catalog of papers and the searches on it.

use crate::error::BotError;
use crate::pattern::regex_compiles;
use crate::pattern::regex_is_match;
use crate::pattern::Pattern;
use crate::utils::markdown_v2_escape;
use crate::utils::markdown_v2_escape_inline_uri;
use crate::utils::spec_markdown_v2_escape;
use crate::utils::spec_markdown_v2_escape_inline_uri;
use vstd::prelude::*;
use vstd::string::StringExecFns;

verus! {

/// One entry of the catalog. Only the number is sure to be there once the
/// entry stands in a [`PaperDatabase`].
#[derive(Debug, Eq, PartialEq)]
pub struct Paper {
    number: Option<String>,
    title: Option<String>,
    link: Option<String>,
    author: Option<String>,
    date: Option<String>,
    github_url: Option<String>,
}

/// What a [`Paper`] holds, as plain sequences.
pub struct PaperView {
    pub number: Option<Seq<char>>,
    pub title: Option<Seq<char>>,
    pub link: Option<Seq<char>>,
    pub author: Option<Seq<char>>,
    pub date: Option<Seq<char>>,
    pub github_url: Option<Seq<char>>,
}

/// The characters of an optional text.
pub open spec fn text_view(text: Option<String>) -> Option<Seq<char>> {
    match text {
        Some(text) => Some(text@),
        None => None,
    }
}

impl View for Paper {
    type V = PaperView;

    closed spec fn view(&self) -> PaperView {
        PaperView {
            number: text_view(self.number),
            title: text_view(self.title),
            link: text_view(self.link),
            author: text_view(self.author),
            date: text_view(self.date),
            github_url: text_view(self.github_url),
        }
    }
}

impl Clone for Paper {
    fn clone(&self) -> (copy: Self)
        ensures
            copy@ == self@,
    {
        Paper {
            number: self.number.clone(),
            title: self.title.clone(),
            link: self.link.clone(),
            author: self.author.clone(),
            date: self.date.clone(),
            github_url: self.github_url.clone(),
        }
    }
}

impl Paper {
    /// A paper with the given fields.
    pub fn new(
        number: Option<String>,
        title: Option<String>,
        link: Option<String>,
        author: Option<String>,
        date: Option<String>,
        github_url: Option<String>,
    ) -> (paper: Paper)
        ensures
            paper@ == (PaperView {
                number: text_view(number),
                title: text_view(title),
                link: text_view(link),
                author: text_view(author),
                date: text_view(date),
                github_url: text_view(github_url),
            }),
    {
        Paper { number, title, link, author, date, github_url }
    }

    /// The paper as one line of a MarkdownV2 message: its heading, as a link
    /// where the paper has one, then author, date and related issue as far
    /// as they are known.
    pub fn format_with_markdownv2(&self) -> (line: String)
        ensures
            line@ == spec_format_with_markdownv2(self@),
    {
        let mut result = self.linked_heading();
        push_detail(&mut result, " \\(by ", &self.author, "\\)");
        push_detail(&mut result, " \\(", &self.date, "\\)");
        push_detail(&mut result, " \\(Related: [GitHub issue](", &self.github_url, ")\\)");
        result
    }

    /// The heading of the paper.
    fn heading(&self) -> (heading: String)
        ensures
            heading@ == spec_heading(self@),
    {
        let mut new_title = String::new();
        if let Some(number) = &self.number {
            new_title = number.clone();
        }
        if let Some(source_title) = &self.title {
            if !new_title.as_str().is_empty() {
                new_title.append(": ");
                new_title.append(source_title.as_str());
            } else {
                new_title = source_title.clone();
            }
        }
        if new_title.as_str().is_empty() {
            new_title = "Here should be a paper title".to_owned();
        }
        new_title
    }

    /// The heading of the paper as a link, where the paper has one.
    fn linked_heading(&self) -> (heading: String)
        ensures
            heading@ == spec_linked_heading(self@),
    {
        let new_title = self.heading();
        match &self.link {
            Some(link) => {
                let mut result = "[".to_owned();
                result.append(markdown_v2_escape(new_title.as_str()).as_str());
                result.append("](");
                result.append(markdown_v2_escape_inline_uri(link.as_str()).as_str());
                result.append(")");
                result
            },
            None => new_title,
        }
    }

    /// The fields of the paper, in the order in which [`Paper::new`] takes
    /// them.
    pub fn into_fields(self) -> (fields: (
        Option<String>,
        Option<String>,
        Option<String>,
        Option<String>,
        Option<String>,
        Option<String>,
    ))
        ensures
            self@ == (PaperView {
                number: text_view(fields.0),
                title: text_view(fields.1),
                link: text_view(fields.2),
                author: text_view(fields.3),
                date: text_view(fields.4),
                github_url: text_view(fields.5),
            }),
    {
        (self.number, self.title, self.link, self.author, self.date, self.github_url)
    }

    /// The number under which the paper is filed, where it has one.
    pub fn number(&self) -> (number: &Option<String>)
        ensures
            text_view(*number) == self@.number,
    {
        &self.number
    }
}

/// The heading of a paper: its number, a colon and its title; one of the
/// two where the other is missing or empty; a placeholder where both are.
pub open spec fn spec_heading(paper: PaperView) -> Seq<char> {
    let number = match paper.number {
        Some(number) => number,
        None => Seq::empty(),
    };
    let heading = match paper.title {
        Some(title) => if number.len() > 0 {
            number + ": "@ + title
        } else {
            title
        },
        None => number,
    };
    if heading.len() == 0 {
        "Here should be a paper title"@
    } else {
        heading
    }
}

/// The heading as an inline link to the paper, both escaped; or the bare
/// heading, as it is, where the paper has no link.
pub open spec fn spec_linked_heading(paper: PaperView) -> Seq<char> {
    match paper.link {
        Some(link) => "["@ + spec_markdown_v2_escape(spec_heading(paper)) + "]("@
            + spec_markdown_v2_escape_inline_uri(link) + ")"@,
        None => spec_heading(paper),
    }
}

/// A detail of a paper, escaped, between `opening` and `closing`; nothing
/// where the paper lacks it.
pub open spec fn spec_detail(
    opening: Seq<char>,
    detail: Option<Seq<char>>,
    closing: Seq<char>,
) -> Seq<char> {
    match detail {
        Some(detail) => opening + spec_markdown_v2_escape(detail) + closing,
        None => Seq::empty(),
    }
}

/// What [`Paper::format_with_markdownv2`] returns.
pub open spec fn spec_format_with_markdownv2(paper: PaperView) -> Seq<char> {
    spec_linked_heading(paper) + spec_detail(" \\(by "@, paper.author, "\\)"@) + spec_detail(
        " \\("@,
        paper.date,
        "\\)"@,
    ) + spec_detail(" \\(Related: [GitHub issue]("@, paper.github_url, ")\\)"@)
}

/// Appends a detail of a paper to `line`.
fn push_detail(line: &mut String, opening: &str, detail: &Option<String>, closing: &str)
    ensures
        final(line)@ == old(line)@ + spec_detail(opening@, text_view(*detail), closing@),
{
    match detail {
        Some(detail) => {
            line.append(opening);
            line.append(markdown_v2_escape(detail.as_str()).as_str());
            line.append(closing);
            assert(final(line)@ =~= old(line)@ + (opening@ + spec_markdown_v2_escape(detail@)
                + closing@));
        },
        None => {
            assert(final(line)@ =~= old(line)@ + Seq::<char>::empty());
        },
    }
}

/// The views of a list of papers, in the same order.
pub open spec fn papers_view(papers: Seq<Paper>) -> Seq<PaperView> {
    Seq::new(papers.len(), |i: int| papers[i]@)
}

/// The keys and papers of a list of entries, as plain sequences.
pub open spec fn entries_view(entries: Seq<(String, Paper)>) -> Seq<(Seq<char>, PaperView)> {
    Seq::new(entries.len(), |i: int| (entries[i].0@, entries[i].1@))
}

/// No key occurs twice in `entries`.
pub open spec fn has_distinct_keys(entries: Seq<(Seq<char>, PaperView)>) -> bool {
    forall|i: int, j: int|
        0 <= i < j < entries.len() ==> (#[trigger] entries[i]).0 != (#[trigger] entries[j]).0
}

/// Every paper has a number, and no number occurs twice.
pub open spec fn is_catalog(papers: Seq<PaperView>) -> bool {
    &&& forall|i: int| 0 <= i < papers.len() ==> (#[trigger] papers[i]).number is Some
    &&& forall|i: int, j: int|
        0 <= i < j < papers.len() ==> (#[trigger] papers[i]).number != (
        #[trigger] papers[j]).number
}

/// The papers of `entries` in their order, each filed under its key,
/// whatever number it came with.
pub open spec fn catalog_of(entries: Seq<(Seq<char>, PaperView)>) -> Seq<PaperView> {
    Seq::new(
        entries.len(),
        |i: int| PaperView { number: Some(entries[i].0), ..entries[i].1 },
    )
}

/// The catalog after `new` was put in the place of `current`: `new`, and
/// nothing of `current`.
pub open spec fn spec_replace(current: Seq<PaperView>, new: Seq<PaperView>) -> Seq<PaperView> {
    new
}

/// `pattern`, read as a regular expression that ignores case, matches the
/// optional text `field` somewhere.
pub open spec fn field_matches(field: Option<Seq<char>>, pattern: Seq<char>) -> bool {
    field matches Some(text) && regex_is_match(pattern, true, text)
}

/// A search by number looks at the number of a paper only; a search in any
/// field admits a paper for its number, its title or its author.
pub open spec fn paper_matches(paper: PaperView, pattern: Seq<char>, any_field: bool) -> bool {
    ||| field_matches(paper.number, pattern)
    ||| any_field && field_matches(paper.title, pattern)
    ||| any_field && field_matches(paper.author, pattern)
}

/// The test that a search puts to each paper.
pub open spec fn admission(pattern: Seq<char>, any_field: bool) -> spec_fn(PaperView) -> bool {
    |paper: PaperView| paper_matches(paper, pattern, any_field)
}

/// The papers that the search admits, in the order of the catalog.
pub open spec fn matching_papers(
    papers: Seq<PaperView>,
    pattern: Seq<char>,
    any_field: bool,
) -> Seq<PaperView> {
    papers.filter(admission(pattern, any_field))
}

/// What a search answers: whether the result is truncated, and the papers
/// found.
///
/// The papers are the matches, all of them where they are at most `limit`,
/// else the first `limit`. The result is truncated exactly where more
/// papers match than were returned.
pub open spec fn spec_search(
    papers: Seq<PaperView>,
    pattern: Seq<char>,
    any_field: bool,
    limit: nat,
) -> (bool, Seq<PaperView>) {
    let found = matching_papers(papers, pattern, any_field);
    (
        found.len() > limit,
        if found.len() <= limit {
            found
        } else {
            found.take(limit as int)
        },
    )
}

/// What [`PaperDatabase::search_by_number`] and
/// [`PaperDatabase::search_any`] return on a catalog `papers`.
pub open spec fn spec_search_result(
    papers: Seq<PaperView>,
    pattern: Seq<char>,
    any_field: bool,
    limit: nat,
) -> Result<(bool, Seq<PaperView>), BotError> {
    if regex_compiles(pattern, true) {
        Ok(spec_search(papers, pattern, any_field, limit))
    } else {
        Err(BotError::InvalidPattern)
    }
}

/// The result of a search over plain sequences.
pub open spec fn search_result_view(result: Result<(bool, Vec<Paper>), BotError>) -> Result<
    (bool, Seq<PaperView>),
    BotError,
> {
    match result {
        Ok((truncated, papers)) => Ok((truncated, papers_view(papers@))),
        Err(error) => Err(error),
    }
}

/// An empty catalog holds no match; a longer one holds the matches of all
/// but its last paper and then, if it matches, the last.
pub proof fn lemma_matching_papers_unfold(
    papers: Seq<PaperView>,
    pattern: Seq<char>,
    any_field: bool,
)
    ensures
        matching_papers(papers, pattern, any_field) == if papers.len() == 0 {
            Seq::<PaperView>::empty()
        } else if paper_matches(papers.last(), pattern, any_field) {
            matching_papers(papers.drop_last(), pattern, any_field).push(papers.last())
        } else {
            matching_papers(papers.drop_last(), pattern, any_field)
        },
{
    reveal(Seq::filter);
    if papers.len() == 0 {
        assert(papers =~= Seq::<PaperView>::empty());
    }
}

/// The matches among the first entries of a catalog are the first of the
/// matches in all of it.
pub proof fn lemma_matching_papers_of_prefix(
    papers: Seq<PaperView>,
    pattern: Seq<char>,
    any_field: bool,
    count: int,
)
    requires
        0 <= count <= papers.len(),
    ensures
        matching_papers(papers.take(count), pattern, any_field).len() <= matching_papers(
            papers,
            pattern,
            any_field,
        ).len(),
        matching_papers(papers.take(count), pattern, any_field) == matching_papers(
            papers,
            pattern,
            any_field,
        ).take(matching_papers(papers.take(count), pattern, any_field).len() as int),
{
    let admits = admission(pattern, any_field);
    let head = papers.take(count);
    let tail = papers.skip(count);
    assert(head + tail =~= papers);
    Seq::filter_distributes_over_add(head, tail, admits);
    assert(head.filter(admits) =~= (head.filter(admits) + tail.filter(admits)).take(
        head.filter(admits).len() as int,
    ));
}

/// The catalog: papers with distinct numbers, in a fixed order that carries
/// no meaning.
pub struct PaperDatabase {
    database: Vec<Paper>,
}

impl View for PaperDatabase {
    type V = Seq<PaperView>;

    closed spec fn view(&self) -> Seq<PaperView> {
        papers_view(self.database@)
    }
}

impl PaperDatabase {
    #[verifier::type_invariant]
    spec fn well_formed(&self) -> bool {
        is_catalog(papers_view(self.database@))
    }

    /// The catalog before the first refresh: no paper at all.
    pub fn new_empty() -> (database: Self)
        ensures
            database@ == Seq::<PaperView>::empty(),
    {
        let database = PaperDatabase { database: Vec::new() };
        assert(database@ =~= Seq::<PaperView>::empty());
        database
    }

    /// The catalog of the given entries. Each paper gets its key as its
    /// number.
    pub fn new(initial_values: Vec<(String, Paper)>) -> (database: Self)
        requires
            has_distinct_keys(entries_view(initial_values@)),
        ensures
            database@ == catalog_of(entries_view(initial_values@)),
            is_catalog(database@),
    {
        let ghost entries = entries_view(initial_values@);
        let mut papers: Vec<Paper> = Vec::new();
        for entry in it: initial_values.into_iter()
            invariant
                it.seq() == initial_values@,
                entries == entries_view(initial_values@),
                papers_view(papers@) =~= catalog_of(entries).take(it.index() as int),
        {
            let ghost index = it.index() as int;
            let ghost before = papers@;
            assert(entry == initial_values@[index]);
            let (key, paper) = entry;
            let mut paper = paper;
            paper.number = Some(key);
            assert(paper@ == catalog_of(entries)[index]);
            papers.push(paper);
            assert(papers_view(papers@) =~= papers_view(before).push(paper@));
            assert(catalog_of(entries).take(index + 1) =~= catalog_of(entries).take(index).push(
                catalog_of(entries)[index],
            ));
        }
        assert(catalog_of(entries).take(entries.len() as int) =~= catalog_of(entries));
        assert(is_catalog(catalog_of(entries))) by {
            assert forall|i: int, j: int| 0 <= i < j < entries.len() implies (
            #[trigger] catalog_of(entries)[i]).number != (#[trigger] catalog_of(
                entries,
            )[j]).number by {
                assert(entries[i].0 != entries[j].0);
            }
        }
        PaperDatabase { database: papers }
    }

    /// The number of papers in the catalog.
    pub fn len(&self) -> (len: usize)
        ensures
            len == self@.len(),
    {
        self.database.len()
    }

    /// Puts `new` in the place of this catalog, all of it at once.
    pub fn replace(&mut self, new: PaperDatabase)
        ensures
            final(self)@ == spec_replace(old(self)@, new@),
    {
        *self = new;
    }

    /// The papers whose number `pattern` matches, at most `limit` of them and
    /// the first in the catalog where there are more; and whether there are
    /// more. `pattern` is a regular expression and ignores case.
    pub fn search_by_number(&self, pattern: &String, limit: u8) -> (result: Result<
        (bool, Vec<Paper>),
        BotError,
    >)
        ensures
            search_result_view(result) == spec_search_result(
                self@,
                pattern@,
                false,
                limit as nat,
            ),
            is_catalog(self@),
    {
        proof {
            use_type_invariant(self);
        }
        match Pattern::compile(pattern.as_str(), true) {
            Ok(compiled) => Ok(self.search(&compiled, false, limit)),
            Err(error) => Err(error),
        }
    }

    /// The papers whose number, title or author `pattern` matches, each of
    /// them once, at most `limit` of them and the first in the catalog
    /// where there are more; and whether there are more. `pattern` is a
    /// regular expression and ignores case.
    pub fn search_any(&self, pattern: &String, limit: u8) -> (result: Result<
        (bool, Vec<Paper>),
        BotError,
    >)
        ensures
            search_result_view(result) == spec_search_result(
                self@,
                pattern@,
                true,
                limit as nat,
            ),
            is_catalog(self@),
    {
        proof {
            use_type_invariant(self);
        }
        match Pattern::compile(pattern.as_str(), true) {
            Ok(compiled) => Ok(self.search(&compiled, true, limit)),
            Err(error) => Err(error),
        }
    }

    /// Walks the catalog and keeps the matches until it has seen one more
    /// than `limit` of them or the catalog ends.
    fn search(&self, pattern: &Pattern, any_field: bool, limit: u8) -> (result: (
        bool,
        Vec<Paper>,
    ))
        requires
            pattern.ignores_case(),
        ensures
            (result.0, papers_view(result.1@)) == spec_search(
                self@,
                pattern.source(),
                any_field,
                limit as nat,
            ),
            is_catalog(self@),
    {
        proof {
            use_type_invariant(self);
        }
        let ghost papers = self@;
        let ghost source = pattern.source();
        let mut found: Vec<Paper> = Vec::new();
        let mut index: usize = 0;
        proof {
            assert(papers.take(0) =~= Seq::<PaperView>::empty());
            lemma_matching_papers_unfold(papers.take(0), source, any_field);
        }
        while index < self.database.len()
            invariant
                index <= self.database.len(),
                is_catalog(papers),
                papers == papers_view(self.database@),
                source == pattern.source(),
                pattern.ignores_case(),
                papers_view(found@) == matching_papers(
                    papers.take(index as int),
                    source,
                    any_field,
                ),
                found.len() <= limit,
            decreases self.database.len() - index,
        {
            let paper = &self.database[index];
            let ghost before = found@;
            proof {
                let longer = papers.take(index + 1);
                assert(longer.drop_last() =~= papers.take(index as int));
                assert(longer.last() == paper@);
                lemma_matching_papers_unfold(longer, source, any_field);
            }
            if paper_is_match(paper, pattern, any_field) {
                if found.len() == limit as usize {
                    proof {
                        lemma_matching_papers_of_prefix(papers, source, any_field, index as int);
                        lemma_matching_papers_of_prefix(papers, source, any_field, index + 1);
                    }
                    return (true, found);
                }
                found.push(paper.clone());
                assert(papers_view(found@) =~= papers_view(before).push(paper@));
            }
            index += 1;
        }
        proof {
            assert(papers.take(index as int) =~= papers);
        }
        (false, found)
    }
}

/// Whether `pattern` matches the optional text `field`.
fn field_is_match(field: &Option<String>, pattern: &Pattern) -> (result: bool)
    requires
        pattern.ignores_case(),
    ensures
        result == field_matches(text_view(*field), pattern.source()),
{
    match field {
        Some(text) => pattern.is_match(text.as_str()),
        None => false,
    }
}

/// Whether the search admits `paper`.
fn paper_is_match(paper: &Paper, pattern: &Pattern, any_field: bool) -> (result: bool)
    requires
        pattern.ignores_case(),
    ensures
        result == paper_matches(paper@, pattern.source(), any_field),
{
    field_is_match(&paper.number, pattern) || (any_field && (field_is_match(
        &paper.title,
        pattern,
    ) || field_is_match(&paper.author, pattern)))
}

} // verus!
