use npaperbot_telegram::error::BotError;
use npaperbot_telegram::storage::Paper;
use npaperbot_telegram::storage::PaperDatabase;
use npaperbot_telegram::utils::convert_papers_to_result;
use npaperbot_telegram::utils::markdown_v2_escape;
use npaperbot_telegram::utils::markdown_v2_escape_inline_uri;

fn text(value: &str) -> Option<String> {
    Some(value.to_string())
}

fn titled(title: &str, author: &str) -> Paper {
    Paper::new(None, text(title), None, text(author), None, None)
}

fn entry(key: &str, title: &str, author: &str) -> (String, Paper) {
    (key.to_string(), titled(title, author))
}

fn filed(key: &str, title: &str, author: &str) -> Paper {
    Paper::new(text(key), text(title), None, text(author), None, None)
}

fn sample() -> PaperDatabase {
    PaperDatabase::new(vec![
        entry("P1488R0", "Ranges", "Ann"),
        entry("P1488R1", "Ranges, revised", "Ann"),
        entry("P2000R1", "Direction", "Bob"),
        entry("N4860", "Working draft", "Carl"),
        entry("LEWG12", "P1488 follow-up", "Dora"),
    ])
}

#[test]
fn empty_catalog_has_no_paper() {
    let database = PaperDatabase::new_empty();
    assert_eq!(database.len(), 0);
    assert_eq!(
        database.search_by_number(&"p".to_string(), 20),
        Ok((false, vec![]))
    );
    assert_eq!(database.search_any(&".*".to_string(), 20), Ok((false, vec![])));
    assert_eq!(database.search_any(&".*".to_string(), 0), Ok((false, vec![])));
}

#[test]
fn catalog_counts_its_entries() {
    assert_eq!(sample().len(), 5);
}

#[test]
fn catalog_files_each_paper_under_its_key() {
    let embedded = Paper::new(text("WRONG"), text("Ranges"), None, None, None, None);
    let database = PaperDatabase::new(vec![("P1488R0".to_string(), embedded)]);
    let expected = Paper::new(text("P1488R0"), text("Ranges"), None, None, None, None);
    assert_eq!(
        database.search_by_number(&"^P1488R0$".to_string(), 20),
        Ok((false, vec![expected.clone()]))
    );
    assert_eq!(
        database.search_by_number(&"WRONG".to_string(), 20),
        Ok((false, vec![]))
    );
    assert_eq!(expected.number(), &text("P1488R0"));
}

#[test]
fn search_by_number_ignores_case_and_other_fields() {
    let database = sample();
    assert_eq!(
        database.search_by_number(&"p1488r1".to_string(), 20),
        Ok((false, vec![filed("P1488R1", "Ranges, revised", "Ann")]))
    );
    assert_eq!(
        database.search_by_number(&"ranges".to_string(), 20),
        Ok((false, vec![]))
    );
    assert_eq!(
        database.search_by_number(&"p1488".to_string(), 20),
        Ok((
            false,
            vec![
                filed("P1488R0", "Ranges", "Ann"),
                filed("P1488R1", "Ranges, revised", "Ann")
            ]
        ))
    );
}

#[test]
fn search_by_number_reads_the_pattern_as_regular_expression() {
    let database = sample();
    assert_eq!(
        database.search_by_number(&"^(n|lewg)[0-9]+$".to_string(), 20),
        Ok((
            false,
            vec![
                filed("N4860", "Working draft", "Carl"),
                filed("LEWG12", "P1488 follow-up", "Dora")
            ]
        ))
    );
}

#[test]
fn search_rejects_a_pattern_that_is_no_regular_expression() {
    let database = sample();
    assert_eq!(
        database.search_by_number(&"(".to_string(), 20),
        Err(BotError::InvalidPattern)
    );
    assert_eq!(
        database.search_any(&"[a-".to_string(), 20),
        Err(BotError::InvalidPattern)
    );
    assert_eq!(
        PaperDatabase::new_empty().search_any(&"(".to_string(), 20),
        Err(BotError::InvalidPattern)
    );
}

#[test]
fn search_any_admits_a_match_in_number_title_or_author() {
    let database = sample();
    assert_eq!(
        database.search_any(&"n4860".to_string(), 20),
        Ok((false, vec![filed("N4860", "Working draft", "Carl")]))
    );
    assert_eq!(
        database.search_any(&"direction".to_string(), 20),
        Ok((false, vec![filed("P2000R1", "Direction", "Bob")]))
    );
    assert_eq!(
        database.search_any(&"dora".to_string(), 20),
        Ok((false, vec![filed("LEWG12", "P1488 follow-up", "Dora")]))
    );
    assert_eq!(database.search_any(&"zzz".to_string(), 20), Ok((false, vec![])));
}

#[test]
fn search_any_returns_a_paper_once_however_many_fields_match() {
    let database = PaperDatabase::new(vec![entry("P21", "P21 explained", "P21 fan")]);
    assert_eq!(
        database.search_any(&"p21".to_string(), 20),
        Ok((false, vec![filed("P21", "P21 explained", "P21 fan")]))
    );
    let both = sample().search_any(&"p1488".to_string(), 20);
    assert_eq!(
        both,
        Ok((
            false,
            vec![
                filed("P1488R0", "Ranges", "Ann"),
                filed("P1488R1", "Ranges, revised", "Ann"),
                filed("LEWG12", "P1488 follow-up", "Dora")
            ]
        ))
    );
}

#[test]
fn search_returns_the_first_matches_up_to_the_limit() {
    let database = sample();
    assert_eq!(
        database.search_any(&"p".to_string(), 2),
        Ok((
            true,
            vec![
                filed("P1488R0", "Ranges", "Ann"),
                filed("P1488R1", "Ranges, revised", "Ann")
            ]
        ))
    );
    assert_eq!(
        database.search_by_number(&"^p".to_string(), 1),
        Ok((true, vec![filed("P1488R0", "Ranges", "Ann")]))
    );
    assert_eq!(
        database.search_by_number(&"^p".to_string(), 4),
        Ok((
            false,
            vec![
                filed("P1488R0", "Ranges", "Ann"),
                filed("P1488R1", "Ranges, revised", "Ann"),
                filed("P2000R1", "Direction", "Bob")
            ]
        ))
    );
}

#[test]
fn search_with_as_many_matches_as_the_limit_is_not_truncated() {
    let database = sample();
    assert_eq!(
        database.search_any(&"lewg12|dora".to_string(), 1),
        Ok((false, vec![filed("LEWG12", "P1488 follow-up", "Dora")]))
    );
    // Entries that do not match follow the last match: nothing is left out.
    assert_eq!(
        database.search_by_number(&"^p1488".to_string(), 2),
        Ok((
            false,
            vec![
                filed("P1488R0", "Ranges", "Ann"),
                filed("P1488R1", "Ranges, revised", "Ann")
            ]
        ))
    );
    assert_eq!(
        database.search_any(&"ann".to_string(), 2),
        Ok((
            false,
            vec![
                filed("P1488R0", "Ranges", "Ann"),
                filed("P1488R1", "Ranges, revised", "Ann")
            ]
        ))
    );
}

#[test]
fn search_with_limit_zero_returns_nothing() {
    assert_eq!(
        sample().search_any(&"p".to_string(), 0),
        Ok((true, vec![]))
    );
    assert_eq!(
        sample().search_any(&"zzz".to_string(), 0),
        Ok((false, vec![]))
    );
    let single = PaperDatabase::new(vec![(
        "N4860".to_string(),
        Paper::new(None, None, None, None, None, None),
    )]);
    assert_eq!(single.search_any(&"zzz".to_string(), 0), Ok((false, vec![])));
    assert_eq!(single.search_by_number(&"n".to_string(), 0), Ok((true, vec![])));
}

#[test]
fn search_is_truncated_exactly_where_more_papers_match() {
    let database = sample();
    for limit in 0..8u8 {
        let (truncated, found) = database.search_by_number(&"^p".to_string(), limit).unwrap();
        assert_eq!(truncated, limit < 3);
        assert_eq!(found.len(), std::cmp::min(limit as usize, 3));
    }
}

#[test]
fn search_does_not_depend_on_the_order_of_the_catalog() {
    let one = PaperDatabase::new(vec![
        entry("P1488R0", "Ranges", "Ann"),
        entry("N4860", "Working draft", "Carl"),
    ]);
    let other = PaperDatabase::new(vec![
        entry("N4860", "Working draft", "Carl"),
        entry("P1488R0", "Ranges", "Ann"),
    ]);
    let pattern = "ranges".to_string();
    assert_eq!(
        one.search_any(&pattern, 1),
        Ok((false, vec![filed("P1488R0", "Ranges", "Ann")]))
    );
    assert_eq!(one.search_any(&pattern, 1), other.search_any(&pattern, 1));
    assert_eq!(one.search_any(&pattern, 0), other.search_any(&pattern, 0));
    let (one_truncated, one_found) = one.search_any(&".".to_string(), 1).unwrap();
    let (other_truncated, other_found) = other.search_any(&".".to_string(), 1).unwrap();
    assert!(one_truncated && other_truncated);
    assert_eq!(one_found.len(), other_found.len());
}

#[test]
fn search_never_returns_more_than_the_limit() {
    let database = sample();
    for limit in 0..8u8 {
        let (_, found) = database.search_any(&".".to_string(), limit).unwrap();
        assert_eq!(found.len(), std::cmp::min(limit as usize, 5));
    }
}

#[test]
fn replacing_puts_the_new_catalog_in_place() {
    let mut database = sample();
    database.replace(PaperDatabase::new(vec![entry("D1", "Draft", "Eve")]));
    assert_eq!(database.len(), 1);
    assert_eq!(
        database.search_any(&"ranges".to_string(), 20),
        Ok((false, vec![]))
    );
    assert_eq!(
        database.search_any(&"draft".to_string(), 20),
        Ok((false, vec![filed("D1", "Draft", "Eve")]))
    );
}

#[test]
fn replacing_twice_with_the_same_catalog_changes_nothing() {
    let mut database = PaperDatabase::new_empty();
    database.replace(sample());
    let size = database.len();
    let by_number = database.search_by_number(&"p1488".to_string(), 1);
    let any = database.search_any(&"ann|bob".to_string(), 20);
    database.replace(sample());
    assert_eq!(database.len(), size);
    assert_eq!(database.search_by_number(&"p1488".to_string(), 1), by_number);
    assert_eq!(database.search_any(&"ann|bob".to_string(), 20), any);
}

#[test]
fn paper_copy_is_equal() {
    let paper = Paper::new(
        text("P21"),
        text("T"),
        text("L"),
        text("A"),
        text("D"),
        text("G"),
    );
    assert_eq!(paper.clone(), paper);
}

#[test]
fn markdown_v2_escape_puts_a_backslash_before_markup() {
    assert_eq!(markdown_v2_escape("plain text 123"), "plain text 123");
    assert_eq!(markdown_v2_escape("a.b"), "a\\.b");
    assert_eq!(
        markdown_v2_escape("{}[]()+*|.-_~`>#=!"),
        "\\{\\}\\[\\]\\(\\)\\+\\*\\|\\.\\-\\_\\~\\`\\>\\#\\=\\!"
    );
    assert_eq!(markdown_v2_escape("a\\b/c:d<e"), "a\\b/c:d<e");
    assert_eq!(markdown_v2_escape(""), "");
}

#[test]
fn markdown_v2_escape_inline_uri_escapes_parenthesis_and_backslash() {
    assert_eq!(
        markdown_v2_escape_inline_uri("https://wg21.link/p1488"),
        "https://wg21.link/p1488"
    );
    assert_eq!(markdown_v2_escape_inline_uri("a)b\\c(d"), "a\\)b\\\\c(d");
}

#[test]
fn format_with_all_fields() {
    let paper = Paper::new(
        text("P1488R0"),
        text("A title."),
        text("https://wg21.link/p1488r0_(x)"),
        text("A. B"),
        text("2019-01-01"),
        text("https://github.com/cplusplus/papers/issues/1"),
    );
    assert_eq!(
        paper.format_with_markdownv2(),
        "[P1488R0: A title\\.](https://wg21.link/p1488r0_(x\\)) \\(by A\\. B\\) \\(2019\\-01\\-01\\) \\(Related: [GitHub issue](https://github\\.com/cplusplus/papers/issues/1)\\)"
    );
}

#[test]
fn format_without_link_leaves_the_heading_as_it_is() {
    let paper = Paper::new(text("P1488R0"), text("A title."), None, None, None, None);
    assert_eq!(paper.format_with_markdownv2(), "P1488R0: A title.");
    let dated = Paper::new(text("N1"), None, None, None, text("2020"), None);
    assert_eq!(dated.format_with_markdownv2(), "N1 \\(2020\\)");
}

#[test]
fn format_with_number_or_title_only() {
    let number_only = Paper::new(text("P21"), None, text("l"), None, None, None);
    assert_eq!(number_only.format_with_markdownv2(), "[P21](l)");
    let title_only = Paper::new(None, text("Title"), None, text("Me"), None, None);
    assert_eq!(title_only.format_with_markdownv2(), "Title \\(by Me\\)");
    let empty_number = Paper::new(text(""), text("Title"), None, None, None, None);
    assert_eq!(empty_number.format_with_markdownv2(), "Title");
}

#[test]
fn format_without_number_and_title_uses_the_placeholder() {
    let nameless = Paper::new(None, None, None, None, None, None);
    assert_eq!(nameless.format_with_markdownv2(), "Here should be a paper title");
    let empty = Paper::new(text(""), text(""), text("l"), None, None, None);
    assert_eq!(empty.format_with_markdownv2(), "[Here should be a paper title](l)");
}

#[test]
fn convert_papers_to_result_sorts_the_lines() {
    let papers = vec![
        filed("P22", "b", "x"),
        filed("N1", "c", "y"),
        filed("P210", "a", "z"),
    ];
    assert_eq!(
        convert_papers_to_result(papers),
        "N1: c \\(by y\\)\n\nP210: a \\(by z\\)\n\nP22: b \\(by x\\)"
    );
}

#[test]
fn convert_papers_to_result_of_one_and_of_no_paper() {
    assert_eq!(convert_papers_to_result(vec![]), "");
    assert_eq!(
        convert_papers_to_result(vec![Paper::new(text("P21"), None, None, None, None, None)]),
        "P21"
    );
}

#[test]
fn convert_papers_to_result_orders_by_code_point() {
    let papers = vec![
        Paper::new(text("b"), None, None, None, None, None),
        Paper::new(text("B"), None, None, None, None, None),
        Paper::new(text("Б"), None, None, None, None, None),
        Paper::new(text("a"), None, None, None, None, None),
        Paper::new(text("ab"), None, None, None, None, None),
    ];
    assert_eq!(convert_papers_to_result(papers), "B\n\na\n\nab\n\nb\n\nБ");
}

#[test]
fn paper_gives_its_fields_back() {
    let paper = Paper::new(
        text("N4860"),
        text("T"),
        text("L"),
        text("A"),
        text("D"),
        text("G"),
    );
    assert_eq!(
        paper.into_fields(),
        (text("N4860"), text("T"), text("L"), text("A"), text("D"), text("G"))
    );
    let bare = Paper::new(None, None, None, None, None, None);
    assert_eq!(bare.into_fields(), (None, None, None, None, None, None));
}

#[test]
fn search_returns_papers_of_the_catalog_that_was_searched() {
    let mut database = sample();
    let (_, before) = database.search_any(&".".to_string(), 20).unwrap();
    database.replace(PaperDatabase::new(vec![
        entry("D4000", "Draft", "Eve"),
        entry("D4001", "Ranges", "Ann"),
    ]));
    let (_, after) = database.search_any(&".".to_string(), 20).unwrap();
    assert_eq!(
        before,
        vec![
            filed("P1488R0", "Ranges", "Ann"),
            filed("P1488R1", "Ranges, revised", "Ann"),
            filed("P2000R1", "Direction", "Bob"),
            filed("N4860", "Working draft", "Carl"),
            filed("LEWG12", "P1488 follow-up", "Dora")
        ]
    );
    assert_eq!(
        after,
        vec![filed("D4000", "Draft", "Eve"), filed("D4001", "Ranges", "Ann")]
    );
}
