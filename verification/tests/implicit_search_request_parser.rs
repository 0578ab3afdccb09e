use npaperbot_telegram::implicit_search_request_parser::end_paper_search_request;
use npaperbot_telegram::implicit_search_request_parser::is_char_digit;
use npaperbot_telegram::implicit_search_request_parser::is_not_start_request_character;
use npaperbot_telegram::implicit_search_request_parser::many_paper_requests;
use npaperbot_telegram::implicit_search_request_parser::paper;
use npaperbot_telegram::implicit_search_request_parser::paper_number;
use npaperbot_telegram::implicit_search_request_parser::paper_request;
use npaperbot_telegram::implicit_search_request_parser::paper_request_with_leading_trash;
use npaperbot_telegram::implicit_search_request_parser::paper_type;
use npaperbot_telegram::implicit_search_request_parser::revision;
use npaperbot_telegram::implicit_search_request_parser::revision_number;
use npaperbot_telegram::implicit_search_request_parser::start_paper_search_request;
use npaperbot_telegram::implicit_search_request_parser::ImplicitPaperSearchRequest;
use npaperbot_telegram::implicit_search_request_parser::ParseError;
use npaperbot_telegram::implicit_search_request_parser::ParseErrorKind::Alt;
use npaperbot_telegram::implicit_search_request_parser::ParseErrorKind::Tag;
use npaperbot_telegram::implicit_search_request_parser::ParseErrorKind::TakeWhile1;

fn request(paper_type: &str, paper_number: &str, revision_number: Option<i32>) -> ImplicitPaperSearchRequest {
    ImplicitPaperSearchRequest {
        paper_type: paper_type.to_string(),
        paper_number: paper_number.to_string(),
        revision_number,
    }
}

#[test]
fn test_is_char_digit() {
    assert!(is_char_digit('1'));
    assert!(!is_char_digit('a'));
    assert!(!is_char_digit('Д'));
}

#[test]
fn test_is_not_start_request_character() {
    assert!(is_not_start_request_character('a'));
    assert!(!is_not_start_request_character('['));
    assert!(!is_not_start_request_character('{'));
    assert!(!is_not_start_request_character('<'));
}

#[test]
fn test_start_paper_search_request() {
    assert_eq!(start_paper_search_request("["), Ok(("", "[")));
    assert_eq!(start_paper_search_request("{"), Ok(("", "{")));
    assert_eq!(start_paper_search_request("<"), Ok(("", "<")));

    assert_eq!(
        start_paper_search_request("("),
        Err(ParseError {
            errors: vec![("(".to_string(), Tag), ("(".to_string(), Alt)]
        })
    );
}

#[test]
fn test_end_paper_search_request() {
    assert_eq!(end_paper_search_request("]"), Ok(("", "]")));
    assert_eq!(end_paper_search_request("}"), Ok(("", "}")));
    assert_eq!(end_paper_search_request(">"), Ok(("", ">")));

    assert_eq!(
        end_paper_search_request(")"),
        Err(ParseError {
            errors: vec![(")".to_string(), Tag), (")".to_string(), Alt)]
        })
    );
}

#[test]
fn test_paper_type() {
    assert_eq!(paper_type("N"), Ok(("", "N")));
    assert_eq!(paper_type("n"), Ok(("", "n")));
    assert_eq!(paper_type("P"), Ok(("", "P")));
    assert_eq!(paper_type("D"), Ok(("", "D")));
    assert_eq!(paper_type("CWG"), Ok(("", "CWG")));
    assert_eq!(paper_type("EWG"), Ok(("", "EWG")));
    assert_eq!(paper_type("LWG"), Ok(("", "LWG")));
    assert_eq!(paper_type("LEWG"), Ok(("", "LEWG")));
    assert_eq!(paper_type("FS"), Ok(("", "FS")));
    assert_eq!(paper_type("Edit"), Ok(("", "Edit")));
    assert_eq!(paper_type("SD"), Ok(("", "SD")));
    assert_eq!(
        paper_type("WG"),
        Err(ParseError {
            errors: vec![("WG".to_string(), Tag), ("WG".to_string(), Alt)]
        })
    );
}

#[test]
fn test_paper_number() {
    assert_eq!(paper_number("1488"), Ok(("", "1488")));
    assert_eq!(
        paper_number(""),
        Err(ParseError {
            errors: vec![("".to_string(), TakeWhile1)]
        })
    );
    assert_eq!(
        paper_number("p1488"),
        Err(ParseError {
            errors: vec![("p1488".to_string(), TakeWhile1)]
        })
    );
}

#[test]
fn test_revision() {
    assert_eq!(revision("R"), Ok(("", "R")));
    assert_eq!(revision("r"), Ok(("", "r")));
    assert_eq!(
        revision("A"),
        Err(ParseError {
            errors: vec![("A".to_string(), Tag)]
        })
    );
}

#[test]
fn test_revision_number() {
    assert_eq!(revision_number("0"), Ok(("", "0")));
    assert_eq!(revision_number("10"), Ok(("", "10")));
    assert_eq!(
        revision_number(""),
        Err(ParseError {
            errors: vec![("".to_string(), TakeWhile1)]
        })
    );
}

#[test]
fn test_paper() {
    assert_eq!(paper("p1488"), Ok(("", request("p", "1488", None))));
    assert_eq!(paper("p1488R0"), Ok(("", request("p", "1488", Some(0)))));
    assert_eq!(
        paper("p 1488R0"),
        Err(ParseError {
            errors: vec![(" 1488R0".to_string(), TakeWhile1)]
        })
    );
}

#[test]
fn test_paper_request() {
    assert_eq!(paper_request("[p1488]"), Ok(("", request("p", "1488", None))));

    assert_eq!(paper_request("[p1488>"), Ok(("", request("p", "1488", None))));

    assert_eq!(
        paper_request("[]"),
        Err(ParseError {
            errors: vec![("]".to_string(), Tag), ("]".to_string(), Alt)]
        })
    );
}

#[test]
fn test_paper_request_with_leading_trash() {
    assert_eq!(
        paper_request_with_leading_trash("some text [p1488]"),
        Ok(("", request("p", "1488", None)))
    );

    assert_eq!(
        paper_request_with_leading_trash("[p1488]"),
        Ok(("", request("p", "1488", None)))
    );

    assert_eq!(
        paper_request_with_leading_trash("[p1488] some text"),
        Ok((" some text", request("p", "1488", None)))
    );
}

#[test]
fn test_many_paper_requests() {
    assert_eq!(
        many_paper_requests("some_text [p1488] and [p2000R10] ."),
        Ok((
            " .",
            vec![request("p", "1488", None), request("p", "2000", Some(10))]
        ))
    );

    assert_eq!(many_paper_requests("some_text"), Ok(("some_text", vec![])));
}
