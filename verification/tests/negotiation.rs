use kos_kit_server::format::{
    graph_content_negotiation, query_results_content_negotiation, GraphFormat, QueryResultsFormat,
};
use kos_kit_server::http::{Headers, Request, Status};
use kos_kit_server::negotiation::content_negotiation;
use kos_kit_server::score::{parse_q_value, Score};

fn request_accepting(accept: Option<&[u8]>) -> Request {
    let mut headers = Headers::new();
    if let Some(value) = accept {
        headers.append("Accept", value);
    }
    Request {
        method: "GET".to_string(),
        url: "http://localhost:7878/query".to_string(),
        path: "/query".to_string(),
        query: String::new(),
        headers,
    }
}

fn score(text: &str) -> Option<Score> {
    let chars: Vec<char> = text.chars().collect();
    parse_q_value(&chars)
}

/// Whether the first text writes a score above the second.
fn is_above(first: &str, second: &str) -> bool {
    score(first).unwrap().above(&score(second).unwrap())
}

/// Whether two texts write the same score.
fn is_same(first: &str, second: &str) -> bool {
    !is_above(first, second) && !is_above(second, first)
}

#[test]
fn higher_score_wins_over_earlier_entry() {
    let request = request_accepting(Some(b"application/json;q=0.5, text/csv;q=0.9"));
    assert_eq!(
        query_results_content_negotiation(&request).unwrap(),
        QueryResultsFormat::Csv
    );
}

#[test]
fn higher_score_wins_among_matching_entries() {
    let request = request_accepting(Some(
        b"application/sparql-results+json;q=0.5, text/csv;q=0.9",
    ));
    assert_eq!(
        query_results_content_negotiation(&request).unwrap(),
        QueryResultsFormat::Csv
    );
    let request = request_accepting(Some(
        b"application/sparql-results+json;q=0.9, text/csv;q=0.5",
    ));
    assert_eq!(
        query_results_content_negotiation(&request).unwrap(),
        QueryResultsFormat::Json
    );
}

#[test]
fn missing_accept_selects_first_supported() {
    let request = request_accepting(None);
    assert_eq!(content_negotiation(&request, &["zzz/yyy", "a/b"]).unwrap(), 0);
    assert_eq!(content_negotiation(&request, &["no slash at all"]).unwrap(), 0);
    assert_eq!(
        query_results_content_negotiation(&request).unwrap(),
        QueryResultsFormat::Json
    );
    assert_eq!(graph_content_negotiation(&request).unwrap(), GraphFormat::NTriples);
}

#[test]
fn empty_accept_selects_first_supported() {
    let request = request_accepting(Some(b""));
    assert_eq!(content_negotiation(&request, &["zzz/yyy", "a/b"]).unwrap(), 0);
}

#[test]
fn equal_scores_keep_the_earlier_entry() {
    let request = request_accepting(Some(b"text/turtle, application/n-triples"));
    assert_eq!(graph_content_negotiation(&request).unwrap(), GraphFormat::Turtle);
    let request = request_accepting(Some(b"text/turtle;q=0.7, application/rdf+xml;q=0.7"));
    assert_eq!(graph_content_negotiation(&request).unwrap(), GraphFormat::Turtle);
}

#[test]
fn wildcards_match_the_first_candidate_that_fits() {
    let request = request_accepting(Some(b"*/*"));
    assert_eq!(graph_content_negotiation(&request).unwrap(), GraphFormat::NTriples);
    let request = request_accepting(Some(b"text/*"));
    assert_eq!(graph_content_negotiation(&request).unwrap(), GraphFormat::Turtle);
    let request = request_accepting(Some(b"*/rdf+xml"));
    assert_eq!(graph_content_negotiation(&request).unwrap(), GraphFormat::RdfXml);
}

#[test]
fn whitespace_around_type_and_subtype_is_ignored() {
    let request = request_accepting(Some(b" text / turtle ; q=0.4 "));
    assert_eq!(graph_content_negotiation(&request).unwrap(), GraphFormat::Turtle);
}

#[test]
fn parameters_of_a_supported_type_are_ignored() {
    let request = request_accepting(Some(b"text/csv"));
    assert_eq!(
        query_results_content_negotiation(&request).unwrap(),
        QueryResultsFormat::Csv
    );
    let request = request_accepting(Some(b"text/tab-separated-values"));
    assert_eq!(
        query_results_content_negotiation(&request).unwrap(),
        QueryResultsFormat::Tsv
    );
}

#[test]
fn last_score_of_an_entry_counts() {
    let request = request_accepting(Some(b"text/turtle;q=0.1;q=0.9, application/n-triples;q=0.5"));
    assert_eq!(graph_content_negotiation(&request).unwrap(), GraphFormat::Turtle);
}

#[test]
fn nothing_acceptable_lists_the_supported_types() {
    let request = request_accepting(Some(b"image/png"));
    let error = graph_content_negotiation(&request).unwrap_err();
    assert_eq!(error.status, Status::NotAcceptable);
    assert_eq!(error.status.code(), 406);
    assert_eq!(
        error.message,
        "The available Content-Types are application/n-triples, text/turtle, application/rdf+xml"
    );
}

#[test]
fn score_zero_selects_nothing() {
    let request = request_accepting(Some(b"text/turtle;q=0"));
    let error = graph_content_negotiation(&request).unwrap_err();
    assert_eq!(error.status, Status::NotAcceptable);
}

#[test]
fn media_range_without_slash_is_a_bad_request() {
    let request = request_accepting(Some(b"text/turtle, foo"));
    let error = graph_content_negotiation(&request).unwrap_err();
    assert_eq!(error.status, Status::BadRequest);
    assert_eq!(error.message, "Invalid media type: ' foo'");
}

#[test]
fn trailing_comma_is_a_bad_request() {
    let request = request_accepting(Some(b"text/turtle,"));
    let error = graph_content_negotiation(&request).unwrap_err();
    assert_eq!(error.status, Status::BadRequest);
    assert_eq!(error.message, "Invalid media type: ''");
}

#[test]
fn unreadable_score_is_a_bad_request() {
    let request = request_accepting(Some(b"text/turtle;q=abc"));
    let error = graph_content_negotiation(&request).unwrap_err();
    assert_eq!(error.status, Status::BadRequest);
    assert_eq!(error.message, "Invalid Accept media type score: abc");
    let request = request_accepting(Some(b"text/turtle;q= 1e"));
    let error = graph_content_negotiation(&request).unwrap_err();
    assert_eq!(error.status, Status::BadRequest);
    assert_eq!(error.message, "Invalid Accept media type score:  1e");
}

#[test]
fn scores_that_differ_behind_the_third_decimal_are_told_apart() {
    let request = request_accepting(Some(b"a/b;q=0.5554,c/d;q=0.5556"));
    assert_eq!(content_negotiation(&request, &["c/d", "a/b"]).unwrap(), 0);
    let request = request_accepting(Some(b"a/b;q=0.5556,c/d;q=0.5554"));
    assert_eq!(content_negotiation(&request, &["c/d", "a/b"]).unwrap(), 1);
    let request = request_accepting(Some(b"a/b;q=0.5,c/d;q=0.50000000000000000000001"));
    assert_eq!(content_negotiation(&request, &["a/b", "c/d"]).unwrap(), 1);
    let request = request_accepting(Some(b"a/b;q=0.5,c/d;q=0.500"));
    assert_eq!(content_negotiation(&request, &["c/d", "a/b"]).unwrap(), 1);
}

#[test]
fn scores_are_read_as_floating_point_numbers_are_written() {
    let request = request_accepting(Some(b"a/b;q=1e-1,c/d;q=+0.5"));
    assert_eq!(content_negotiation(&request, &["a/b", "c/d"]).unwrap(), 1);
    let request = request_accepting(Some(b"a/b;q=1.5,c/d"));
    assert_eq!(content_negotiation(&request, &["c/d", "a/b"]).unwrap(), 1);
    let request = request_accepting(Some(b"a/b,c/d;q=2E0,e/f;q=INF"));
    assert_eq!(content_negotiation(&request, &["a/b", "c/d", "e/f"]).unwrap(), 2);
    let request = request_accepting(Some(b"a/b;q=-1,c/d;q=0.001"));
    assert_eq!(content_negotiation(&request, &["a/b", "c/d"]).unwrap(), 1);
    let request = request_accepting(Some(b"a/b;q=-1"));
    let error = content_negotiation(&request, &["a/b"]).unwrap_err();
    assert_eq!(error.status, Status::NotAcceptable);
    let request = request_accepting(Some(b"a/b;q=nan,c/d;q=0.1"));
    assert_eq!(content_negotiation(&request, &["a/b", "c/d"]).unwrap(), 1);
}

#[test]
fn accept_that_is_no_text_is_a_bad_request() {
    let request = request_accepting(Some(&[0xff, 0xfe]));
    let error = graph_content_negotiation(&request).unwrap_err();
    assert_eq!(error.status, Status::BadRequest);
    assert_eq!(error.message, "The Accept header should be a valid ASCII string");
}

#[test]
fn supported_type_without_slash_is_an_internal_error() {
    let request = request_accepting(Some(b"text/turtle"));
    let error = content_negotiation(&request, &["broken", "text/turtle"]).unwrap_err();
    assert_eq!(error.status, Status::InternalServerError);
    assert_eq!(error.message, "Invalid media type: 'text/turtle'");
}

#[test]
fn entry_below_the_best_score_is_not_matched() {
    // The second entry is never held against the supported types, so the broken one
    // among them goes unnoticed.
    let request = request_accepting(Some(b"a/b;q=0.9, c/d;q=0.5"));
    assert_eq!(content_negotiation(&request, &["a/b", "broken"]).unwrap(), 0);
}

#[test]
fn scores_are_ordered_by_their_exact_value() {
    assert!(is_above("0.5556", "0.5554"));
    assert!(!is_above("0.5554", "0.5556"));
    assert!(is_above("0.50000000000000000000000000001", "0.5"));
    assert!(is_above("1", "0.99999999999999999999"));
    assert!(is_above("1.5", "1"));
    assert!(is_above("10", "9.99"));
    assert!(is_above("100", "99"));
    assert!(is_above("0.1", "0.09"));
    assert!(is_above("0.02", "0.0199"));
    assert!(is_above("1e2", "99.9"));
    assert!(is_above("1e-2", "0.0099"));
    assert!(is_above("0.00001", "0"));
    assert!(is_above("1e-400", "0"));
    assert!(is_above("1e400", "1e399"));
    assert!(is_above("inf", "1e400"));
    assert!(is_above("Infinity", "1"));
    assert!(!is_above("inf", "+INF"));
    assert!(is_above("1e1000000000000000000000", "1e400"));
    assert!(!is_above("1e-1000000000000000000000", "0"));
}

#[test]
fn scores_that_are_written_differently_can_be_the_same() {
    for (first, second) in [
        ("0.5", "0.50"),
        ("0.5", ".5"),
        ("0.5", "+0.5"),
        ("0.5", "000.5000"),
        ("1", "1."),
        ("1", "1.000"),
        ("1", "0.1e1"),
        ("1", "10E-1"),
        ("0.1", "1e-1"),
        ("0.1", "1e-01"),
        ("100", "1e2"),
        ("100", "1e+2"),
        ("0", "0.000"),
        ("0", "0e5"),
        ("0", "-0"),
        ("0", "-1"),
        ("0", "-inf"),
        ("0", "nan"),
        ("0", "NaN"),
        ("inf", "INFINITY"),
    ] {
        assert!(is_same(first, second), "{:?} and {:?}", first, second);
    }
}

#[test]
fn texts_that_are_no_score() {
    for text in [
        "", ".", "+", "-", "e5", ".e5", "1e", "1e+", "1e-", "1e5e5", "1e5.5", "1.2.3", "--1",
        "+-1", "abc", "0x10", "1_0", " 1", "1 ", "in", "infinit", "na", "1f", "\u{661}",
    ] {
        assert!(score(text).is_none(), "{:?}", text);
    }
}

#[test]
fn scores_are_read_as_the_standard_library_reads_floats() {
    for text in [
        "0", "1", "0.5", ".5", "5.", "+1", "-1", "1e5", "1E5", "1e+5", "1e-5", "inf", "-inf",
        "+infinity", "nan", "", ".", "+", "e5", "1e", "1e+", "1.2.3", "0x10", "1_0", " 1",
        "infinit", "1f", "1e5e5", "--1",
    ] {
        assert_eq!(score(text).is_some(), text.parse::<f32>().is_ok(), "{:?}", text);
    }
}

/// Negotiation with scores as floating-point numbers, for comparison: the place of the
/// selected media type, or the status and message of the failure.
fn negotiate_with_floats(header: &str, supported: &[&str]) -> Result<usize, (u16, String)> {
    if header.is_empty() {
        return Ok(0);
    }
    let mut result = None;
    let mut result_score = 0_f32;
    for possible in header.split(',') {
        let (possible, parameters) = possible.split_once(';').unwrap_or((possible, ""));
        let (possible_base, possible_sub) = possible
            .split_once('/')
            .ok_or_else(|| (400, format!("Invalid media type: '{possible}'")))?;
        let possible_base = possible_base.trim();
        let possible_sub = possible_sub.trim();
        let mut score = 1.;
        for parameter in parameters.split(';') {
            let parameter = parameter.trim();
            if let Some(s) = parameter.strip_prefix("q=") {
                score = s
                    .trim()
                    .parse::<f32>()
                    .map_err(|_| (400, format!("Invalid Accept media type score: {s}")))?
            }
        }
        if score <= result_score {
            continue;
        }
        for (place, candidate) in supported.iter().enumerate() {
            let (candidate_base, candidate_sub) = candidate
                .split_once(';')
                .map_or(*candidate, |(p, _)| p)
                .split_once('/')
                .ok_or_else(|| (500, format!("Invalid media type: '{possible}'")))?;
            if (possible_base == candidate_base || possible_base == "*")
                && (possible_sub == candidate_sub || possible_sub == "*")
            {
                result = Some(place);
                result_score = score;
                break;
            }
        }
    }
    result.ok_or_else(|| {
        (
            406,
            format!("The available Content-Types are {}", supported.join(", ")),
        )
    })
}

#[test]
fn negotiation_agrees_with_floating_point_scores() {
    let supported = [
        "application/sparql-results+json",
        "application/sparql-results+xml",
        "text/csv; charset=utf-8",
        "text/tab-separated-values; charset=utf-8",
    ];
    let ranges = [
        "application/sparql-results+json",
        "application/sparql-results+xml",
        "text/csv",
        "text/tab-separated-values",
        "text/*",
        "application/*",
        "*/*",
        "*/csv",
        "image/png",
        " text / csv ",
        "text/csv ",
        "textcsv",
        "",
    ];
    let scores = [
        "", ";q=1", ";q=0", ";q=0.5", ";q=0.25", ";q=0.999", ";q=0.001", ";q=1.0", "; q=0.8",
        ";q= 0.3 ", ";level=1;q=0.4", ";q=0.4;level=1", ";q=0.2;q=0.9", ";q=x", ";q=", ";",
        ";q=0.5554", ";q=0.5556", ";q=1e-1", ";q=+0.5", ";q=1.5", ";q=-0.5", ";q=inf",
        ";q=2E0", ";q=.25", ";q=0.0001", ";q=1e",
    ];
    let mut compared = 0;
    for first in ranges {
        for first_score in scores {
            for second in ranges {
                for second_score in scores {
                    let header = format!("{first}{first_score},{second}{second_score}");
                    let request = request_accepting(Some(header.as_bytes()));
                    let ours = content_negotiation(&request, &supported)
                        .map_err(|e| (e.status.code(), e.message));
                    let theirs = negotiate_with_floats(&header, &supported);
                    assert_eq!(ours, theirs, "{:?}", header);
                    compared += 1;
                }
            }
        }
    }
    assert_eq!(compared, 13 * 27 * 13 * 27);
}
