//! Texts, JSON, transcripts, line matching and exact floating point.
use git_ai::assoc::{get, put, sort_by_key};
use git_ai::authorship::authorship_log::{LineRange, PromptRecord};
use git_ai::authorship::reconstruction::{build_log, build_ranges, match_inserted, BlamedLine};
use git_ai::authorship::transcript::{entry_model, AiTranscript, Message, MessageUsage};
use git_ai::authorship::working_log::AgentId;
use git_ai::binary64::{floor_of, round_even_of, round_of, share_of};
use git_ai::changes::are_comparable;
use git_ai::json::Json;
use git_ai::session::{lenient_text, Reply, Request, Session, Stop};
use git_ai::text::{
    comes_before, contains, decimal_text, is_ascii_digit, is_whitespace, lines, pad_both,
    pad_left, pad_right, parse_u32, repeat, rfind, signed_decimal_text, split_char, split_once,
    split_text, split_whitespace, starts_with, strip_prefix, trim, two_digits_text,
};

fn text(s: &str) -> String {
    s.to_string()
}

#[test]
fn white_space_is_what_rust_calls_white_space() {
    for n in 0..=0x10ffffu32 {
        if let Some(c) = char::from_u32(n) {
            assert_eq!(is_whitespace(c), c.is_whitespace(), "{:x}", n);
            assert_eq!(is_ascii_digit(c), c.is_ascii_digit(), "{:x}", n);
        }
    }
}

#[test]
fn texts_are_cut_as_rust_cuts_them() {
    let samples = [
        "", " ", "\n", "a", "a\nb", "a\nb\n", "a\r\nb\r\n", "\r\n", "a,b,,c,", " a  b\tc ",
        "é à\u{3000}x", "....", "a..b", "a...b", "+1,2", "@@ -1 +2 @@", "no\rbreak",
    ];
    for s in samples {
        assert_eq!(lines(s), s.lines().collect::<Vec<_>>(), "{:?}", s);
        assert_eq!(trim(s), s.trim());
        assert_eq!(split_char(s, ','), s.split(',').collect::<Vec<_>>());
        assert_eq!(split_whitespace(s), s.split_whitespace().collect::<Vec<_>>());
        assert_eq!(split_text(s, ".."), s.split("..").collect::<Vec<_>>(), "{:?}", s);
        assert_eq!(contains(s, ".."), s.contains(".."));
        assert_eq!(starts_with(s, "@@"), s.starts_with("@@"));
        assert_eq!(strip_prefix(s, "@@"), s.strip_prefix("@@").map(|r| r.to_string()));
        assert_eq!(
            split_once(s, '+'),
            s.split_once('+').map(|(a, b)| (a.to_string(), b.to_string()))
        );
        assert_eq!(
            rfind(s, "@@"),
            s.rfind("@@").map(|i| s[..i].chars().count()),
            "{:?}",
            s
        );
        assert_eq!(parse_u32(s), s.parse::<u32>().ok());
        for other in samples {
            assert_eq!(comes_before(s, other), s < other, "{:?} {:?}", s, other);
        }
    }
}

#[test]
fn numbers_are_read_and_written_as_rust_does() {
    for s in ["0", "+7", "-7", "4294967295", "4294967296", "007", "1 ", "x", "+", "1_0"] {
        assert_eq!(parse_u32(s), s.parse::<u32>().ok(), "{:?}", s);
    }
    for n in [0u128, 9, 10, 1234567890, u64::MAX as u128, u128::MAX] {
        assert_eq!(decimal_text(n), n.to_string());
    }
    for n in [0i64, -1, 42, i64::MIN, i64::MAX] {
        assert_eq!(signed_decimal_text(n), n.to_string());
    }
    assert_eq!(two_digits_text(5), "05");
    assert_eq!(two_digits_text(123), "123");
}

#[test]
fn texts_are_padded_as_rust_pads_them() {
    for s in ["", "ab", "abc", "(no additions)", "é"] {
        for w in [0usize, 1, 3, 4, 40] {
            assert_eq!(pad_right(s, w), format!("{:<w$}", s, w = w));
            assert_eq!(pad_left(s, w), format!("{:>w$}", s, w = w));
            assert_eq!(pad_both(s, w), format!("{:^w$}", s, w = w));
        }
    }
    assert_eq!(repeat("ab", 3), "ababab");
}

#[test]
fn bytes_that_are_no_text_are_no_text() {
    assert_eq!(lenient_text(&b"abc".to_vec()), "abc");
    assert_eq!(lenient_text(&vec![0xff]), "");
}

#[test]
fn shares_are_exact() {
    for d in 1..120u32 {
        for n in 0..=d {
            for w in [38u32, 40, 100] {
                let exact = n as f64 / d as f64 * w as f64;
                assert_eq!(floor_of(share_of(n, d, w)), exact as u128, "{}/{}*{}", n, d, w);
                assert_eq!(round_of(share_of(n, d, w)), exact.round() as u128);
                assert_eq!(
                    round_even_of(share_of(n, d, w), 100).to_string(),
                    format!("{:.0}", exact.min(100.0))
                );
            }
        }
    }
    for (n, d) in [(u32::MAX, u32::MAX), (u32::MAX - 1, u32::MAX), (1, u32::MAX), (u32::MAX, 3)] {
        let exact = n as f64 / d as f64 * 100.0;
        assert_eq!(floor_of(share_of(n, d, 100)), exact as u128);
        assert_eq!(round_of(share_of(n, d, 100)), exact.round() as u128);
    }
    // A share of the bar is never more than the bar
    assert_eq!(floor_of(share_of(7, 7, 40)), 40);
}

#[test]
fn pairs_are_kept_by_key() {
    let mut pairs: Vec<(String, u32)> = Vec::new();
    put(&mut pairs, text("b"), 1);
    put(&mut pairs, text("a"), 2);
    put(&mut pairs, text("b"), 3);
    assert_eq!(pairs, vec![(text("b"), 3), (text("a"), 2)]);
    assert_eq!(get(&pairs, "a"), Some(&2));
    assert_eq!(get(&pairs, "c"), None);
    let ordered = sort_by_key(pairs);
    assert_eq!(ordered, vec![(text("a"), 2), (text("b"), 3)]);
    assert_eq!(sort_by_key(vec![(text("a"), 2), (text("b"), 3)]), ordered);
}

#[test]
fn runs_of_lines_become_ranges() {
    assert_eq!(
        build_ranges(&vec![1, 2, 3, 5, 7, 8]),
        vec![LineRange::Range(1, 3), LineRange::Single(5), LineRange::Range(7, 8)]
    );
    assert_eq!(build_ranges(&Vec::new()), Vec::new());
    assert_eq!(
        build_ranges(&vec![u32::MAX - 1, u32::MAX]),
        vec![LineRange::Range(u32::MAX - 1, u32::MAX)]
    );
}

#[test]
fn each_line_is_matched_once() {
    let texts = |all: &[&str]| all.iter().map(|t| text(t)).collect::<Vec<_>>();
    let found = match_inserted(&texts(&["x", "}", "}", "}"]), &texts(&["}", "a", "}", "x"]));
    assert_eq!(found, Some(vec![4, 1, 3]));
    assert_eq!(match_inserted(&texts(&["x"]), &texts(&[])), Some(Vec::new()));
    assert!(are_comparable("a\nb\n", "c"));
}

fn blamed(file: &str, line: u32, session: Option<&str>) -> BlamedLine {
    BlamedLine {
        file: text(file),
        line,
        prompt: session.map(|id| PromptRecord {
            agent_id: AgentId { tool: text("cursor"), id: text(id), model: text("m") },
            messages: Vec::new(),
            total_additions: 5,
            total_deletions: 6,
            accepted_lines: 99,
            overriden_lines: 7,
            rest: text("{}"),
        }),
    }
}

#[test]
fn blamed_lines_become_a_log() {
    let log = build_log(&vec![
        blamed("b", 4, Some("s2")),
        blamed("b", 3, Some("s2")),
        blamed("b", 1, Some("s1")),
        blamed("b", 2, None),
        blamed("a", 9, Some("s2")),
    ])
    .unwrap();
    assert_eq!(log.metadata.base_commit_sha, "");
    assert_eq!(log.attestations.len(), 2);
    assert_eq!(log.attestations[0].file_path, "b");
    let entries = &log.attestations[0].entries;
    assert_eq!(entries.len(), 2);
    assert_eq!((entries[0].hash.as_str(), entries[1].hash.as_str()), ("s1", "s2"));
    assert_eq!(entries[0].line_ranges, vec![LineRange::Single(1)]);
    assert_eq!(entries[1].line_ranges, vec![LineRange::Range(3, 4)]);
    let prompt = get(&log.metadata.prompts, "s2").unwrap();
    assert_eq!(prompt.accepted_lines, 3);
    assert_eq!((prompt.total_additions, prompt.overriden_lines), (5, 7));
    assert_eq!(prompt.rest, "{}");
    // No line is held by two entries of one file
    let holds = |range: &LineRange, n: u32| match range {
        LineRange::Single(one) => *one == n,
        LineRange::Range(first, last) => *first <= n && n <= *last,
    };
    for attestation in &log.attestations {
        for n in 0..20 {
            let holding = attestation
                .entries
                .iter()
                .filter(|e| e.line_ranges.iter().any(|r| holds(r, n)));
            assert!(holding.count() <= 1);
        }
    }
    assert_eq!(get(&log.metadata.prompts, "s1").unwrap().accepted_lines, 1);
}

#[test]
fn messages_know_what_they_are() {
    let user = Message::user(text("hi"), None);
    let tool = Message::tool_use(text("read"), Json::Object(Vec::new()));
    assert_eq!(user.text(), Some(&text("hi")));
    assert_eq!(tool.text(), None);
    assert!(tool.is_tool_use() && !user.is_tool_use());
    let mut transcript = AiTranscript::new();
    transcript.add_message(Message::user(text("hi"), None));
    transcript.add_message(tool);
    transcript.add_message(Message::assistant(text("ho"), None));
    assert_eq!(transcript.messages().len(), 3);
    let speech = transcript.without_tool_use();
    assert_eq!(
        speech.messages,
        vec![Message::user(text("hi"), None), Message::assistant(text("ho"), None)]
    );
    assert_eq!(speech.without_tool_use(), speech);
}

const SESSION: &str = r#"{"type":"summary","summary":"x"}
{"type":"user","timestamp":"2025-10-07T13:51:13Z","message":{"content":"Hello"}}

{"type":"user","message":{"content":"   "}}
{"type":"assistant","timestamp":"t1","message":{"model":"m-1","usage":{"input_tokens":3,"output_tokens":4294967297,"cache_read_input_tokens":-1},"content":[{"type":"text","text":"Hi"},{"type":"text","text":" "},{"type":"tool_use","name":"Edit","input":{"path":"a","n":1.50}},{"type":"tool_use","name":"Bad","input":"text"},{"type":"image"}]}}
{"type":"user","timestamp":"t2","message":{"content":[{"content":"done"},{"content":""},{"other":1}]}}
{"type":"assistant","message":{"model":"m-2","content":"plain"}}
"#;

#[test]
fn a_session_file_is_read() {
    let (transcript, model) = AiTranscript::from_claude_code_jsonl_with_model(SESSION).unwrap();
    assert_eq!(model, Some(text("m-1")));
    let usage = MessageUsage {
        input_tokens: Some(3),
        output_tokens: Some(1),
        cache_creation_input_tokens: None,
        cache_read_input_tokens: None,
    };
    assert_eq!(
        transcript.messages,
        vec![
            Message::User { text: text("Hello"), timestamp: Some(text("2025-10-07T13:51:13Z")) },
            Message::Assistant {
                text: text("Hi"),
                timestamp: Some(text("t1")),
                usage: Some(usage)
            },
            Message::ToolUse {
                name: text("Edit"),
                input: Json::Object(vec![
                    (text("n"), Json::Number(text("1.5"), None)),
                    (text("path"), Json::Text(text("a")))
                ]),
                timestamp: Some(text("t1")),
            },
            Message::User { text: text("done"), timestamp: Some(text("t2")) },
        ]
    );
}

#[test]
fn a_session_file_that_is_no_json_is_refused() {
    assert!(AiTranscript::from_claude_code_jsonl_with_model("{\"type\":\"user\"}\n{").is_err());
    let (transcript, model) = AiTranscript::from_claude_code_jsonl_with_model("\n \n").unwrap();
    assert!(transcript.messages.is_empty() && model.is_none());
    let (start, model) = AiTranscript::from_claude_code_jsonl_with_model(
        &SESSION.lines().take(5).collect::<Vec<_>>().join("\n"),
    )
    .unwrap();
    let (whole, _) = AiTranscript::from_claude_code_jsonl_with_model(SESSION).unwrap();
    assert_eq!(start.messages[..], whole.messages[..start.messages.len()]);
    assert_eq!(model, Some(text("m-1")));
}

#[test]
fn json_values_are_looked_into() {
    let object = Json::Object(vec![
        (text("type"), Json::Text(text("assistant"))),
        (text("message"), Json::Object(vec![(text("model"), Json::Text(text("m")))])),
        (text("n"), Json::Number(text("7"), Some(7))),
        (text("list"), Json::Array(vec![Json::Null, Json::Bool(true)])),
    ]);
    assert_eq!(entry_model(&object), Some(text("m")));
    assert_eq!(object.get("n").and_then(|n| n.as_u64()), Some(7));
    assert_eq!(object.get("list").and_then(|l| l.as_array()).map(|l| l.len()), Some(2));
    assert_eq!(object.get("type").and_then(|t| t.as_str()), Some(&text("assistant")));
    assert!(object.is_object());
    assert!(object.get("nothing").is_none());
    assert!(Json::Null.get("x").is_none());
}

#[test]
fn answers_are_gone_through_in_order() {
    let replies = vec![Reply::Flag(true), Reply::Number(7)];
    let mut session = Session::new(&replies);
    assert!(matches!(session.ask_flag(Request::IsTerminal), Ok(true)));
    assert_eq!(session.used(), 1);
    assert!(matches!(session.ask_flag(Request::IsTerminal), Err(Stop::Mismatch)));
    assert_eq!(session.used(), 2);
    assert!(matches!(
        session.ask_flag(Request::IsTerminal),
        Err(Stop::Pending(Request::IsTerminal))
    ));
    assert_eq!(session.used(), 2);
}
