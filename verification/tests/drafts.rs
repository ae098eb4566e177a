use std::collections::hash_map::DefaultHasher;
use std::hash::Hasher;

use openai_api_rust::drafting::calendar::days_to_ymd;
use openai_api_rust::drafting::csv::{csv_cell, csv_row};
use openai_api_rust::drafting::ident::{identifier_at, nanoid, NANOID_ALPHABET, NANOID_LENGTH};
use openai_api_rust::drafting::prompt::{
    build_prompt, count_sections, draft_request, draft_text, Agreement,
};
use openai_api_rust::drafting::report::{
    failure, figures, percentile, rollup, DraftResult, DraftRow, CSV_HEADER,
};
use openai_api_rust::drafting::timestamp::iso_timestamp;
use openai_api_rust::text::{decimal_text, zero_padded_text};
use openai_api_rust::{Choice, Message, Role};

#[test]
fn days_have_dates() {
    assert_eq!(days_to_ymd(0), (1970, 1, 1));
    assert_eq!(days_to_ymd(-1), (1969, 12, 31));
    assert_eq!(days_to_ymd(59), (1970, 3, 1));
    assert_eq!(days_to_ymd(11_016), (2000, 2, 29));
    assert_eq!(days_to_ymd(19_782), (2024, 2, 29));
    assert_eq!(days_to_ymd(19_783), (2024, 3, 1));
    assert_eq!(days_to_ymd(-25_509), (1900, 2, 28));
    assert_eq!(days_to_ymd(-25_508), (1900, 3, 1));
    assert_eq!(days_to_ymd(2_932_896), (9999, 12, 31));
    assert_eq!(days_to_ymd(-719_468), (0, 3, 1));
    assert_eq!(days_to_ymd(-719_529), (-1, 12, 31));
}

#[test]
fn dates_follow_one_another() {
    let length = |y: i32, m: u32| match m {
        2 if y % 4 == 0 && (y % 100 != 0 || y % 400 == 0) => 29,
        2 => 28,
        4 | 6 | 9 | 11 => 30,
        _ => 31,
    };
    let mut expected = days_to_ymd(-800_000);
    for day in -800_000i64..800_000 {
        assert_eq!(days_to_ymd(day), expected);
        let (y, m, d) = expected;
        expected = if d < length(y, m) {
            (y, m, d + 1)
        } else if m < 12 {
            (y, m + 1, 1)
        } else {
            (y + 1, 1, 1)
        };
    }
}

#[test]
fn timestamps_are_iso_8601() {
    assert_eq!(iso_timestamp(0), "1970-01-01T00:00:00.000Z");
    assert_eq!(iso_timestamp(1_709_251_199_999), "2024-02-29T23:59:59.999Z");
    assert_eq!(iso_timestamp(981_173_106_007), "2001-02-03T04:05:06.007Z");
    assert_eq!(iso_timestamp(253_402_300_799_999), "9999-12-31T23:59:59.999Z");
    assert_eq!(iso_timestamp(253_402_300_800_000), "10000-01-01T00:00:00.000Z");
    assert!(iso_timestamp(i64::MAX).is_char_boundary(10));
}

#[test]
fn numbers_are_decimal() {
    assert_eq!(decimal_text(0), "0");
    assert_eq!(decimal_text(10), "10");
    assert_eq!(decimal_text(u128::MAX), u128::MAX.to_string());
    assert_eq!(zero_padded_text(7, 3), "007");
    assert_eq!(zero_padded_text(0, 0), "0");
    assert_eq!(zero_padded_text(12345, 4), "12345");
}

#[test]
fn cells_are_quoted_where_needed() {
    assert_eq!(csv_cell(""), "");
    assert_eq!(csv_cell("plain text"), "plain text");
    assert_eq!(csv_cell("a,b"), "\"a,b\"");
    assert_eq!(csv_cell("say \"hi\""), "\"say \"\"hi\"\"\"");
    assert_eq!(csv_cell("two\nlines"), "\"two\nlines\"");
    assert_eq!(csv_cell("cr\ronly"), "cr\ronly");
    assert_eq!(csv_cell("\""), "\"\"\"\"");
    assert_eq!(csv_cell("é, ü"), "\"é, ü\"");
}

/// Reads a row as a spreadsheet does.
fn read(text: &str) -> Vec<String> {
    let mut cells = vec![String::new()];
    let mut quoted = false;
    let mut chars = text.chars().peekable();
    while let Some(c) = chars.next() {
        if quoted && c == '"' && chars.peek() == Some(&'"') {
            chars.next();
            cells.last_mut().unwrap().push('"');
        } else if c == '"' {
            quoted = !quoted;
        } else if c == ',' && !quoted {
            cells.push(String::new());
        } else {
            cells.last_mut().unwrap().push(c);
        }
    }
    cells
}

#[test]
fn rows_read_back() {
    let values: Vec<String> =
        ["a", "", "x,y", "\"", "say \"no\", twice", "l1\nl2", ""].map(String::from).to_vec();
    let text = csv_row(&values);
    assert_eq!(text, "a,,\"x,y\",\"\"\"\",\"say \"\"no\"\", twice\",\"l1\nl2\",");
    assert_eq!(read(&text), values);
    assert_eq!(csv_row(&vec![]), "");
}

#[test]
fn draft_row_has_the_columns_of_the_header() {
    let row = DraftRow {
        id: "id-1".to_string(),
        started: iso_timestamp(1_709_251_199_999),
        completed: iso_timestamp(1_709_251_200_000),
        backend: "deepseek".to_string(),
        model: "m,1".to_string(),
        agreement: "nda".to_string(),
        ok: false,
        ttft_ms: 12,
        total_ms: 345,
        chars: 6,
        sections: 0,
        error: "said \"no\"".to_string(),
    };
    let text = row.to_csv();
    assert_eq!(
        text,
        "id-1,2024-02-29,2024-02-29T23:59:59.999Z,2024-03-01T00:00:00.000Z,deepseek,\"m,1\",nda,false,12,345,6,0,\"said \"\"no\"\"\""
    );
    assert!(CSV_HEADER.ends_with('\n'));
    assert_eq!(read(CSV_HEADER.trim_end()).len(), read(&text).len());
}

#[test]
fn date_is_cut_after_ten_bytes() {
    let row = DraftRow {
        id: String::new(),
        started: "ééééé tail".to_string(),
        completed: String::new(),
        backend: String::new(),
        model: String::new(),
        agreement: String::new(),
        ok: true,
        ttft_ms: 0,
        total_ms: 0,
        chars: 0,
        sections: 0,
        error: String::new(),
    };
    assert_eq!(row.to_csv(), ",ééééé,ééééé tail,,,,,true,0,0,0,0,");
}

fn agreement() -> Agreement {
    Agreement {
        slug: "nda".to_string(),
        title: "Mutual NDA".to_string(),
        context: "Acme and Beta.".to_string(),
        sections: vec!["Purpose".to_string(), "Term".to_string()],
    }
}

const PROMPT: &str = "Draft the full text of a \"Mutual NDA\". This is a serious legal document — write the full body, \
not a summary or outline. Use proper legal prose, defined terms in initial caps, and numbered sections. \
You MUST produce at least 2 numbered sections, in this order, each with substantive body text:\n\n\
1. Purpose\n2. Term\n\n\
Context for the parties and deal:\nAcme and Beta.\n\n\
Output formatting:\n\
- Start with a one-paragraph preamble naming the parties and effective date.\n\
- Each section starts with a Markdown heading \"## N. Section Title\".\n\
- No table of contents, no commentary, no code fences — produce only the agreement body.";

#[test]
fn prompt_lists_the_sections() {
    assert_eq!(build_prompt(&agreement()), PROMPT);
    let bare = Agreement { sections: vec![], ..agreement() };
    assert!(build_prompt(&bare).contains("at least 0 numbered sections"));
    let messages = draft_request(&agreement());
    assert_eq!(messages.len(), 1);
    assert!(matches!(messages[0].role, Role::User));
    assert_eq!(messages[0].content, PROMPT);
}

#[test]
fn draft_is_the_content_of_the_first_choice() {
    let choice = |message: Option<Message>| Choice {
        text: None,
        index: 0,
        logprobs: None,
        finish_reason: None,
        message,
    };
    assert_eq!(draft_text(vec![]), "");
    assert_eq!(draft_text(vec![choice(None)]), "");
    assert_eq!(
        draft_text(vec![choice(Some(Message::new(Role::Assistant, "## 1. Purpose"))), choice(None)]),
        "## 1. Purpose"
    );
}

#[test]
fn sections_are_lines_with_a_heading() {
    for (text, count) in [
        ("", 0),
        ("## ", 1),
        ("##", 0),
        ("##\n ", 0),
        ("# a\n## b\n### c\n ## d\n## e", 2),
        ("## a\r\n## b\r\n", 2),
        ("## ## x", 1),
        ("#\n## \n##\r\n", 1),
        ("é\n## é", 1),
    ] {
        assert_eq!(count_sections(text), count);
        assert_eq!(count_sections(text), text.lines().filter(|l| l.starts_with("## ")).count());
    }
}

#[test]
fn identifiers_use_the_alphabet() {
    assert_eq!(nanoid(&vec![]), "");
    assert_eq!(nanoid(&vec![0, 1, 8, 63, 64, 127, u64::MAX]), "us-tutt");
    assert_eq!(nanoid(&vec![5; NANOID_LENGTH as usize]), "d".repeat(21));
}

#[test]
fn identifiers_are_hashes_of_the_clock_and_a_counter() {
    for now in [0u128, 1, 1_709_251_199_999_000_000] {
        let mut h = DefaultHasher::new();
        h.write_u128(now);
        let mut expected = String::new();
        for i in 0..21u8 {
            h.write_u8(i);
            expected.push(NANOID_ALPHABET.as_bytes()[(h.finish() as usize) & 63] as char);
        }
        assert_eq!(identifier_at(&now.to_ne_bytes()), expected);
    }
    assert_eq!(identifier_at(&[]).len(), NANOID_LENGTH as usize);
    assert_ne!(identifier_at(&[1]), identifier_at(&[2]));
}

fn results() -> Vec<DraftResult> {
    vec![
        DraftResult::completed("a".to_string(), 30, "## 1\nx"),
        DraftResult::failed("b".to_string(), 5),
        DraftResult::completed("c".to_string(), 10, "é"),
    ]
}

#[test]
fn results_are_measured() {
    let r = results();
    assert_eq!((r[0].chars, r[0].sections, r[0].ok), (6, 1, true));
    assert_eq!((r[1].chars, r[1].sections, r[1].ok), (0, 0, false));
    assert_eq!((r[2].chars, r[2].sections, r[2].total_ms), (1, 0, 10));
    assert_eq!(r[1].slug, "b");
    let came = figures(&r);
    assert_eq!(came.totals, vec![30, 10]);
    assert_eq!(came.chars, vec![6, 1]);
    assert_eq!(came.sections, vec![1, 0]);
}

#[test]
fn run_fails_when_a_draft_failed() {
    assert_eq!(failure(&results()), Some("1/3 failed".to_string()));
    assert_eq!(failure(&vec![]), None);
    let mut all = results();
    all.remove(1);
    assert_eq!(failure(&all), None);
}

#[test]
fn percentiles_pick_by_rank() {
    let mut xs = vec![5, 1, 4, 1];
    assert_eq!(percentile(&mut xs, 2), 4);
    assert_eq!(xs, vec![1, 1, 4, 5]);
    assert_eq!(percentile(&mut vec![], 0), 0);
    // The rank of a share `p` of `n` numbers is `(n - 1) * p`, rounded.
    for n in 1..50usize {
        assert_eq!(((n as f64 - 1.0) * 0.5).round() as usize, n / 2);
    }
}

#[test]
fn rollups_sum_up() {
    assert!(rollup(&vec![]).is_none());
    let r = rollup(&vec![9, 2, 4, 2]).unwrap();
    assert_eq!((r.min, r.median, r.avg, r.max, r.sum), (2, 4, 4, 9, 17));
    let r = rollup(&vec![u128::MAX]).unwrap();
    assert_eq!((r.min, r.median, r.avg, r.max, r.sum), (
        u128::MAX,
        u128::MAX,
        u128::MAX,
        u128::MAX,
        u128::MAX,
    ));
}
