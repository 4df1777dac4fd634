use dsh_desktop::token::{parse_token_url, trim_closing, TokenSlot, DSH_BASE_URL};

#[test]
fn extracts_plain_token_url() {
    let line = "  DSH web ready at http://127.0.0.1:3080/?token=abc123DEF_-";
    assert_eq!(
        parse_token_url(line).as_deref(),
        Some("http://127.0.0.1:3080/?token=abc123DEF_-")
    );
}

#[test]
fn trims_trailing_punctuation_after_token() {
    let line = "打开 http://127.0.0.1:3080/?token=abc.def123.";
    assert_eq!(
        parse_token_url(line).as_deref(),
        Some("http://127.0.0.1:3080/?token=abc.def123")
    );
}

#[test]
fn extracts_token_url_ignoring_ansi_and_quotes() {
    let line = "\u{1b}[32mOpen \u{1b}[0m\"http://127.0.0.1:3080/?token=xyz789\u{1b}[0m\"";
    assert_eq!(
        parse_token_url(line).as_deref(),
        Some("http://127.0.0.1:3080/?token=xyz789")
    );
}

#[test]
fn extracts_token_url_with_extra_query_param() {
    let line = "http://localhost:3080/?foo=1&token=tok_ABCdef";
    assert_eq!(
        parse_token_url(line).as_deref(),
        Some("http://localhost:3080/?foo=1&token=tok_ABCdef")
    );
}

#[test]
fn extracts_real_dsh_018_log_line() {
    let line = "dsh web: http://127.0.0.1:3080/?token=test-token (LAN: http://192.168.1.5:3080/?token=test-token)";
    assert_eq!(
        parse_token_url(line).as_deref(),
        Some("http://127.0.0.1:3080/?token=test-token")
    );
}

#[test]
fn extracts_real_dsh_log_line_without_lan() {
    let line = "dsh web: http://127.0.0.1:3080/?token=test-token";
    assert_eq!(
        parse_token_url(line).as_deref(),
        Some("http://127.0.0.1:3080/?token=test-token")
    );
}

#[test]
fn ignores_line_without_token() {
    for line in [
        "DSH web listening on http://127.0.0.1:3080",
        "authentication required",
        "http://127.0.0.1:3080/?token=",
        "",
    ] {
        assert_eq!(parse_token_url(line), None, "must not match: {line}");
    }
}

#[test]
fn letters_go_by_simple_case_folding() {
    assert_eq!(
        parse_token_url("see HTTPS://Host/?TOKEN=Ab").as_deref(),
        Some("HTTPS://Host/?TOKEN=Ab")
    );
    assert_eq!(
        parse_token_url("http\u{17f}://h/?to\u{212a}en=\u{17f}\u{212a}!").as_deref(),
        Some("http\u{17f}://h/?to\u{212a}en=\u{17f}\u{212a}")
    );
}

#[test]
fn an_address_needs_a_host_before_the_parameter() {
    assert_eq!(parse_token_url("http://?token=abc"), None);
    assert_eq!(
        parse_token_url("http://?token=abc&token=def").as_deref(),
        Some("http://?token=abc&token=def")
    );
}

#[test]
fn an_address_ends_at_any_white_space() {
    assert_eq!(parse_token_url("http://h\u{a0}/?token=abc"), None);
    assert_eq!(parse_token_url("http://h\u{3000}/?token=abc"), None);
    assert_eq!(
        parse_token_url("http://a b http://c/?token=d").as_deref(),
        Some("http://c/?token=d")
    );
}

#[test]
fn a_token_of_closing_punctuation_is_none() {
    assert_eq!(parse_token_url("http://127.0.0.1:3080/?token=."), None);
    assert_eq!(parse_token_url("http://h/?token=..."), None);
    assert_eq!(parse_token_url("see http://h/?a=b&TOKEN=.)."), None);
    assert_eq!(parse_token_url("http://h/?token=.a.").as_deref(), Some("http://h/?token=.a"));
    assert_eq!(parse_token_url("http://h/?token==").as_deref(), Some("http://h/?token=="));
    assert_eq!(
        parse_token_url("http://h/?token=token=.").as_deref(),
        Some("http://h/?token=token=")
    );
}

#[test]
fn punctuation_for_a_token_hides_no_other_address() {
    let cases = [
        ("http://h/?token=a&token=", "http://h/?token=a"),
        ("http://h/?token=a&token=.", "http://h/?token=a"),
        ("http://h/?token=a&token=..&token=. end", "http://h/?token=a"),
        ("http://h/?token=.&token=b.", "http://h/?token=.&token=b"),
        ("http://h/?token=. http://g/?token=c", "http://g/?token=c"),
        ("http://h/?token=. http://h/?token=. (http://g/?token=c)", "http://g/?token=c"),
        ("http://x/http://h/?token=a&token=...", "http://x/http://h/?token=a"),
    ];
    for (line, url) in cases {
        assert_eq!(parse_token_url(line).as_deref(), Some(url), "{line:?}");
        assert_eq!(parse_token_url(&format!("{line}.")).as_deref(), Some(url), "{line:?}");
    }
}

#[test]
fn punctuation_behind_an_address_is_no_part_of_it() {
    for tail in ["", ".", ",", ");", "..", "].}", ".,.;"] {
        for post in ["", " next", "\" or ?token=b"] {
            for pre in ["(at ", "(", "", "link:", "'"] {
                assert_eq!(
                    parse_token_url(&format!("{pre}http://h/?token=a.b{tail}{post}")).as_deref(),
                    Some("http://h/?token=a.b"),
                    "{pre:?} {tail:?} {post:?}"
                );
            }
        }
    }
}

#[test]
fn closing_punctuation_is_trimmed() {
    assert_eq!(trim_closing("a.b.,;)]}"), "a.b");
    assert_eq!(trim_closing("...."), "");
    assert_eq!(trim_closing("a!"), "a!");
    assert_eq!(trim_closing(""), "");
}

#[test]
fn a_captured_address_is_captured_unchanged() {
    let url = parse_token_url("at http://h:1/?a=b&token=x.y/z=.").unwrap();
    assert_eq!(url, "http://h:1/?a=b&token=x.y/z=");
    assert_eq!(parse_token_url(&url), Some(url));
}

#[test]
fn the_last_address_is_held_until_forgotten() {
    let mut slot = TokenSlot::new();
    assert!(!slot.has_token());
    assert_eq!(slot.current_nav_url(), DSH_BASE_URL);
    assert!(slot.observe("http://h/?token=one"));
    assert!(!slot.observe("nothing here"));
    assert!(slot.has_token());
    assert_eq!(slot.current_nav_url(), "http://h/?token=one");
    assert!(slot.observe("http://h/?token=two"));
    assert_eq!(slot.current_nav_url(), "http://h/?token=two");
    slot.forget();
    assert!(!slot.has_token());
    assert_eq!(slot.current_nav_url(), "http://127.0.0.1:3080");
}

#[test]
fn the_shown_address_holds_no_quotes() {
    let mut slot = TokenSlot::new();
    assert!(slot.observe("open 'http://h/?x=\"1\"' or 'http://h/?token=a.b'"));
    assert_eq!(slot.current_nav_url(), "http://h/?token=a.b");
    let script = dsh_desktop::page::navigation_script(&slot.current_nav_url());
    assert_eq!(script.matches('\'').count(), 2);
}

fn is_space(c: char) -> bool {
    matches!(c,
        '\u{9}'..='\u{d}' | ' ' | '\u{85}' | '\u{a0}' | '\u{1680}' | '\u{2000}'..='\u{200a}'
        | '\u{2028}' | '\u{2029}' | '\u{202f}' | '\u{205f}' | '\u{3000}')
}

fn url_char(c: char) -> bool {
    !is_space(c) && !matches!(c, '"' | '\'' | '<' | '>' | '`')
}

fn token_char(c: char) -> bool {
    c.is_ascii_alphanumeric()
        || matches!(c, '.' | '_' | '~' | '+' | '/' | '=' | '%' | '-' | '\u{17f}' | '\u{212a}')
}

fn reads(t: &[char], i: usize, word: &str) -> bool {
    word.chars().enumerate().all(|(k, w)| match t.get(i + k) {
        Some(&c) => {
            c == w
                || (w.is_ascii_lowercase() && c == w.to_ascii_uppercase())
                || (w == 's' && c == '\u{17f}')
                || (w == 'k' && c == '\u{212a}')
        }
        None => false,
    })
}

/// First start, then furthest sign, then longest token, by trying all of them; a token of nothing but
/// dots does not count.
fn chosen(t: &[char]) -> Option<(usize, usize)> {
    for s in 0..t.len() {
        let p = if reads(t, s, "https://") {
            s + 8
        } else if reads(t, s, "http://") {
            s + 7
        } else {
            continue;
        };
        let mut best = None;
        for b in p + 1..t.len() {
            if !t[p..b].iter().all(|&c| url_char(c)) {
                break;
            }
            if (t[b] == '?' || t[b] == '&') && reads(t, b + 1, "token=") {
                let run = t[b + 7..].iter().take_while(|&&c| token_char(c)).count();
                if t[b + 7..b + 7 + run].iter().any(|&c| c != '.') {
                    best = Some((s, b + 7 + run));
                }
            }
        }
        if best.is_some() {
            return best;
        }
    }
    None
}

#[test]
fn the_match_is_the_chosen_address() {
    let pieces = [
        "http://", "https://", "http\u{17f}://", "HTTP://", "http", "://", "h", "host:80/", "a=b",
        "?token=", "&token=", "?TO\u{212a}EN=", "?token=", "&Token=", "token=", "x1", "Zz", ".", "..",
        " ", "\"", "'", "<", "`", "\u{17f}", "\u{212a}", "\u{a0}", "\u{3000}", "\u{200b}",
        "\u{1b}[0m", "/", "=", "?", "&", "%-", ")", "\n", "é", "http://h/?token=ab",
    ];
    let mut seed: u64 = 88172645463325252;
    let mut next = move |below: usize| {
        seed ^= seed << 13;
        seed ^= seed >> 7;
        seed ^= seed << 17;
        (seed % below as u64) as usize
    };
    let mut matched = 0;
    for _ in 0..600 {
        let mut line = String::new();
        for _ in 0..4 + next(12) {
            line.push_str(pieces[next(pieces.len())]);
        }
        let t: Vec<char> = line.chars().collect();
        let expected = chosen(&t).map(|(s, e)| {
            let whole: String = t[s..e].iter().collect();
            whole.trim_end_matches(['.', ',', ';', ')', ']', '}']).to_string()
        });
        if expected.is_some() {
            matched += 1;
        }
        assert_eq!(parse_token_url(&line), expected, "{line:?}");
    }
    assert!(matched > 100, "{matched}");
}
