use grassfeed::util::filter_by_iso8859_1;
use grassfeed::util::Step;
use grassfeed::util::StepResult;
use grassfeed::util::remove_invalid_chars_from_input;
use grassfeed::util::string_escape_url;
use grassfeed::util::string_is_http_url;
use grassfeed::util::string_truncate;
use grassfeed::util::db_time_to_display_nonnull;

#[test]
pub fn sanitize_input() {
    assert_eq!(
        remove_invalid_chars_from_input(" h ".to_string()),
        "h".to_string()
    );
    assert_eq!(
        remove_invalid_chars_from_input("a\nb\'c".to_string()),
        "abc".to_string()
    );
    assert_eq!(
        remove_invalid_chars_from_input("&#8220;Science&#8221; no ".to_string()),
        "\"Science\" no".to_string()
    );
    assert_eq!(
        remove_invalid_chars_from_input("adviser&#8217;s".to_string()),
        "adviser's".to_string()
    );
    assert_eq!(
        remove_invalid_chars_from_input("Jenkins &#226;&#128;&#147; Brighteon".to_string()),
        "Jenkins â€› Brighteon".to_string()
    );
}

#[test]
fn string_truncate_reg() {
    let jap = String::from("Japan 無料ダウンロード");
    let short = string_truncate(jap, 10);
    assert_eq!(short, String::from("Japan 無料"));
}

#[test]
fn string_truncate_long() {
    let jap = String::from("Japan 無料ダウンロード");
    let short = string_truncate(jap, 100);
    assert_eq!(short, String::from("Japan 無料ダウンロード"));
}

#[test]
fn string_truncate_exact_and_zero() {
    assert_eq!(string_truncate(String::from("abc"), 3), String::from("abc"));
    assert_eq!(string_truncate(String::from("abc"), 2), String::from("ab"));
    assert_eq!(string_truncate(String::from("abc"), 0), String::from(""));
    assert_eq!(string_truncate(String::from("ä"), 1), String::from("ä"));
}

#[test]
fn escape_url_ampersands() {
    assert_eq!(
        string_escape_url(String::from("a&b&&c")),
        String::from("a&amp;b&amp;&amp;c")
    );
    assert_eq!(string_escape_url(String::from("plain")), String::from("plain"));
}

#[test]
fn http_url_prefixes() {
    assert!(string_is_http_url("http://x"));
    assert!(string_is_http_url("https://x"));
    assert!(!string_is_http_url("ftp://x"));
    assert!(!string_is_http_url("http:/"));
}

enum MiniState {
    State1(Inner),
    Exit(Inner),
}

struct Inner {
    i: u16,
}

impl Step<Inner> for MiniState {
    fn step(self) -> StepResult<Inner, MiniState> {
        match self {
            MiniState::State1(mut inn) => {
                inn.i += 2;
                StepResult::Continue(MiniState::Exit(inn))
            }
            MiniState::Exit(inn) => StepResult::Stop(inn),
        }
    }
}

#[test]
fn mini_with_tuple() {
    let last_data = StepResult::start(MiniState::State1(Inner { i: 3 }));
    assert_eq!(last_data.i, 5);
}

#[test]
fn namefilter1() {
    assert_eq!(
        filter_by_iso8859_1(&"Hallo".to_string()),
        ("Hallo".to_string(), false)
    );
    assert_eq!(
        filter_by_iso8859_1(&"news 기사 요약 -".to_string()),
        ("news ".to_string(), true)
    );
    assert_eq!(
        filter_by_iso8859_1(&"Japan 無料ダウンロード".to_string()),
        ("Japan ".to_string(), true)
    );
    assert_eq!(
        filter_by_iso8859_1(&"J 無料ダウ".to_string()),
        ("J ".to_string(), true)
    );
    assert_eq!(
        filter_by_iso8859_1(&" 料ダウ".to_string()),
        (" ".to_string(), true)
    );
}

#[test]
fn t_db_time_to_display_nonnull_shape() {
    assert_eq!(db_time_to_display_nonnull(0), "");
    let t: Vec<char> = db_time_to_display_nonnull(1_600_000_000).chars().collect();
    let n = t.len();
    assert!(n >= 19);
    assert_eq!((t[n - 15], t[n - 12], t[n - 9], t[n - 6], t[n - 3]), ('-', '-', ' ', ':', ':'));
    assert!(t[n - 2].is_ascii_digit() && t[n - 1].is_ascii_digit());
}

#[test]
fn t_db_time_to_display_at_the_range_ends() {
    for t in [8_210_266_790_399i64, -8_334_601_142_400i64] {
        let s: Vec<char> = db_time_to_display_nonnull(t).chars().collect();
        assert!(s.len() >= 19);
        assert_eq!(s[s.len() - 9], ' ');
    }
}

#[test]
fn t_iso_table_quotes_and_controls() {
    assert_eq!(
        filter_by_iso8859_1(&"\u{2018}a\u{2019} \u{201C}b\u{201D}\u{2026}".to_string()),
        ("'a' \"b\".".to_string(), false)
    );
    assert_eq!(filter_by_iso8859_1(&"x\u{0085}y".to_string()), ("xy".to_string(), false));
}
