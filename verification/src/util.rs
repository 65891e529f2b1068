use vstd::prelude::*;
use crate::text::{chars_of, char_utf8_width, remove_chars_vec, replace_vec, string_of, string_of_prefix, trim_vec};

verus! {

broadcast use vstd::string::group_string_axioms;

/// `s` with every `&` written as `&amp;`.
pub open spec fn escaped_url(s: Seq<char>) -> Seq<char> {
    crate::text::replace_all(s, "&"@, "&amp;"@)
}

/// `s` with every `&amp;` written as `&`.
pub open spec fn unescaped_url(s: Seq<char>) -> Seq<char> {
    crate::text::replace_all(s, "&amp;"@, "&"@)
}

/// Unescaping undoes the escaping: writing each `&amp;` of an escaped text back as `&`
/// gives the text that was escaped.
pub proof fn lemma_unescape_undoes_escape(s: Seq<char>)
    ensures
        unescaped_url(escaped_url(s)) == s,
    decreases s.len(),
{
    reveal_strlit("&");
    reveal_strlit("&amp;");
    let amp = "&"@;
    let ent = "&amp;"@;
    if s.len() == 0 {
        assert(escaped_url(s) == s);
    } else {
        let e = escaped_url(s);
        let rest = s.skip(1);
        lemma_unescape_undoes_escape(rest);
        if s[0] == '&' {
            assert(s.take(1) =~= amp);
            assert(e == ent + escaped_url(rest));
            assert((ent + escaped_url(rest)).take(5) =~= ent);
            assert((ent + escaped_url(rest)).skip(5) =~= escaped_url(rest));
            assert(unescaped_url(e) == amp + unescaped_url(escaped_url(rest)));
            assert(amp + rest =~= s);
        } else {
            assert(amp[0] == '&' && ent[0] == '&');
            assert(s.take(1)[0] == s[0]);
            assert(s.take(1) != amp);
            assert(e == seq![s[0]] + escaped_url(rest));
            let e2 = seq![s[0]] + escaped_url(rest);
            assert(e2[0] == s[0]);
            assert(!crate::text::starts_with(e2, ent)) by {
                if ent.len() <= e2.len() {
                    assert(e2.take(5)[0] == e2[0]);
                }
            }
            assert(e2.skip(1) =~= escaped_url(rest));
            assert(unescaped_url(e) == seq![s[0]] + unescaped_url(escaped_url(rest)));
            assert(seq![s[0]] + rest =~= s);
        }
    }
}

/// Escapes each ampersand as `&amp;`.
pub fn string_escape_url(unescaped: String) -> (r: String)
    ensures
        r@ == escaped_url(unescaped@),
{
    let s = chars_of(unescaped.as_str());
    let pat = chars_of("&");
    let rep = chars_of("&amp;");
    let r = replace_vec(&s, &pat, &rep);
    string_of(&r)
}

/// Whether the text begins with `http://` or `https://`.
pub fn string_is_http_url(s: &str) -> (r: bool)
    ensures
        r == (crate::text::starts_with(s@, "http://"@) || crate::text::starts_with(s@, "https://"@)),
{
    let v = chars_of(s);
    let p1 = chars_of("http://");
    let p2 = chars_of("https://");
    proof {
        assert(v@.skip(0) =~= v@);
    }
    crate::text::matches_at(&v, 0, &p1) || crate::text::matches_at(&v, 0, &p2)
}

/// The shortest character prefix of `s` whose UTF-8 encoding is `length` bytes or longer;
/// `s` itself where its whole encoding is at most `length` bytes.
pub open spec fn truncated(s: Seq<char>, length: int, r: Seq<char>) -> bool {
    if vstd::utf8::encode_utf8(s).len() <= length {
        r == s
    } else {
        exists|k: int| 0 <= k <= s.len() && r == #[trigger] s.take(k)
            && vstd::utf8::encode_utf8(s.take(k)).len() >= length
            && (k == 0 || vstd::utf8::encode_utf8(s.take(k - 1)).len() < length)
    }
}

/// Cuts the text to `length` bytes, moved up to the next character boundary.
pub fn string_truncate(input: String, length: usize) -> (r: String)
    ensures
        truncated(input@, length as int, r@),
{
    let v = chars_of(input.as_str());
    let mut k: usize = 0;
    let mut count: usize = 0;
    proof {
        assert(v@.take(0) =~= Seq::<char>::empty());
    }
    while k < v.len() && count < length
        invariant
            k <= v.len(),
            v@ == input@,
            count == vstd::utf8::encode_utf8(v@.take(k as int)).len(),
            k > 0 ==> count < length,
        decreases v.len() - k,
    {
        let w = char_utf8_width(v[k]);
        proof {
            crate::text::lemma_encode_push(v@.take(k as int), v@[k as int]);
            assert(v@.take(k + 1) =~= v@.take(k as int).push(v@[k as int]));
            assert(v@.take(k + 1).take(k as int) =~= v@.take(k as int));
        }
        if w >= length - count {
            proof {
                crate::text::lemma_encode_prefix_len(v@, k + 1);
                if vstd::utf8::encode_utf8(v@).len() <= length {
                    assert(v@.take(k + 1) =~= v@);
                }
            }
            return string_of_prefix(&v, k + 1);
        }
        count = count + w;
        k = k + 1;
    }
    if count < length {
        proof {
            assert(v@.take(k as int) =~= v@);
        }
        return input;
    }
    proof {
        assert(k == 0);
        crate::text::lemma_encode_prefix_len(v@, 0);
        if vstd::utf8::encode_utf8(v@).len() <= length {
            assert(v@.take(0) =~= v@);
        }
    }
    string_of_prefix(&v, 0)
}

/// `v` with every occurrence of `pat` replaced by `rep`.
pub(crate) fn replace_lit(v: &Vec<char>, pat: &str, rep: &str) -> (r: Vec<char>)
    ensures
        r@ == crate::text::replace_all(v@, pat@, rep@),
{
    let p = chars_of(pat);
    let q = chars_of(rep);
    replace_vec(v, &p, &q)
}

/// Input text as `remove_invalid_chars_from_input` leaves it: quotes and line breaks
/// removed, some HTML character references replaced, white space trimmed at both ends.
pub open spec fn sanitized(s: Seq<char>) -> Seq<char> {
    crate::text::trim(crate::text::replace_all(crate::text::replace_all(crate::text::replace_all(crate::text::replace_all(crate::text::replace_all(crate::text::replace_all(crate::text::replace_all(crate::text::replace_all(crate::text::replace_all(crate::text::replace_all(crate::text::replace_all(crate::text::replace_all(crate::text::replace_all(crate::text::replace_all(crate::text::replace_all(crate::text::replace_all(crate::text::replace_all(crate::text::replace_all(crate::text::remove_chars(s, seq!['\"', '\n', '\'', '\"']), "&#38;"@, " & "@), "&#038;"@, " & "@), "&#128;"@, "€"@), "&#147;"@, "›"@), "&#148;"@, "-"@), "&#x166;"@, " ... "@), "&#xF6;"@, "ö"@), "&#153;"@, " - "@), "&#156;"@, " - "@), "&#157;"@, " Š "@), "&#226;"@, "â"@), "&#8211;"@, "\""@), "&#8220;"@, "\""@), "&#8221;"@, "\""@), "&#8216;"@, "\'"@), "&#8217;"@, "\'"@), "&#8230;"@, " ... "@), "&#x8211;"@, " - "@))
}

/// Removes quotes and line breaks, replaces a fixed list of HTML character references by
/// the text they stand for, and trims white space at both ends.
pub fn remove_invalid_chars_from_input(inp: String) -> (r: String)
    ensures
        r@ == sanitized(inp@),
{
    let v = chars_of(inp.as_str());
    let mut set: Vec<char> = Vec::new();
    set.push('\"');
    set.push('\n');
    set.push('\'');
    set.push('\"');
    proof {
        assert(set@ =~= seq!['\"', '\n', '\'', '\"']);
    }
    let v = remove_chars_vec(&v, &set);
    let v = replace_lit(&v, "&#38;", " & ");
    let v = replace_lit(&v, "&#038;", " & ");
    let v = replace_lit(&v, "&#128;", "€");
    let v = replace_lit(&v, "&#147;", "›");
    let v = replace_lit(&v, "&#148;", "-");
    let v = replace_lit(&v, "&#x166;", " ... ");
    let v = replace_lit(&v, "&#xF6;", "ö");
    let v = replace_lit(&v, "&#153;", " - ");
    let v = replace_lit(&v, "&#156;", " - ");
    let v = replace_lit(&v, "&#157;", " Š ");
    let v = replace_lit(&v, "&#226;", "â");
    let v = replace_lit(&v, "&#8211;", "\"");
    let v = replace_lit(&v, "&#8220;", "\"");
    let v = replace_lit(&v, "&#8221;", "\"");
    let v = replace_lit(&v, "&#8216;", "\'");
    let v = replace_lit(&v, "&#8217;", "\'");
    let v = replace_lit(&v, "&#8230;", " ... ");
    let v = replace_lit(&v, "&#x8211;", " - ");
    let v = trim_vec(&v);
    string_of(&v)
}

/// The current time as a UNIX timestamp.
///
/// Calls `chrono::Local::now().timestamp()`; the value depends on the clock, so the
/// contract claims nothing of it.
#[verifier::external_body]
pub fn timestamp_now() -> (r: i64) {
    chrono::Local::now().timestamp()
}

/// Whether a character is a decimal digit.
pub open spec fn is_digit(c: char) -> bool {
    '0' <= c && c <= '9'
}

/// The shape of a text that `%Y-%m-%d %H:%M:%S` gives: a year of four or more characters
/// (chrono pads it with zeros to four digits and puts a sign before years outside
/// 0..=9999), then `-MM-DD HH:MM:SS` with two digits each.
pub open spec fn date_time_shaped(t: Seq<char>) -> bool {
    let n = t.len() as int;
    &&& n >= 19
    &&& t[n - 15] == '-' && t[n - 12] == '-' && t[n - 9] == ' ' && t[n - 6] == ':' && t[n - 3] == ':'
    &&& is_digit(t[n - 14]) && is_digit(t[n - 13]) && is_digit(t[n - 11]) && is_digit(t[n - 10])
    &&& is_digit(t[n - 8]) && is_digit(t[n - 7]) && is_digit(t[n - 5]) && is_digit(t[n - 4])
    &&& is_digit(t[n - 2]) && is_digit(t[n - 1])
}

/// A UNIX timestamp as local date and time, `%Y-%m-%d %H:%M:%S`.
///
/// Calls chrono's `Local.timestamp(db_time, 0)` and formats it. Which date and time the
/// text shows depends on the machine's time zone, so the contract claims only the shape
/// of the text that the format gives. The bound on `db_time` is the range of
/// `DateTime::from_timestamp` (from -262143-01-01 to 262142-12-31 23:59:59 UTC), outside of
/// which the call panics, less a day at each end, so that the local offset keeps the
/// local date within chrono's range.
#[verifier::external_body]
pub fn db_time_to_display(db_time: i64) -> (r: String)
    requires
        -8_334_601_142_400 <= db_time <= 8_210_266_790_399,
    ensures
        date_time_shaped(r@),
{
    #[allow(deprecated)]
    let fetchd_loc = chrono::TimeZone::timestamp(&chrono::offset::Local, db_time, 0);
    fetchd_loc.format("%Y-%m-%d %H:%M:%S").to_string()
}

/// Like `db_time_to_display`, but the empty text for timestamp 0.
pub fn db_time_to_display_nonnull(db_time: i64) -> (r: String)
    requires
        -8_334_601_142_400 <= db_time <= 8_210_266_790_399,
    ensures
        db_time == 0 ==> r@ == Seq::<char>::empty(),
        db_time != 0 ==> date_time_shaped(r@),
{
    if db_time == 0 {
        return String::new();
    }
    db_time_to_display(db_time)
}

/// The byte that textcode's ISO 8859-1 table gives a 16-bit code above the ASCII range
/// and the C1 controls, 0 where it has none: the code itself for U+00A0 to U+00FF and
/// for codes whose low byte is in that range (except in the U+20xx page), and in the
/// U+20xx page the quotation marks U+2018/U+2019 as `'`, U+201C/U+201D as `"`, and
/// U+2026 as `.`.
pub open spec fn iso8859_1_table(c16: int) -> int {
    let hi = c16 / 256;
    let lo = c16 % 256;
    if hi == 0x20 {
        if lo == 0x18 || lo == 0x19 {
            0x27
        } else if lo == 0x1C || lo == 0x1D {
            0x22
        } else if lo == 0x26 {
            0x2E
        } else {
            0
        }
    } else if lo >= 0xA0 {
        lo
    } else {
        0
    }
}

/// The bytes that textcode's ISO 8859-1 encoder writes for one character: its code
/// point cut to 16 bits is kept where it is ASCII, dropped where it is a C1 control
/// (0x80 to 0x9F), and otherwise looked up in the table, `?` where the table has no
/// byte.
pub open spec fn iso8859_1_char(c: char) -> Seq<u8> {
    let c16 = (c as int) % 65536;
    if c16 <= 0x7F {
        seq![c16 as u8]
    } else if c16 < 0xA0 {
        Seq::empty()
    } else if iso8859_1_table(c16) != 0 {
        seq![iso8859_1_table(c16) as u8]
    } else {
        seq![0x3Fu8]
    }
}

/// The bytes that textcode's ISO 8859-1 encoder writes for `text`: those of each
/// character in turn.
pub open spec fn iso8859_1_encoded(text: Seq<char>) -> Seq<u8>
    decreases text.len(),
{
    if text.len() == 0 {
        Seq::empty()
    } else {
        iso8859_1_encoded(text.drop_last()) + iso8859_1_char(text.last())
    }
}

/// Encodes text as ISO 8859-1.
///
/// Calls `textcode::iso8859_1::encode`, which reads each character through its tables
/// (see `iso8859_1_encoded`).
#[verifier::external_body]
fn iso8859_1_encode(input: &str) -> (r: Vec<u8>)
    ensures
        r@ == iso8859_1_encoded(input@),
{
    let mut dst: Vec<u8> = Vec::new();
    textcode::iso8859_1::encode(input, &mut dst);
    dst
}

/// `n` is the length of the longest prefix of `bytes` that is valid UTF-8.
pub open spec fn valid_up_to(bytes: Seq<u8>, n: int) -> bool {
    &&& 0 <= n <= bytes.len()
    &&& vstd::utf8::valid_utf8(bytes.take(n))
    &&& forall|m: int| n < m <= bytes.len() ==> !vstd::utf8::valid_utf8(#[trigger] bytes.take(m))
}

/// Reads bytes as UTF-8.
///
/// Calls `std::str::from_utf8`, documented to succeed exactly on valid UTF-8 and, on
/// failure, to report through `valid_up_to` the longest prefix that would succeed.
#[verifier::external_body]
fn utf8_or_valid_prefix(bytes: &[u8]) -> (r: Result<String, usize>)
    ensures
        r is Ok <==> vstd::utf8::valid_utf8(bytes@),
        r matches Ok(s) ==> s@ == vstd::utf8::decode_utf8(bytes@),
        r matches Err(n) ==> valid_up_to(bytes@, n as int),
{
    match std::str::from_utf8(bytes) {
        Ok(s) => Ok(s.to_string()),
        Err(e) => Err(e.valid_up_to()),
    }
}

/// The longest character prefix of `s` whose UTF-8 encoding is at most `n` bytes.
pub open spec fn prefix_within(s: Seq<char>, n: int, r: Seq<char>) -> bool {
    exists|k: int| 0 <= k <= s.len() && r == #[trigger] s.take(k)
        && vstd::utf8::encode_utf8(s.take(k)).len() <= n
        && (k == s.len() || vstd::utf8::encode_utf8(s.take(k + 1)).len() > n)
}

/// What `filter_by_iso8859_1` returns: the ISO 8859-1 bytes read as UTF-8 where they are
/// valid, untruncated; else the input cut before the first byte that is not.
pub open spec fn iso_filtered(input: Seq<char>, r: (Seq<char>, bool)) -> bool {
    let e = iso8859_1_encoded(input);
    if vstd::utf8::valid_utf8(e) {
        r == (vstd::utf8::decode_utf8(e), false)
    } else {
        r.1 && exists|n: int| valid_up_to(e, n) && prefix_within(input, n, r.0)
    }
}

/// Encodes the text as ISO 8859-1 and reads the bytes as UTF-8. Where they are not valid
/// UTF-8, the text is cut where they stop being valid, and the flag is set.
pub fn filter_by_iso8859_1(input: &str) -> (r: (String, bool))
    ensures
        iso_filtered(input@, (r.0@, r.1)),
{
    let dst = iso8859_1_encode(input);
    match utf8_or_valid_prefix(dst.as_slice()) {
        Ok(s) => (s, false),
        Err(n) => {
            let v = chars_of(input);
            let mut k: usize = 0;
            let mut count: usize = 0;
            proof {
                assert(v@.take(0) =~= Seq::<char>::empty());
            }
            while k < v.len()
                invariant
                    k <= v.len(),
                    v@ == input@,
                    count == vstd::utf8::encode_utf8(v@.take(k as int)).len(),
                    count <= n,
                ensures
                    k <= v.len(),
                    count == vstd::utf8::encode_utf8(v@.take(k as int)).len(),
                    k == v.len() || vstd::utf8::encode_utf8(v@.take(k + 1)).len() > n,
                decreases v.len() - k,
            {
                let w = char_utf8_width(v[k]);
                proof {
                    crate::text::lemma_encode_push(v@.take(k as int), v@[k as int]);
                    assert(v@.take(k + 1) =~= v@.take(k as int).push(v@[k as int]));
                }
                if w > n - count {
                    break;
                }
                count = count + w;
                k = k + 1;
            }
            let r = string_of_prefix(&v, k);
            proof {
                if k == v.len() {
                    assert(v@.take(k as int) =~= v@);
                }
                assert(prefix_within(input@, n as int, r@));
            }
            (r, true)
        },
    }
}

/// One state of a small state machine over the data `I`: stepping it either hands on
/// to the next state or stops with the data.
pub trait Step<I>: Sized {
    /// Whether these states bound the steps left by `steps_left`, which every step that
    /// continues lowers. A state machine that does not cannot be shown to stop.
    open spec fn obeys_step_bound() -> bool {
        false
    }

    /// How many steps at most are left from this state.
    open spec fn steps_left(&self) -> nat {
        0
    }

    /// Whether `r` is an outcome that one step from this state may give.
    open spec fn may_step_to(&self, r: StepResult<I, Self>) -> bool {
        true
    }

    /// Moves on by one state.
    fn step(self) -> (r: StepResult<I, Self>)
        ensures
            self.may_step_to(r),
            Self::obeys_step_bound() ==> (r matches StepResult::Continue(next) ==> next.steps_left()
                < self.steps_left()),
    ;
}

/// Whether stepping from `r` may stop with the data `d` within `n` steps: `r` stops with
/// `d`, or it continues with a state that may step to an outcome that does so within
/// `n - 1` steps.
pub open spec fn stops_within<I, S: Step<I>>(r: StepResult<I, S>, d: I, n: nat) -> bool
    decreases n,
{
    match r {
        StepResult::Stop(x) => x == d,
        StepResult::Continue(s) => n > 0 && exists|r2: StepResult<I, S>| #[trigger] s.may_step_to(r2)
            && stops_within(r2, d, (n - 1) as nat),
    }
}

/// What one step gives: the next state, or the final data.
pub enum StepResult<I, S> {
    Continue(S),
    Stop(I),
}

impl<I, S: Step<I>> StepResult<I, S> {
    /// Steps until a state stops, and returns its data.
    fn run(self) -> (r: I)
        requires
            S::obeys_step_bound(),
        ensures
            exists|n: nat| stops_within(self, r, n),
    {
        let ghost start = self;
        let ghost mut k: nat = 0;
        let mut current = self;
        loop
            invariant
                S::obeys_step_bound(),
                start == self,
                forall|d: I, n: nat| #[trigger] stops_within(current, d, n) ==> stops_within(start, d, n + k),
            decreases
                match current {
                    StepResult::Continue(s) => s.steps_left() + 1,
                    StepResult::Stop(_) => 0nat,
                },
        {
            match current {
                StepResult::Continue(stm) => {
                    let ghost prev = current;
                    let ghost s0 = stm;
                    current = stm.step();
                    proof {
                        assert forall|d: I, n: nat| #[trigger] stops_within(current, d, n) implies stops_within(
                            start, d, n + (k + 1)) by {
                            assert(s0.may_step_to(current) && stops_within(current, d, n));
                            assert(stops_within(prev, d, n + 1));
                            assert(n + 1 + k == n + (k + 1));
                        }
                        k = k + 1;
                    }
                },
                StepResult::Stop(data) => {
                    proof {
                        assert(stops_within(current, data, 0));
                        assert(stops_within(start, data, 0 + k));
                        assert(stops_within(self, data, k));
                    }
                    return data;
                },
            }
        }
    }

    /// Runs the state machine from `first` to the state that stops.
    pub fn start(first: S) -> (r: I)
        requires
            S::obeys_step_bound(),
        ensures
            exists|n: nat| stops_within(StepResult::<I, S>::Continue(first), r, n),
    {
        StepResult::<I, S>::Continue(first).run()
    }
}

} // verus!
