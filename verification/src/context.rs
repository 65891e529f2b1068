use vstd::prelude::*;

verus! {

broadcast use vstd::string::group_string_axioms;

/// The periodic events a timer hands out, and the two lifecycle events.
#[derive(Clone, Copy, Debug, PartialEq, Eq, Structural)]
pub enum TimerEvent {
    Timer100s,
    Timer10s,
    Timer1s,
    Timer200ms,
    Timer100ms,
    Timer50ms,
    Timer20ms,
    Timer10ms,
    Shutdown,
    Startup,
    Idle,
}

/// Number of rows in the timer table.
pub const TIMER_EVENT_COUNT: usize = 11;

/// The timer table: row `i` names an event and its delay in milliseconds.
pub open spec fn timer_table(i: int) -> (TimerEvent, u64) {
    if i == 0 { (TimerEvent::Timer100s, 100000) }
    else if i == 1 { (TimerEvent::Timer10s, 10000) }
    else if i == 2 { (TimerEvent::Timer1s, 1000) }
    else if i == 3 { (TimerEvent::Timer200ms, 200) }
    else if i == 4 { (TimerEvent::Timer100ms, 100) }
    else if i == 5 { (TimerEvent::Timer20ms, 20) }
    else if i == 6 { (TimerEvent::Timer50ms, 50) }
    else if i == 7 { (TimerEvent::Timer10ms, 10) }
    else if i == 8 { (TimerEvent::Shutdown, 0) }
    else if i == 9 { (TimerEvent::Startup, 0) }
    else { (TimerEvent::Idle, 0) }
}

impl TimerEvent {
    /// The event in row `i` of the timer table.
    pub fn from_int(i: usize) -> (r: TimerEvent)
        requires
            i < TIMER_EVENT_COUNT,
        ensures
            r == timer_table(i as int).0,
    {
        match i {
            0 => TimerEvent::Timer100s,
            1 => TimerEvent::Timer10s,
            2 => TimerEvent::Timer1s,
            3 => TimerEvent::Timer200ms,
            4 => TimerEvent::Timer100ms,
            5 => TimerEvent::Timer20ms,
            6 => TimerEvent::Timer50ms,
            7 => TimerEvent::Timer10ms,
            8 => TimerEvent::Shutdown,
            9 => TimerEvent::Startup,
            _ => TimerEvent::Idle,
        }
    }

    /// The delay in milliseconds of row `i` of the timer table.
    pub fn delay(i: usize) -> (r: u64)
        requires
            i < TIMER_EVENT_COUNT,
        ensures
            r == timer_table(i as int).1,
    {
        match i {
            0 => 100000,
            1 => 10000,
            2 => 1000,
            3 => 200,
            4 => 100,
            5 => 20,
            6 => 50,
            7 => 10,
            _ => 0,
        }
    }

    /// The number of rows of the timer table.
    pub fn len() -> (r: usize)
        ensures
            r == TIMER_EVENT_COUNT,
    {
        TIMER_EVENT_COUNT
    }
}

impl TimerEvent {
    /// The row of the timer table that names this event.
    pub fn index(&self) -> (r: usize)
        ensures
            r < TIMER_EVENT_COUNT,
            timer_table(r as int).0 == *self,
    {
        match self {
            TimerEvent::Timer100s => 0,
            TimerEvent::Timer10s => 1,
            TimerEvent::Timer1s => 2,
            TimerEvent::Timer200ms => 3,
            TimerEvent::Timer100ms => 4,
            TimerEvent::Timer20ms => 5,
            TimerEvent::Timer50ms => 6,
            TimerEvent::Timer10ms => 7,
            TimerEvent::Shutdown => 8,
            TimerEvent::Startup => 9,
            TimerEvent::Idle => 10,
        }
    }
}

/// The periodic events of the first `k` rows that are due at `elapsed_ms`: those with a
/// delay whose next trigger time has passed, in table order.
pub open spec fn due_events(next: Seq<u128>, elapsed_ms: u128, k: int) -> Seq<TimerEvent>
    decreases k,
{
    if k <= 0 {
        Seq::empty()
    } else {
        let rest = due_events(next, elapsed_ms, k - 1);
        if timer_table(k - 1).1 != 0 && elapsed_ms > next[k - 1] {
            rest.push(timer_table(k - 1).0)
        } else {
            rest
        }
    }
}

/// One tick of the timer at `elapsed_ms` since the start: gives the periodic events that
/// are due (see `due_events`) and moves the next trigger time of each of them to one delay
/// after now. The others keep theirs.
pub fn due_timer_events(next_trigger_ms: &mut Vec<u128>, elapsed_ms: u128) -> (r: Vec<TimerEvent>)
    requires
        old(next_trigger_ms)@.len() == TIMER_EVENT_COUNT,
        elapsed_ms <= u128::MAX - 100000,
    ensures
        final(next_trigger_ms)@.len() == TIMER_EVENT_COUNT,
        forall|i: int| 0 <= i < TIMER_EVENT_COUNT ==> #[trigger] final(next_trigger_ms)@[i] == if timer_table(i).1 != 0
            && elapsed_ms > old(next_trigger_ms)@[i] {
            (elapsed_ms + timer_table(i).1) as u128
        } else {
            old(next_trigger_ms)@[i]
        },
        r@ == due_events(old(next_trigger_ms)@, elapsed_ms, TIMER_EVENT_COUNT as int),
{
    let ghost old_next = next_trigger_ms@;
    let mut due: Vec<TimerEvent> = Vec::new();
    let mut i: usize = 0;
    while i < TIMER_EVENT_COUNT
        invariant
            i <= TIMER_EVENT_COUNT,
            next_trigger_ms@.len() == TIMER_EVENT_COUNT,
            old_next.len() == TIMER_EVENT_COUNT,
            elapsed_ms <= u128::MAX - 100000,
            forall|j: int| 0 <= j < i ==> #[trigger] next_trigger_ms@[j] == if timer_table(j).1 != 0
                && elapsed_ms > old_next[j] {
                (elapsed_ms + timer_table(j).1) as u128
            } else {
                old_next[j]
            },
            forall|j: int| i <= j < TIMER_EVENT_COUNT ==> #[trigger] next_trigger_ms@[j] == old_next[j],
            due@ == due_events(old_next, elapsed_ms, i as int),
        decreases TIMER_EVENT_COUNT - i,
    {
        let d = TimerEvent::delay(i);
        if d != 0 && elapsed_ms > next_trigger_ms[i] {
            next_trigger_ms.set(i, elapsed_ms + d as u128);
            due.push(TimerEvent::from_int(i));
        }
        i = i + 1;
    }
    due
}

/// A setting read as a number: an optional sign followed by decimal digits.
pub open spec fn digits_value(d: Seq<char>) -> int
    decreases d.len(),
{
    if d.len() == 0 {
        0
    } else {
        digits_value(d.drop_last()) * 10 + (d.last() as int - '0' as int)
    }
}

/// All characters are decimal digits.
pub open spec fn all_digits(d: Seq<char>) -> bool {
    forall|i: int| 0 <= i < d.len() ==> '0' <= #[trigger] d[i] && d[i] <= '9'
}

/// The integer that `str::parse::<isize>` reads: an optional `+` or `-` followed by at
/// least one decimal digit, within the range of `isize`.
pub open spec fn parsed_isize(s: Seq<char>) -> Option<isize> {
    let signed = s.len() > 0 && (s[0] == '-' || s[0] == '+');
    let digits = if signed { s.skip(1) } else { s };
    let v = if signed && s[0] == '-' { -digits_value(digits) } else { digits_value(digits) };
    if digits.len() > 0 && all_digits(digits) && isize::MIN <= v <= isize::MAX {
        Some(v as isize)
    } else {
        None
    }
}

/// The value of decimal digits is not negative.
proof fn lemma_digits_nonneg(d: Seq<char>)
    requires
        all_digits(d),
    ensures
        digits_value(d) >= 0,
    decreases d.len(),
{
    if d.len() > 0 {
        assert(all_digits(d.drop_last())) by {
            assert forall|i: int| 0 <= i < d.drop_last().len() implies '0' <= #[trigger] d.drop_last()[i] && d.drop_last()[i] <= '9' by {
                assert(d.drop_last()[i] == d[i]);
            }
        }
        lemma_digits_nonneg(d.drop_last());
    }
}

/// More digits never give a smaller value.
proof fn lemma_digits_grow(d: Seq<char>, k: int)
    requires
        all_digits(d),
        0 <= k <= d.len(),
    ensures
        digits_value(d.take(k)) <= digits_value(d),
    decreases d.len(),
{
    if k < d.len() {
        let e = d.drop_last();
        assert(all_digits(e)) by {
            assert forall|i: int| 0 <= i < e.len() implies '0' <= #[trigger] e[i] && e[i] <= '9' by {
                assert(e[i] == d[i]);
            }
        }
        assert(e.take(k) =~= d.take(k));
        lemma_digits_grow(e, k);
        lemma_digits_nonneg(e);
    } else {
        assert(d.take(k) =~= d);
    }
}

/// Where the digits read so far are already out of range, nothing is read.
proof fn lemma_digits_overflow(c: Seq<char>, start: int, j: int, neg: bool)
    requires
        start == 0 || start == 1,
        start < j <= c.len(),
        (start == 1) == (c.len() > 0 && (c[0] == '-' || c[0] == '+')),
        neg == (start == 1 && c[0] == '-'),
        all_digits(c.subrange(start, j)),
        neg ==> -digits_value(c.subrange(start, j)) < isize::MIN,
        !neg ==> digits_value(c.subrange(start, j)) > isize::MAX,
    ensures
        parsed_isize(c) is None,
{
    let digits = c.skip(start);
    if start == 0 {
        assert(digits =~= c);
    }
    if all_digits(digits) {
        assert(digits.take(j - start) =~= c.subrange(start, j));
        lemma_digits_grow(digits, j - start);
    }
}

/// Reads a setting as an `isize` (see `parsed_isize`).
pub fn parse_isize(s: &str) -> (r: Option<isize>)
    ensures
        r == parsed_isize(s@),
{
    let c = crate::text::chars_of(s);
    let mut start: usize = 0;
    let mut neg = false;
    if c.len() > 0 && (c[0] == '-' || c[0] == '+') {
        neg = c[0] == '-';
        start = 1;
    }
    let ghost digits = c@.skip(start as int);
    if start >= c.len() {
        return None;
    }
    // the value so far, kept negative for a leading minus so that isize::MIN fits
    let mut v: isize = 0;
    let mut i: usize = start;
    while i < c.len()
        invariant
            start <= i <= c@.len(),
            c@ == s@,
            digits == c@.skip(start as int),
            start == 0 || start == 1,
            (start == 1) == (c@.len() > 0 && (c@[0] == '-' || c@[0] == '+')),
            neg == (start == 1 && c@[0] == '-'),
            all_digits(c@.subrange(start as int, i as int)),
            v == if neg { -digits_value(c@.subrange(start as int, i as int)) } else { digits_value(c@.subrange(start as int, i as int)) },
        decreases c.len() - i,
    {
        let ch = c[i];
        proof {
            assert(c@.subrange(start as int, i + 1).drop_last() =~= c@.subrange(start as int, i as int));
            assert(c@.subrange(start as int, i + 1).last() == ch);
        }
        if ch < '0' || ch > '9' {
            proof {
                assert(digits[i - start] == ch);
            }
            return None;
        }
        let d: isize = (ch as u32 - '0' as u32) as isize;
        proof {
            lemma_digits_nonneg(c@.subrange(start as int, i as int));
            assert(d as int == ch as int - '0' as int);
            assert(digits_value(c@.subrange(start as int, i + 1))
                == digits_value(c@.subrange(start as int, i as int)) * 10 + (ch as int - '0' as int));
        }
        let next: Option<isize> = match v.checked_mul(10) {
            Some(x) => if neg { x.checked_sub(d) } else { x.checked_add(d) },
            None => None,
        };
        match next {
            Some(n) => {
                v = n;
            },
            None => {
                proof {
                    lemma_digits_overflow(c@, start as int, i as int + 1, neg);
                }
                return None;
            },
        }
        proof {
            assert forall|k: int| 0 <= k < c@.subrange(start as int, i + 1).len() implies '0' <= #[trigger] c@.subrange(start as int, i + 1)[k]
                && c@.subrange(start as int, i + 1)[k] <= '9' by {
                if k < i - start {
                    assert(c@.subrange(start as int, i + 1)[k] == c@.subrange(start as int, i as int)[k]);
                }
            }
        }
        i = i + 1;
    }
    proof {
        assert(c@.subrange(start as int, i as int) =~= digits);
        if start == 0 {
            assert(digits =~= c@);
        }
    }
    Some(v)
}

impl Default for TimerEvent {
    /// No event.
    fn default() -> (r: TimerEvent)
        ensures
            r == TimerEvent::Idle,
    {
        TimerEvent::Idle
    }
}

/// Tells a long-running task whether to go on.
pub trait KeepRunningNotify {
    fn keep_running(&self) -> bool;
}

/// Commands to the timer thread.
pub enum TimerJob {
    Shutdown,
}

/// The value a list of settings gives a name: that of the last entry with the name.
pub open spec fn setting_of(entries: Seq<(String, String)>, key: Seq<char>) -> Option<Seq<char>>
    decreases entries.len(),
{
    if entries.len() == 0 {
        None
    } else if entries.last().0@ == key {
        Some(entries.last().1@)
    } else {
        setting_of(entries.drop_last(), key)
    }
}

/// Settings by name, as text; a setting stored again replaces the earlier value.
pub struct BuildConfigContainer {
    entries: Vec<(String, String)>,
}

impl BuildConfigContainer {
    /// The settings: name to value.
    pub closed spec fn view(&self) -> Map<Seq<char>, Seq<char>> {
        Map::new(|k: Seq<char>| setting_of(self.entries@, k) is Some, |k: Seq<char>| setting_of(self.entries@, k).unwrap())
    }

    /// No settings.
    pub fn new() -> (r: BuildConfigContainer)
        ensures
            r.view() == Map::<Seq<char>, Seq<char>>::empty(),
    {
        let r = BuildConfigContainer { entries: Vec::new() };
        proof {
            assert(r.view() =~= Map::<Seq<char>, Seq<char>>::empty());
        }
        r
    }

    /// Stores a setting.
    pub fn insert(&mut self, key: String, value: String)
        ensures
            final(self).view() == old(self).view().insert(key@, value@),
    {
        self.entries.push((key, value));
        proof {
            assert(self.entries@.drop_last() =~= old(self).entries@);
            assert(self.view() =~= old(self).view().insert(key@, value@));
        }
    }
}

/// Reading settings by name.
pub trait BuildConfig {
    fn get(&self, key: &str) -> Option<String>;
    fn get_int(&self, key: &str) -> Option<isize>;
    fn get_bool(&self, key: &str) -> bool;
}

impl BuildConfig for BuildConfigContainer {
    /// The value of a setting, where there is one.
    fn get(&self, key: &str) -> (r: Option<String>)
        ensures
            match r {
                Some(v) => self.view().contains_key(key@) && v@ == self.view()[key@],
                None => !self.view().contains_key(key@),
            },
    {
        let k = crate::text::string_of(&crate::text::chars_of(key));
        let mut i: usize = self.entries.len();
        proof {
            assert(self.entries@.take(i as int) =~= self.entries@);
        }
        while i > 0
            invariant
                i <= self.entries@.len(),
                k@ == key@,
                setting_of(self.entries@, key@) == setting_of(self.entries@.take(i as int), key@),
            decreases i,
        {
            proof {
                assert(self.entries@.take(i as int).drop_last() =~= self.entries@.take(i - 1));
                assert(self.entries@.take(i as int).last() == self.entries@[i - 1]);
            }
            if self.entries[i - 1].0 == k {
                return Some(self.entries[i - 1].1.clone());
            }
            i = i - 1;
        }
        None
    }

    /// A setting read as an integer (see `parsed_isize`); `None` where it is missing or
    /// not a number.
    fn get_int(&self, key: &str) -> (r: Option<isize>)
        ensures
            r == if self.view().contains_key(key@) { parsed_isize(self.view()[key@]) } else { None },
    {
        match self.get(key) {
            Some(v) => parse_isize(v.as_str()),
            None => None,
        }
    }

    /// A setting read as a flag: true only where it is `true`.
    fn get_bool(&self, key: &str) -> (r: bool)
        ensures
            r == (self.view().contains_key(key@) && self.view()[key@] == "true"@),
    {
        match self.get(key) {
            Some(v) => {
                let t = crate::text::chars_of("true");
                let c = crate::text::chars_of(v.as_str());
                proof {
                    reveal_strlit("true");
                }
                if c.len() != t.len() {
                    proof {
                        assert(c@.len() != t@.len());
                        assert(v@ != "true"@);
                    }
                    return false;
                }
                let mut i: usize = 0;
                while i < c.len()
                    invariant
                        c.len() == t.len(),
                        c@ == v@,
                        t@ == "true"@,
                        self.view().contains_key(key@) && v@ == self.view()[key@],
                        i <= c.len(),
                        forall|j: int| 0 <= j < i ==> c@[j] == t@[j],
                    decreases c.len() - i,
                {
                    if c[i] != t[i] {
                        proof {
                            assert(c@[i as int] != t@[i as int]);
                            assert(c@ != t@);
                        }
                        return false;
                    }
                    i = i + 1;
                }
                proof {
                    assert(c@ =~= t@);
                }
                true
            },
            None => false,
        }
    }
}

impl Default for BuildConfigContainer {
    /// No settings.
    fn default() -> (r: BuildConfigContainer)
        ensures
            r.view() == Map::<Seq<char>, Seq<char>>::empty(),
    {
        BuildConfigContainer::new()
    }
}

} // verus!
