use vstd::prelude::*;

verus! {

/// A wall-clock time of day with one-second resolution, the only part of a
/// server timestamp the protocol carries. Valid values satisfy [`TimeOfDay::wf`].
#[derive(Debug, Clone, Copy, PartialEq, Eq, Structural)]
pub struct TimeOfDay {
    pub hour: u8,
    pub minute: u8,
    pub second: u8,
}

impl TimeOfDay {
    /// A time of day is well formed when each field lies in its calendar range.
    pub open spec fn wf(self) -> bool {
        self.hour < 24 && self.minute < 60 && self.second < 60
    }

    pub fn new(hour: u8, minute: u8, second: u8) -> (t: TimeOfDay)
        requires
            hour < 24,
            minute < 60,
            second < 60,
        ensures
            t == (TimeOfDay { hour, minute, second }),
            t.wf(),
    {
        TimeOfDay { hour, minute, second }
    }
}

/// Relies on chrono's `Utc::now` and the `Timelike` accessors of `NaiveTime`:
/// `hour` returns 0 to 23, `minute` and `second` 0 to 59 (never 60, even
/// during a leap second). Nothing more can be said of the clock's reading.
#[verifier::external_body]
pub(crate) fn wall_clock_time() -> (t: TimeOfDay)
    ensures
        t.wf(),
{
    let now = chrono::Utc::now().time();
    TimeOfDay {
        hour: chrono::Timelike::hour(&now) as u8,
        minute: chrono::Timelike::minute(&now) as u8,
        second: chrono::Timelike::second(&now) as u8,
    }
}

/// The characters `'0'` through `'9'`.
pub open spec fn is_digit(c: char) -> bool {
    '0' <= c && c <= '9'
}

/// The numeric value of a decimal digit character.
pub open spec fn digit_val(c: char) -> int {
    c as int - '0' as int
}

/// The time of day denoted by an `HH:MM:SS` text, meaningful only when
/// [`is_time_text`] holds of the text.
pub open spec fn time_of_text(s: Seq<char>) -> TimeOfDay {
    TimeOfDay {
        hour: (digit_val(s[0]) * 10 + digit_val(s[1])) as u8,
        minute: (digit_val(s[3]) * 10 + digit_val(s[4])) as u8,
        second: (digit_val(s[6]) * 10 + digit_val(s[7])) as u8,
    }
}

/// Whether a text is a server timestamp: exactly `HH:MM:SS` with two decimal
/// digits per field, colons between, and each field within its calendar range.
pub open spec fn is_time_text(s: Seq<char>) -> bool {
    &&& s.len() == 8
    &&& is_digit(s[0]) && is_digit(s[1])
    &&& s[2] == ':'
    &&& is_digit(s[3]) && is_digit(s[4])
    &&& s[5] == ':'
    &&& is_digit(s[6]) && is_digit(s[7])
    &&& time_of_text(s).wf()
}

/// Reads the two-digit decimal field at position `at` of `s`.
fn two_digit_field(s: &str, at: usize) -> (r: Option<u8>)
    requires
        at + 2 <= s@.len() <= usize::MAX,
    ensures
        r is Some <==> is_digit(s@[at as int]) && is_digit(s@[at + 1]),
        r is Some ==> r->0 == digit_val(s@[at as int]) * 10 + digit_val(s@[at + 1]),
{
    let c0 = s.get_char(at);
    let c1 = s.get_char(at + 1);
    if '0' <= c0 && c0 <= '9' && '0' <= c1 && c1 <= '9' {
        let d0 = (c0 as u32 - '0' as u32) as u8;
        let d1 = (c1 as u32 - '0' as u32) as u8;
        Some(d0 * 10 + d1)
    } else {
        None
    }
}

/// Parses an `HH:MM:SS` timestamp text; succeeds exactly on well-formed
/// timestamps and returns the time they denote.
pub fn parse_time_text(s: &str) -> (r: Option<TimeOfDay>)
    ensures
        r is Some <==> is_time_text(s@),
        r is Some ==> r->0 == time_of_text(s@) && r->0.wf(),
{
    if s.unicode_len() != 8 {
        return None;
    }
    if !(s.get_char(2) == ':' && s.get_char(5) == ':') {
        return None;
    }
    let hour = match two_digit_field(s, 0) {
        Some(h) => h,
        None => return None,
    };
    let minute = match two_digit_field(s, 3) {
        Some(m) => m,
        None => return None,
    };
    let second = match two_digit_field(s, 6) {
        Some(c) => c,
        None => return None,
    };
    if hour < 24 && minute < 60 && second < 60 {
        Some(TimeOfDay { hour, minute, second })
    } else {
        None
    }
}

/// A one-character text for a decimal digit value.
fn digit_str(d: u8) -> (r: &'static str)
    requires
        d < 10,
    ensures
        r@.len() == 1,
        is_digit(r@[0]),
        digit_val(r@[0]) == d,
{
    let r: &'static str = match d {
        0 => "0",
        1 => "1",
        2 => "2",
        3 => "3",
        4 => "4",
        5 => "5",
        6 => "6",
        7 => "7",
        8 => "8",
        _ => "9",
    };
    proof {
        reveal_strlit("0");
        reveal_strlit("1");
        reveal_strlit("2");
        reveal_strlit("3");
        reveal_strlit("4");
        reveal_strlit("5");
        reveal_strlit("6");
        reveal_strlit("7");
        reveal_strlit("8");
        reveal_strlit("9");
    }
    r
}

/// Appends the two-digit decimal rendering of `v` to `out`.
fn push_two_digits(out: &mut String, v: u8)
    requires
        v < 100,
    ensures
        final(out)@ == old(out)@ + seq![
            (('0' as int + v / 10) as char),
            (('0' as int + v % 10) as char),
        ],
{
    let hi = v / 10;
    let lo = v % 10;
    out.append(digit_str(hi));
    out.append(digit_str(lo));
    proof {
        assert(out@ =~= old(out)@ + seq![
            (('0' as int + v / 10) as char),
            (('0' as int + v % 10) as char),
        ]);
    }
}

/// The `HH:MM:SS` rendering of a time of day.
pub open spec fn time_text_of(t: TimeOfDay) -> Seq<char> {
    seq![
        (('0' as int + t.hour / 10) as char),
        (('0' as int + t.hour % 10) as char),
        ':',
        (('0' as int + t.minute / 10) as char),
        (('0' as int + t.minute % 10) as char),
        ':',
        (('0' as int + t.second / 10) as char),
        (('0' as int + t.second % 10) as char),
    ]
}

/// Renders a time of day as `HH:MM:SS`, zero-padded.
pub fn format_time(t: &TimeOfDay) -> (r: String)
    requires
        t.wf(),
    ensures
        r@ == time_text_of(*t),
        is_time_text(r@),
        time_of_text(r@) == *t,
{
    let mut out = String::new();
    push_two_digits(&mut out, t.hour);
    out.append(":");
    push_two_digits(&mut out, t.minute);
    out.append(":");
    push_two_digits(&mut out, t.second);
    proof {
        reveal_strlit(":");
        assert(out@ =~= time_text_of(*t));
        assert(is_time_text(out@));
        assert(time_of_text(out@) == *t);
    }
    out
}

} // verus!
