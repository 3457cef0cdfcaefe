use vstd::prelude::*;

use crate::time::{
    format_time, is_time_text, parse_time_text, time_of_text, time_text_of, TimeOfDay,
};

verus! {

/// The mathematical content of a message: a time of day, a category text and
/// a content text, together with the raw line the message was read from.
pub ghost struct MessageView {
    pub timestamp: TimeOfDay,
    pub category: Seq<char>,
    pub content: Seq<char>,
    pub raw: Seq<char>,
}

/// True when `"]: "`, the mark that closes a bracketed category, stands at
/// position `i` of `s`.
pub open spec fn close_mark_at(s: Seq<char>, i: int) -> bool {
    &&& i + 3 <= s.len()
    &&& s[i] == ']'
    &&& s[i + 1] == ':'
    &&& s[i + 2] == ' '
}

/// The first position at or after `from` where the closing mark `"]: "`
/// occurs in `s`, or `s.len()` if it occurs nowhere at or after `from`.
pub open spec fn find_close_mark(s: Seq<char>, from: int) -> int
    decreases s.len() - from,
{
    if from < 0 || from + 3 > s.len() {
        s.len() as int
    } else if close_mark_at(s, from) {
        from
    } else {
        find_close_mark(s, from + 1)
    }
}

/// The full form of the grammar: `[HH:MM:SS][category]: content` with a
/// well-formed two-digit timestamp, a non-empty category running to the
/// first closing mark, and non-empty content. Returns the three parts, or
/// `None` when the line is not of this form.
pub open spec fn full_form(s: Seq<char>) -> Option<(TimeOfDay, Seq<char>, Seq<char>)> {
    if s.len() >= 11 && s[0] == '[' && is_time_text(s.subrange(1, 9)) && s[9] == ']' && s[10]
        == '[' {
        let e = find_close_mark(s, 11);
        if 12 <= e && e + 3 < s.len() {
            Some(
                (
                    time_of_text(s.subrange(1, 9)),
                    s.subrange(11, e),
                    s.subrange(e + 3, s.len() as int),
                ),
            )
        } else {
            None
        }
    } else {
        None
    }
}

/// The category-only form of the grammar: `[category]: content` with a
/// non-empty category running to the first closing mark and non-empty
/// content. Returns the two parts, or `None` when the line is not of this
/// form.
pub open spec fn category_form(s: Seq<char>) -> Option<(Seq<char>, Seq<char>)> {
    if s.len() >= 1 && s[0] == '[' {
        let e = find_close_mark(s, 1);
        if 2 <= e && e + 3 < s.len() {
            Some((s.subrange(1, e), s.subrange(e + 3, s.len() as int)))
        } else {
            None
        }
    } else {
        None
    }
}

/// The whole layered grammar, tried in order: the full form with its own
/// timestamp; the category-only form stamped with the receipt time `now`;
/// and the fallback, the entire line as content under the sentinel category,
/// also stamped `now`. Only the empty line yields no message.
pub open spec fn parse_ladder(
    s: Seq<char>,
    now: TimeOfDay,
    sentinel: Seq<char>,
) -> Option<MessageView> {
    if s.len() == 0 {
        None
    } else if full_form(s) is Some {
        let (t, cat, cnt) = full_form(s)->0;
        Some(MessageView { timestamp: t, category: cat, content: cnt, raw: s })
    } else if category_form(s) is Some {
        let (cat, cnt) = category_form(s)->0;
        Some(MessageView { timestamp: now, category: cat, content: cnt, raw: s })
    } else {
        Some(MessageView { timestamp: now, category: sentinel, content: s, raw: s })
    }
}

/// The canonical rendering of a message: `[HH:MM:SS][category]: content`.
pub open spec fn rendered(m: MessageView) -> Seq<char> {
    seq!['['] + time_text_of(m.timestamp) + seq![']', '['] + m.category + seq![']', ':', ' ']
        + m.content
}

/// Searching from `from`, the first closing mark is found exactly where one
/// stands with none before it.
proof fn lemma_find_close_mark_exact(s: Seq<char>, from: int, k: int)
    requires
        0 <= from <= k,
        close_mark_at(s, k),
        forall|i: int| from <= i < k ==> !close_mark_at(s, i),
    ensures
        find_close_mark(s, from) == k,
    decreases k - from,
{
    if from < k {
        lemma_find_close_mark_exact(s, from + 1, k);
    }
}

/// The grammar is coherent: rendering a message and parsing the rendering
/// gives the message back, whenever the category is a non-empty text with
/// no closing mark of its own and the content is non-empty. (A category
/// holding `"]: "` would end early when parsed; that is the one ambiguity
/// the wire format itself has.)
pub proof fn lemma_rendering_parses_back(m: MessageView)
    requires
        m.timestamp.wf(),
        m.category.len() > 0,
        m.content.len() > 0,
        forall|i: int| !close_mark_at(m.category, i),
    ensures
        full_form(rendered(m)) == Some((m.timestamp, m.category, m.content)),
{
    let s = rendered(m);
    let ts = time_text_of(m.timestamp);
    let e = 11 + m.category.len() as int;
    assert(s.len() == 14 + m.category.len() + m.content.len());
    assert(s.subrange(1, 9) =~= ts);
    assert(is_time_text(ts)) by {
        assert(time_of_text(ts).hour == m.timestamp.hour);
        assert(time_of_text(ts).minute == m.timestamp.minute);
        assert(time_of_text(ts).second == m.timestamp.second);
    }
    assert(s[0] == '[');
    assert(s[9] == ']');
    assert(s[10] == '[');
    assert(forall|j: int| 0 <= j < m.category.len() ==> s[11 + j] == m.category[j]);
    assert(s[e] == ']' && s[e + 1] == ':' && s[e + 2] == ' ');
    assert(close_mark_at(s, e));
    assert forall|i: int| 11 <= i < e implies !close_mark_at(s, i) by {
        if close_mark_at(s, i) {
            if i <= e - 3 {
                assert(s[i] == m.category[i - 11]);
                assert(s[i + 1] == m.category[i - 10]);
                assert(s[i + 2] == m.category[i - 9]);
                assert(close_mark_at(m.category, i - 11));
            } else if i == e - 2 {
                assert(s[i + 2] == ']');
            } else {
                assert(s[i + 1] == ']');
            }
        }
    }
    lemma_find_close_mark_exact(s, 11, e);
    assert(time_of_text(s.subrange(1, 9)) == m.timestamp);
    assert(s.subrange(11, e) =~= m.category);
    assert(s.subrange(e + 3, s.len() as int) =~= m.content);
}

/// One structured line of server output: a timestamp, a category, a content
/// text, and the raw line it was parsed from. Immutable in spirit: the
/// engine only ever constructs one and hands it to the caller.
#[derive(Debug, Clone, PartialEq, Eq)]
pub struct EconMessage {
    timestamp: TimeOfDay,
    category: String,
    content: String,
    raw: String,
}

impl View for EconMessage {
    type V = MessageView;

    closed spec fn view(&self) -> MessageView {
        MessageView {
            timestamp: self.timestamp,
            category: self.category@,
            content: self.content@,
            raw: self.raw@,
        }
    }
}

/// Finds the first closing mark `"]: "` at or after `from`; `n` is the
/// character length of `s`.
fn find_close_mark_str(s: &str, from: usize, n: usize) -> (r: usize)
    requires
        n == s@.len(),
        from <= n,
    ensures
        r == find_close_mark(s@, from as int),
        from <= r <= n,
{
    let mut i = from;
    if n < 3 {
        return n;
    }
    let stop = n - 3;
    while i <= stop
        invariant
            from <= i <= n,
            n == s@.len(),
            3 <= n,
            stop == n - 3,
            find_close_mark(s@, from as int) == find_close_mark(s@, i as int),
        decreases n - i,
    {
        if s.get_char(i) == ']' && s.get_char(i + 1) == ':' && s.get_char(i + 2) == ' ' {
            return i;
        }
        i += 1;
    }
    n
}

impl EconMessage {
    /// Every message the engine builds carries a well-formed time of day.
    pub open spec fn wf(self) -> bool {
        self@.timestamp.wf()
    }

    /// Builds a message by hand; the raw line is taken to be the canonical
    /// rendering of the parts.
    pub fn new(timestamp: TimeOfDay, category: &str, content: &str) -> (r: EconMessage)
        requires
            timestamp.wf(),
        ensures
            r@.timestamp == timestamp,
            r@.category == category@,
            r@.content == content@,
            r@.raw == rendered(r@),
            r.wf(),
    {
        let mut raw = String::new();
        raw.append("[");
        raw.append(format_time(&timestamp).as_str());
        raw.append("][");
        raw.append(category);
        raw.append("]: ");
        raw.append(content);
        let r = EconMessage {
            timestamp,
            category: category.to_owned(),
            content: content.to_owned(),
            raw,
        };
        proof {
            reveal_strlit("[");
            reveal_strlit("][");
            reveal_strlit("]: ");
            assert(r@.raw =~= rendered(r@));
        }
        r
    }

    /// Parses the full form `[HH:MM:SS][category]: content`; succeeds exactly
    /// when the line is of that form, and then returns its three parts.
    pub fn from_string(msg: &str) -> (r: Option<EconMessage>)
        ensures
            r is Some <==> full_form(msg@) is Some,
            r is Some ==> r->0@ == (MessageView {
                timestamp: (full_form(msg@)->0).0,
                category: (full_form(msg@)->0).1,
                content: (full_form(msg@)->0).2,
                raw: msg@,
            }),
            r is Some ==> (r->0).wf(),
    {
        let n = msg.unicode_len();
        if n < 11 {
            return None;
        }
        if !(msg.get_char(0) == '[' && msg.get_char(9) == ']' && msg.get_char(10) == '[') {
            return None;
        }
        let timestamp = match parse_time_text(msg.substring_char(1, 9)) {
            Some(t) => t,
            None => return None,
        };
        let e = find_close_mark_str(msg, 11, n);
        if !(12 <= e && e < n - 3) {
            return None;
        }
        Some(
            EconMessage {
                timestamp,
                category: msg.substring_char(11, e).to_owned(),
                content: msg.substring_char(e + 3, n).to_owned(),
                raw: msg.to_owned(),
            },
        )
    }

    /// Parses the category-only form `[category]: content`, stamping the
    /// message with the wall-clock time of receipt. Succeeds exactly when
    /// the line is of that form; the clock's reading is only known to be a
    /// well-formed time of day.
    pub fn from_string_with_current_time(msg: &str) -> (r: Option<EconMessage>)
        ensures
            r is Some <==> category_form(msg@) is Some,
            r is Some ==> r->0@.category == (category_form(msg@)->0).0 && r->0@.content
                == (category_form(msg@)->0).1 && r->0@.raw == msg@ && (r->0).wf(),
    {
        let now = crate::time::wall_clock_time();
        Self::from_string_at(msg, now)
    }

    /// Parses the category-only form `[category]: content` with an explicit
    /// receipt time; succeeds exactly when the line is of that form.
    pub fn from_string_at(msg: &str, now: TimeOfDay) -> (r: Option<EconMessage>)
        requires
            now.wf(),
        ensures
            r is Some <==> category_form(msg@) is Some,
            r is Some ==> r->0@ == (MessageView {
                timestamp: now,
                category: (category_form(msg@)->0).0,
                content: (category_form(msg@)->0).1,
                raw: msg@,
            }),
            r is Some ==> (r->0).wf(),
    {
        let n = msg.unicode_len();
        if n < 1 {
            return None;
        }
        if msg.get_char(0) != '[' {
            return None;
        }
        let e = find_close_mark_str(msg, 1, n);
        if !(2 <= e && n >= 4 && e < n - 3) {
            return None;
        }
        Some(
            EconMessage {
                timestamp: now,
                category: msg.substring_char(1, e).to_owned(),
                content: msg.substring_char(e + 3, n).to_owned(),
                raw: msg.to_owned(),
            },
        )
    }

    /// Runs the whole layered grammar on one logical line with an explicit
    /// receipt time and sentinel category: the full form, then the
    /// category-only form, then the fallback. Returns `None` exactly on the
    /// empty line.
    pub fn parse_line(line: &str, now: TimeOfDay, sentinel: &str) -> (r: Option<EconMessage>)
        requires
            now.wf(),
        ensures
            r is Some <==> line@.len() > 0,
            r is Some ==> r->0@ == parse_ladder(line@, now, sentinel@)->0,
            r is Some ==> (r->0).wf(),
    {
        if line.unicode_len() == 0 {
            return None;
        }
        if let Some(m) = Self::from_string(line) {
            return Some(m);
        }
        if let Some(m) = Self::from_string_at(line, now) {
            return Some(m);
        }
        Some(
            EconMessage {
                timestamp: now,
                category: sentinel.to_owned(),
                content: line.to_owned(),
                raw: line.to_owned(),
            },
        )
    }

    /// The canonical rendering `[HH:MM:SS][category]: content`.
    pub fn to_string(&self) -> (r: String)
        requires
            self.wf(),
        ensures
            r@ == rendered(self@),
    {
        let mut out = String::new();
        out.append("[");
        out.append(format_time(&self.timestamp).as_str());
        out.append("][");
        out.append(self.category.as_str());
        out.append("]: ");
        out.append(self.content.as_str());
        proof {
            reveal_strlit("[");
            reveal_strlit("][");
            reveal_strlit("]: ");
            assert(out@ =~= rendered(self@));
        }
        out
    }

    pub fn get_timestamp(&self) -> (r: TimeOfDay)
        ensures
            r == self@.timestamp,
    {
        self.timestamp
    }

    pub fn get_category(&self) -> (r: String)
        ensures
            r@ == self@.category,
    {
        self.category.clone()
    }

    pub fn get_content(&self) -> (r: String)
        ensures
            r@ == self@.content,
    {
        self.content.clone()
    }

    /// The raw line this message was parsed from (or, for a hand-built
    /// message, its canonical rendering).
    pub fn get_raw(&self) -> (r: String)
        ensures
            r@ == self@.raw,
    {
        self.raw.clone()
    }

    pub fn set_timestamp(&mut self, value: TimeOfDay)
        requires
            value.wf(),
        ensures
            final(self)@ == (MessageView { timestamp: value, ..old(self)@ }),
            final(self).wf(),
    {
        self.timestamp = value;
    }

    pub fn set_category(&mut self, value: String)
        ensures
            final(self)@ == (MessageView { category: value@, ..old(self)@ }),
    {
        self.category = value;
    }

    pub fn set_content(&mut self, value: String)
        ensures
            final(self)@ == (MessageView { content: value@, ..old(self)@ }),
    {
        self.content = value;
    }
}

} // verus!
