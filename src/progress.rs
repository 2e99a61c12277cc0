//! The progress-bar filter: reads directives a line at a time and keeps the
//! bar's state (its length, how many updates came, its message, whether it
//! finished).
use vstd::prelude::*;
use vstd::string::*;
use crate::text::{has_prefix, starts_with, trim, trimmed};

verus! {

/// The directive that sets the bar's length.
pub const SET_TOTAL: &'static str = "set_total ";

/// The directive that sets the bar's message.
pub const MSG: &'static str = "msg ";

/// The message a bar starts with.
pub const INITIAL_MESSAGE: &'static str = "Initializing...";

/// The value of a run of decimal digits.
pub open spec fn digits_value(s: Seq<char>) -> int
    decreases s.len(),
{
    if s.len() == 0 {
        0
    } else {
        digits_value(s.drop_last()) * 10 + (s.last() as int - '0' as int)
    }
}

pub open spec fn all_digits(s: Seq<char>) -> bool {
    forall|i: int| 0 <= i < s.len() ==> '0' <= #[trigger] s[i] <= '9'
}

/// What `u64`'s `from_str` accepts: an optional `+`, then one or more digits,
/// of a value that fits.
pub open spec fn u64_of(s: Seq<char>) -> Option<u64> {
    let d = if s.len() > 0 && s[0] == '+' {
        s.drop_first()
    } else {
        s
    };
    if d.len() > 0 && all_digits(d) && digits_value(d) <= u64::MAX {
        Some(digits_value(d) as u64)
    } else {
        None
    }
}

/// Reads an unsigned decimal number.
pub fn parse_u64(s: &str) -> (r: Option<u64>)
    ensures
        r == u64_of(s@),
{
    let n = s.unicode_len();
    let mut i: usize = 0;
    if n > 0 && s.get_char(0) == '+' {
        i = 1;
    }
    let ghost d = if s@.len() > 0 && s@[0] == '+' {
        s@.drop_first()
    } else {
        s@
    };
    let start = i;
    assert(d =~= s@.skip(start as int));
    if start == n {
        return None;
    }
    let mut v: u64 = 0;
    while i < n
        invariant
            n == s@.len(),
            start <= i <= n,
            d == s@.skip(start as int),
            d == (if s@.len() > 0 && s@[0] == '+' {
                s@.drop_first()
            } else {
                s@
            }),
            all_digits(s@.subrange(start as int, i as int)),
            v as int == digits_value(s@.subrange(start as int, i as int)),
        decreases n - i,
    {
        let c = s.get_char(i);
        let ghost prefix = s@.subrange(start as int, i + 1);
        assert(prefix.drop_last() =~= s@.subrange(start as int, i as int));
        if c < '0' || c > '9' {
            assert(d[i - start] == c);
            assert(!('0' <= d[i - start] <= '9'));
            assert(!all_digits(d));
            return None;
        }
        let digit = (c as u32 - '0' as u32) as u64;
        if v > (u64::MAX - digit) / 10 {
            assert(digits_value(prefix) > u64::MAX) by (nonlinear_arith)
                requires
                    digits_value(prefix) == v * 10 + digit,
                    v > (u64::MAX - digit) / 10,
                    digit <= 9,
            ;
            assert(d.subrange(0, i + 1 - start) =~= prefix);
            proof {
                if all_digits(d) {
                    lemma_value_grows(d, i + 1 - start);
                }
            }
            return None;
        }
        v = v * 10 + digit;
        i = i + 1;
    }
    assert(s@.subrange(start as int, n as int) =~= d);
    Some(v)
}

/// A longer run of digits is worth at least as much as its start.
proof fn lemma_value_grows(s: Seq<char>, k: int)
    requires
        0 <= k <= s.len(),
        all_digits(s),
    ensures
        digits_value(s) >= digits_value(s.subrange(0, k)),
    decreases s.len() - k,
{
    if k < s.len() {
        lemma_value_grows(s, k + 1);
        let t = s.subrange(0, k + 1);
        assert(t.drop_last() =~= s.subrange(0, k));
        assert(t.last() == s[k]);
        lemma_value_nonneg(s.subrange(0, k));
    } else {
        assert(s.subrange(0, k) =~= s);
    }
}

proof fn lemma_value_nonneg(s: Seq<char>)
    requires
        all_digits(s),
    ensures
        digits_value(s) >= 0,
    decreases s.len(),
{
    if s.len() > 0 {
        assert(all_digits(s.drop_last()));
        lemma_value_nonneg(s.drop_last());
    }
}

/// A directive, as the filter reads it.
pub enum Cmd {
    SetTotal(u64),
    Message(Seq<char>),
    Update,
    Done,
    Ignored,
}

/// A directive read from a line.
#[derive(Debug, Clone, PartialEq, Eq)]
pub enum Directive {
    /// Set the bar's length.
    SetTotal(u64),
    /// Set the bar's message.
    Message(String),
    /// Advance the bar by one.
    Update,
    /// Finish the bar.
    Done,
    /// A blank or unrecognized line.
    Ignored,
}

impl View for Directive {
    type V = Cmd;

    open spec fn view(&self) -> Cmd {
        match self {
            Directive::SetTotal(n) => Cmd::SetTotal(*n),
            Directive::Message(m) => Cmd::Message(m@),
            Directive::Update => Cmd::Update,
            Directive::Done => Cmd::Done,
            Directive::Ignored => Cmd::Ignored,
        }
    }
}

/// The directive that a line gives, once trimmed.
pub open spec fn directive_of(line: Seq<char>) -> Cmd {
    let t = trimmed(line);
    if has_prefix(t, SET_TOTAL@) {
        match u64_of(t.skip(SET_TOTAL@.len() as int)) {
            Some(n) => Cmd::SetTotal(n),
            None => Cmd::Ignored,
        }
    } else if has_prefix(t, MSG@) {
        Cmd::Message(t.skip(MSG@.len() as int))
    } else if t == "update"@ {
        Cmd::Update
    } else if t == "done"@ {
        Cmd::Done
    } else {
        Cmd::Ignored
    }
}

fn same_text(a: &str, b: &str) -> (r: bool)
    ensures
        r == (a@ == b@),
{
    let r = a.unicode_len() == b.unicode_len() && starts_with(a, b);
    assert(r ==> a@ =~= b@);
    assert(a@ == b@ ==> a@.subrange(0, b@.len() as int) =~= b@);
    r
}

/// Reads the directive on a line.
pub fn parse_directive(line: &str) -> (r: Directive)
    ensures
        r@ == directive_of(line@),
{
    let t = trim(line);
    let t = t.as_str();
    let n = t.unicode_len();
    if starts_with(t, SET_TOTAL) {
        let rest = t.substring_char(SET_TOTAL.unicode_len(), n);
        assert(rest@ =~= t@.skip(SET_TOTAL@.len() as int));
        match parse_u64(rest) {
            Some(v) => Directive::SetTotal(v),
            None => Directive::Ignored,
        }
    } else if starts_with(t, MSG) {
        let rest = t.substring_char(MSG.unicode_len(), n);
        assert(rest@ =~= t@.skip(MSG@.len() as int));
        Directive::Message(rest.to_string())
    } else if same_text(t, "update") {
        Directive::Update
    } else if same_text(t, "done") {
        Directive::Done
    } else {
        Directive::Ignored
    }
}

/// The state of a bar.
pub struct Bar {
    pub total: u64,
    pub count: u64,
    pub message: Seq<char>,
    pub finished: bool,
}

/// The bar before any directive.
pub open spec fn initial_bar() -> Bar {
    Bar { total: 0, count: 0, message: INITIAL_MESSAGE@, finished: false }
}

/// A bar after one more line. A finished bar takes no more directives.
pub open spec fn apply(b: Bar, line: Seq<char>) -> Bar {
    if b.finished {
        b
    } else {
        match directive_of(line) {
            Cmd::SetTotal(n) => Bar { total: n, ..b },
            Cmd::Message(m) => Bar { message: m, ..b },
            Cmd::Update => Bar {
                count: if b.count < u64::MAX {
                    (b.count + 1) as u64
                } else {
                    b.count
                },
                ..b
            },
            Cmd::Done => Bar { finished: true, ..b },
            Cmd::Ignored => b,
        }
    }
}

/// The bar after the lines `ls`, in order.
pub open spec fn run(ls: Seq<Seq<char>>) -> Bar
    decreases ls.len(),
{
    if ls.len() == 0 {
        initial_bar()
    } else {
        apply(run(ls.drop_last()), ls.last())
    }
}

/// The position a bar shows: the updates, no more than its length.
pub open spec fn shown(b: Bar) -> u64 {
    if b.count <= b.total {
        b.count
    } else {
        b.total
    }
}

/// Whether a `done` line is among `ls`.
pub open spec fn done_seen(ls: Seq<Seq<char>>) -> bool
    decreases ls.len(),
{
    ls.len() > 0 && (done_seen(ls.drop_last()) || directive_of(ls.last()) is Done)
}

/// The number of `update` lines before the first `done` line.
pub open spec fn updates_before_done(ls: Seq<Seq<char>>) -> nat
    decreases ls.len(),
{
    if ls.len() == 0 {
        0
    } else if done_seen(ls.drop_last()) {
        updates_before_done(ls.drop_last())
    } else if directive_of(ls.last()) is Update {
        updates_before_done(ls.drop_last()) + 1
    } else {
        updates_before_done(ls.drop_last())
    }
}

/// The length set by the last `set_total` line before the first `done` line (0 if none).
pub open spec fn last_total(ls: Seq<Seq<char>>) -> u64
    decreases ls.len(),
{
    if ls.len() == 0 {
        0
    } else if done_seen(ls.drop_last()) {
        last_total(ls.drop_last())
    } else {
        match directive_of(ls.last()) {
            Cmd::SetTotal(n) => n,
            _ => last_total(ls.drop_last()),
        }
    }
}

/// After any lines, the bar has finished exactly when a `done` line came, its
/// length is the last `set_total` before that, and the position it shows is
/// the number of `update` lines before it, no more than that length.
pub proof fn lemma_filter_position(ls: Seq<Seq<char>>)
    ensures
        run(ls).finished == done_seen(ls),
        run(ls).total == last_total(ls),
        run(ls).count == if updates_before_done(ls) <= u64::MAX {
            updates_before_done(ls)
        } else {
            u64::MAX as nat
        },
        shown(run(ls)) == if updates_before_done(ls) <= last_total(ls) {
            updates_before_done(ls)
        } else {
            last_total(ls) as nat
        },
    decreases ls.len(),
{
    if ls.len() > 0 {
        lemma_filter_position(ls.drop_last());
    }
}

/// A blank or unrecognized line leaves the bar as it was.
pub proof fn lemma_ignored_line(b: Bar, line: Seq<char>)
    requires
        directive_of(line) is Ignored,
    ensures
        apply(b, line) == b,
{
}

/// The lines of `ls` that hold a directive, in order.
pub open spec fn recognized(ls: Seq<Seq<char>>) -> Seq<Seq<char>>
    decreases ls.len(),
{
    if ls.len() == 0 {
        ls
    } else if directive_of(ls.last()) is Ignored {
        recognized(ls.drop_last())
    } else {
        recognized(ls.drop_last()).push(ls.last())
    }
}

/// The bar after some lines is the bar after the directives among them alone.
pub proof fn lemma_only_directives_count(ls: Seq<Seq<char>>)
    ensures
        run(ls) == run(recognized(ls)),
    decreases ls.len(),
{
    if ls.len() > 0 {
        lemma_only_directives_count(ls.drop_last());
        if !(directive_of(ls.last()) is Ignored) {
            let r = recognized(ls.drop_last()).push(ls.last());
            assert(r.drop_last() =~= recognized(ls.drop_last()));
        }
    }
}

/// Blank or unrecognized lines, inserted anywhere, change nothing: two inputs
/// with the same directives in the same order leave the bar in the same state.
pub proof fn lemma_ignored_lines_anywhere(a: Seq<Seq<char>>, b: Seq<Seq<char>>)
    requires
        recognized(a) == recognized(b),
    ensures
        run(a) == run(b),
{
    lemma_only_directives_count(a);
    lemma_only_directives_count(b);
}

/// The progress filter's state.
pub struct Progress {
    pub total: u64,
    pub count: u64,
    pub message: String,
    pub finished: bool,
}

impl View for Progress {
    type V = Bar;

    open spec fn view(&self) -> Bar {
        Bar { total: self.total, count: self.count, message: self.message@, finished: self.finished }
    }
}

impl Progress {
    /// A bar of length 0 at position 0, with the initial message.
    pub fn new() -> (r: Progress)
        ensures
            r@ == initial_bar(),
    {
        Progress { total: 0, count: 0, message: String::from_str(INITIAL_MESSAGE), finished: false }
    }

    /// Takes one line of input; returns the directive it held, or `Ignored`
    /// once the bar has finished.
    pub fn feed(&mut self, line: &str) -> (r: Directive)
        ensures
            final(self)@ == apply(old(self)@, line@),
            old(self).finished ==> r is Ignored,
            !old(self).finished ==> r@ == directive_of(line@),
    {
        if self.finished {
            return Directive::Ignored;
        }
        let d = parse_directive(line);
        match &d {
            Directive::SetTotal(n) => {
                self.total = *n;
            },
            Directive::Message(m) => {
                self.message = m.clone();
            },
            Directive::Update => {
                if self.count < u64::MAX {
                    self.count = self.count + 1;
                }
            },
            Directive::Done => {
                self.finished = true;
            },
            Directive::Ignored => {},
        }
        d
    }

    /// The position the bar shows.
    pub fn position(&self) -> (r: u64)
        ensures
            r == shown(self@),
    {
        if self.count <= self.total {
            self.count
        } else {
            self.total
        }
    }
}

} // verus!
