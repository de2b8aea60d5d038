use vstd::prelude::*;

verus! {

/// The lock record: created exclusively by the running daemon, holding its
/// process ID as decimal text, removed when it exits.
pub const LOCKFILE_PATH: &'static str = "/tmp/nix-service-manager.pid";

/// One more than the largest magnitude an `i32` can have.
pub const MAGNITUDE_CAP: i64 = 2147483649;

pub open spec fn is_digit(c: char) -> bool {
    '0' <= c <= '9'
}

pub open spec fn all_digits(s: Seq<char>) -> bool {
    forall|i: int| 0 <= i < s.len() ==> is_digit(#[trigger] s[i])
}

/// The number that a string of decimal digits denotes.
pub open spec fn digits_value(s: Seq<char>) -> int
    decreases s.len(),
{
    if s.len() == 0 {
        0
    } else {
        digits_value(s.drop_last()) * 10 + (s.last() as int - '0' as int)
    }
}

/// The `i32` that `s` denotes: an optional `+` or `-`, then one or more
/// decimal digits, with a value in range; `None` for anything else.
pub open spec fn spec_parse_pid(s: Seq<char>) -> Option<int> {
    let signed = s.len() > 0 && (s[0] == '+' || s[0] == '-');
    let body = if signed { s.drop_first() } else { s };
    let v = if signed && s[0] == '-' { -digits_value(body) } else { digits_value(body) };
    if body.len() == 0 || !all_digits(body) || v < i32::MIN || v > i32::MAX {
        None
    } else {
        Some(v)
    }
}

/// Reads the process ID held in a lock record.
pub fn parse_pid(text: &str) -> (r: Option<i32>)
    ensures
        match r {
            Some(p) => spec_parse_pid(text@) == Some(p as int),
            None => spec_parse_pid(text@).is_none(),
        },
{
    let n = text.unicode_len();
    let signed = n > 0 && (text.get_char(0) == '+' || text.get_char(0) == '-');
    let negative = signed && text.get_char(0) == '-';
    let start: usize = if signed { 1 } else { 0 };
    let ghost body = if signed { text@.drop_first() } else { text@ };
    assert(body =~= text@.subrange(start as int, n as int));
    if start == n {
        return None;
    }
    let mut acc: i64 = 0;
    let mut i: usize = start;
    while i < n
        invariant
            n == text@.len(),
            signed == (n > 0 && (text@[0] == '+' || text@[0] == '-')),
            negative == (signed && text@[0] == '-'),
            start == (if signed { 1usize } else { 0usize }),
            body == (if signed { text@.drop_first() } else { text@ }),
            start <= i <= n,
            body == text@.subrange(start as int, n as int),
            all_digits(text@.subrange(start as int, i as int)),
            0 <= acc <= MAGNITUDE_CAP,
            acc == (if digits_value(text@.subrange(start as int, i as int)) < MAGNITUDE_CAP {
                digits_value(text@.subrange(start as int, i as int))
            } else {
                MAGNITUDE_CAP as int
            }),
        decreases n - i,
    {
        let c = text.get_char(i);
        if !('0' <= c && c <= '9') {
            assert(body[i - start] == c);
            assert(!is_digit(body[i - start]));
            assert(!all_digits(body));
            return None;
        }
        let d = (c as u32 - '0' as u32) as i64;
        let ghost pre = text@.subrange(start as int, i as int);
        let ghost post = text@.subrange(start as int, i + 1);
        assert(post.drop_last() =~= pre);
        assert(digits_value(post) == digits_value(pre) * 10 + d);
        assert(digits_value(pre) >= 0) by {
            lemma_digits_nonneg(pre);
        }
        let next = acc * 10 + d;
        if next >= MAGNITUDE_CAP {
            assert(digits_value(post) >= MAGNITUDE_CAP) by (nonlinear_arith)
                requires
                    digits_value(post) == digits_value(pre) * 10 + d,
                    acc * 10 + d >= MAGNITUDE_CAP,
                    acc <= digits_value(pre),
                    d >= 0,
            ;
            acc = MAGNITUDE_CAP;
        } else {
            acc = next;
        }
        assert(all_digits(post)) by {
            assert forall|k: int| 0 <= k < post.len() implies is_digit(#[trigger] post[k]) by {
                if k < pre.len() {
                    assert(post[k] == pre[k]);
                }
            }
        }
        i = i + 1;
    }
    assert(text@.subrange(start as int, n as int) == body);
    if acc == MAGNITUDE_CAP {
        return None;
    }
    if negative {
        Some((-acc) as i32)
    } else if acc > 2147483647 {
        None
    } else {
        Some(acc as i32)
    }
}

proof fn lemma_digits_nonneg(s: Seq<char>)
    requires
        all_digits(s),
    ensures
        digits_value(s) >= 0,
    decreases s.len(),
{
    if s.len() > 0 {
        assert(is_digit(s[s.len() - 1]));
        lemma_digits_nonneg(s.drop_last());
    }
}

/// What stopping the daemon comes to, given the lock record's text if the
/// record exists.
#[derive(Debug, Clone, Copy, PartialEq, Eq, Structural)]
pub enum StopAction {
    /// No lock record: no daemon is running, nothing to do.
    NotRunning,
    /// Send the termination signal to this process.
    Signal(i32),
    /// The record does not hold a process ID.
    BadRecord,
}

/// Decides how to stop the daemon from the lock record's contents.
pub fn stop_action(record: Option<&str>) -> (r: StopAction)
    ensures
        match record {
            None => r == StopAction::NotRunning,
            Some(t) => match spec_parse_pid(t@) {
                Some(p) => r == StopAction::Signal(p as i32),
                None => r == StopAction::BadRecord,
            },
        },
{
    match record {
        None => StopAction::NotRunning,
        Some(t) => match parse_pid(t) {
            Some(p) => StopAction::Signal(p),
            None => StopAction::BadRecord,
        },
    }
}

} // verus!
