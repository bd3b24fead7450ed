//! Liveness tracking for the out-of-process organ.
//!
//! The external organ process writes its own identifier to a well-known file
//! at startup; the tracker keeps an advisory cached identifier. Neither
//! source alone is trusted: the persisted identifier is authoritative when
//! the two are present and disagree, and liveness is always reconfirmed by a
//! probe before an identifier is believed.

use vstd::prelude::*;
use vstd::string::StrSliceExecFns;

verus! {

/// Is this a decimal digit?
pub open spec fn is_digit(c: char) -> bool {
    '0' <= c && c <= '9'
}

/// The numeric value of a decimal digit.
pub open spec fn digit_val(c: char) -> int {
    c as int - '0' as int
}

/// Does the string consist of decimal digits only?
pub open spec fn all_digits(s: Seq<char>) -> bool {
    forall|i: int| 0 <= i < s.len() ==> is_digit(#[trigger] s[i])
}

/// The value of a digit string read in base ten.
pub open spec fn dec_value(s: Seq<char>) -> int
    decreases s.len(),
{
    if s.len() == 0 {
        0
    } else {
        dec_value(s.drop_last()) * 10 + digit_val(s.last())
    }
}

/// Whitespace that may surround the identifier in the persisted file.
pub open spec fn is_line_space(c: char) -> bool {
    c == ' ' || c == '\t' || c == '\n' || c == '\r'
}

/// The string without trailing whitespace.
pub open spec fn trim_end(s: Seq<char>) -> Seq<char>
    decreases s.len(),
{
    if s.len() > 0 && is_line_space(s.last()) {
        trim_end(s.drop_last())
    } else {
        s
    }
}

/// The string without leading whitespace.
pub open spec fn trim_start(s: Seq<char>) -> Seq<char>
    decreases s.len(),
{
    if s.len() > 0 && is_line_space(s.first()) {
        trim_start(s.drop_first())
    } else {
        s
    }
}

/// The string without surrounding whitespace.
pub open spec fn trimmed(s: Seq<char>) -> Seq<char> {
    trim_start(trim_end(s))
}

/// What the persisted identifier file means: a decimal process identifier on
/// a single line, surrounding whitespace ignored; absent or unparsable
/// content means "no tracked process", never an error.
pub open spec fn spec_parse_pid(s: Seq<char>) -> Option<u32> {
    let t = trimmed(s);
    if t.len() > 0 && all_digits(t) && dec_value(t) <= u32::MAX {
        Option::Some(dec_value(t) as u32)
    } else {
        Option::None
    }
}

/// A digit string's value is never negative.
proof fn lemma_dec_value_nonneg(s: Seq<char>)
    requires
        all_digits(s),
    ensures
        dec_value(s) >= 0,
    decreases s.len(),
{
    if s.len() > 0 {
        assert(is_digit(s.last()));
        assert(all_digits(s.drop_last())) by {
            assert(forall|i: int|
                0 <= i < s.drop_last().len() ==> #[trigger] s.drop_last()[i] == s[i]);
        }
        lemma_dec_value_nonneg(s.drop_last());
    }
}

/// Reading more digits never shrinks the value.
proof fn lemma_dec_value_prefix(s: Seq<char>, k: int)
    requires
        all_digits(s),
        0 <= k <= s.len(),
    ensures
        dec_value(s.take(k)) <= dec_value(s),
    decreases s.len(),
{
    if k == s.len() {
        assert(s.take(k) =~= s);
    } else {
        assert(all_digits(s.drop_last())) by {
            assert(forall|i: int|
                0 <= i < s.drop_last().len() ==> #[trigger] s.drop_last()[i] == s[i]);
        }
        assert(s.take(k) =~= s.drop_last().take(k));
        lemma_dec_value_prefix(s.drop_last(), k);
        lemma_dec_value_nonneg(s.drop_last());
        assert(is_digit(s.last()));
        assert(dec_value(s.drop_last()) * 10 + digit_val(s.last()) >= dec_value(s.drop_last()));
    }
}

/// When everything from `e` on is whitespace and position `e - 1` (if any) is
/// not, trimming the end keeps exactly the first `e` characters.
proof fn lemma_trim_end_take(s: Seq<char>, e: int)
    requires
        0 <= e <= s.len(),
        forall|k: int| e <= k < s.len() ==> is_line_space(#[trigger] s[k]),
        e == 0 || !is_line_space(s[e - 1]),
    ensures
        trim_end(s) == s.take(e),
    decreases s.len(),
{
    if s.len() == e {
        assert(s.take(e) =~= s);
    } else {
        assert(is_line_space(s.last()));
        lemma_trim_end_take(s.drop_last(), e);
        assert(s.drop_last().take(e) =~= s.take(e));
    }
}

/// When everything before `b` is whitespace and position `b` (if any) is not,
/// trimming the start keeps exactly the characters from `b` on.
proof fn lemma_trim_start_subrange(s: Seq<char>, b: int)
    requires
        0 <= b <= s.len(),
        forall|k: int| 0 <= k < b ==> is_line_space(#[trigger] s[k]),
        b == s.len() || !is_line_space(s[b]),
    ensures
        trim_start(s) == s.subrange(b, s.len() as int),
    decreases b,
{
    if b == 0 {
        assert(s.subrange(0, s.len() as int) =~= s);
    } else {
        assert(is_line_space(s.first()));
        assert(forall|k: int|
            0 <= k < b - 1 ==> is_line_space(#[trigger] s.drop_first()[k]));
        lemma_trim_start_subrange(s.drop_first(), b - 1);
        assert(s.drop_first().subrange(b - 1, s.drop_first().len() as int) =~= s.subrange(
            b,
            s.len() as int,
        ));
    }
}

/// Is the character at `i` line whitespace?
fn space_at(s: &str, i: usize) -> (b: bool)
    requires
        i < s@.len(),
    ensures
        b == is_line_space(s@[i as int]),
{
    let c = s.get_char(i);
    c == ' ' || c == '\t' || c == '\n' || c == '\r'
}

/// Parse the content of the persisted identifier file: a decimal identifier
/// surrounded by optional whitespace. Anything else, including a value above
/// the identifier range, yields `None`.
pub fn parse_pid(line: &str) -> (r: Option<u32>)
    ensures
        r == spec_parse_pid(line@),
{
    let n = line.unicode_len();
    // Trim trailing whitespace.
    let mut end: usize = n;
    while end > 0 && space_at(line, end - 1)
        invariant
            end <= n,
            n == line@.len(),
            forall|k: int| end <= k < n ==> is_line_space(#[trigger] line@[k]),
        decreases end,
    {
        end -= 1;
    }
    proof {
        lemma_trim_end_take(line@, end as int);
    }
    // Trim leading whitespace.
    let mut start: usize = 0;
    while start < end && space_at(line, start)
        invariant
            start <= end <= n,
            n == line@.len(),
            forall|k: int| 0 <= k < start ==> is_line_space(#[trigger] line@[k]),
            forall|k: int| end <= k < n ==> is_line_space(#[trigger] line@[k]),
        decreases end - start,
    {
        start += 1;
    }
    let ghost t = trimmed(line@);
    proof {
        lemma_trim_start_subrange(line@.take(end as int), start as int);
        assert(t =~= line@.subrange(start as int, end as int)) by {
            assert(line@.take(end as int).subrange(
                start as int,
                line@.take(end as int).len() as int,
            ) =~= line@.subrange(start as int, end as int));
        }
    }
    if start == end {
        proof {
            assert(t.len() == 0);
        }
        return None;
    }
    // Read the digits, rejecting anything else and any overflowing value.
    let mut acc: u64 = 0;
    let mut i: usize = start;
    while i < end
        invariant
            start <= i <= end <= n,
            n == line@.len(),
            t == trimmed(line@),
            t == line@.subrange(start as int, end as int),
            acc <= u32::MAX,
            all_digits(t.take(i - start)),
            acc == dec_value(t.take(i - start)),
        decreases end - i,
    {
        let c = line.get_char(i);
        let v = c as u32;
        if v < 48 || v > 57 {
            proof {
                assert(!is_digit(t[i - start]));
                assert(!all_digits(t));
            }
            return None;
        }
        let d: u64 = (v - 48) as u64;
        let next: u64 = acc * 10 + d;
        proof {
            assert(t.take(i - start + 1).drop_last() =~= t.take(i - start));
            assert(t.take(i - start + 1).last() == t[i - start]);
        }
        if next > 0xFFFF_FFFF {
            proof {
                if all_digits(t) {
                    lemma_dec_value_prefix(t, i - start + 1);
                }
            }
            return None;
        }
        acc = next;
        i += 1;
    }
    proof {
        assert(t.take(t.len() as int) =~= t);
    }
    Some(acc as u32)
}

/// How a cached identifier, a persisted identifier and their probe results
/// combine. The persisted identifier is authoritative when both are present
/// and disagree; either way an identifier is only believed when its probe
/// found it alive.
pub open spec fn spec_reconcile(
    cached: Option<u32>,
    persisted: Option<u32>,
    cached_alive: bool,
    persisted_alive: bool,
) -> Option<u32> {
    match (cached, persisted) {
        (Option::None, Option::None) => Option::None,
        (Option::Some(c), Option::None) => if cached_alive {
            Option::Some(c)
        } else {
            Option::None
        },
        (Option::None, Option::Some(p)) => if persisted_alive {
            Option::Some(p)
        } else {
            Option::None
        },
        (Option::Some(c), Option::Some(p)) => if c == p {
            if cached_alive {
                Option::Some(c)
            } else {
                Option::None
            }
        } else {
            if persisted_alive {
                Option::Some(p)
            } else {
                Option::None
            }
        },
    }
}

/// Tracks whether the externally spawned organ process is alive. The tracker
/// exclusively owns the cached identifier; the persisted one is read from
/// the file the external process writes.
pub struct Tracker {
    pub cached: Option<u32>,
}

impl Tracker {
    /// A tracker with nothing tracked.
    pub fn new() -> (t: Tracker)
        ensures
            t.cached is None,
    {
        Tracker { cached: None }
    }

    /// The advisory cached identifier, for the caller to probe.
    pub fn cached_pid(&self) -> (r: Option<u32>)
        ensures
            r == self.cached,
    {
        self.cached
    }

    /// Reconcile the cached identifier against the persisted one and the two
    /// probe results; the cache is updated to the outcome, so a confirmed
    /// termination clears it.
    pub fn reconcile(&mut self, persisted: Option<u32>, cached_alive: bool, persisted_alive: bool) -> (live: Option<u32>)
        ensures
            live == spec_reconcile(old(self).cached, persisted, cached_alive, persisted_alive),
            final(self).cached == live,
    {
        let live = match (self.cached, persisted) {
            (None, None) => None,
            (Some(c), None) => if cached_alive {
                Some(c)
            } else {
                None
            },
            (None, Some(p)) => if persisted_alive {
                Some(p)
            } else {
                None
            },
            (Some(c), Some(p)) => if c == p {
                if cached_alive {
                    Some(c)
                } else {
                    None
                }
            } else {
                if persisted_alive {
                    Some(p)
                } else {
                    None
                }
            },
        };
        self.cached = live;
        live
    }

    /// Record the identifier of a process a successful spawn produced.
    pub fn record_spawn(&mut self, pid: u32)
        ensures
            final(self).cached == Option::Some(pid),
    {
        self.cached = Some(pid);
    }

    /// Forget the tracked process, as an explicit close does.
    pub fn clear(&mut self)
        ensures
            final(self).cached is None,
    {
        self.cached = None;
    }
}

/// Liveness reconciliation law: when the cached and persisted identifiers
/// disagree and the persisted one is alive, reconciliation believes the
/// persisted identifier, whatever the cached probe said.
pub proof fn lemma_reconcile_disagreement(c: u32, p: u32, cached_alive: bool)
    requires
        c != p,
    ensures
        spec_reconcile(Option::Some(c), Option::Some(p), cached_alive, true) == Option::Some(p),
{
}

} // verus!
