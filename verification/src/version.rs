//! The two-component version ordinal and its strict textual parser.

use vstd::assert_by_contradiction;
use vstd::prelude::*;
use vstd::string::StrSliceExecFns;

verus! {

/// A character of Unicode's `White_Space` class, the set removed from both
/// ends of a version string before it is split into segments.
pub open spec fn is_ws_char(c: char) -> bool {
    let u = c as int;
    u == 0x09 || u == 0x0A || u == 0x0B || u == 0x0C || u == 0x0D || u == 0x20 || u == 0x85 || u
        == 0xA0 || u == 0x1680 || (0x2000 <= u && u <= 0x200A) || u == 0x2028 || u == 0x2029 || u
        == 0x202F || u == 0x205F || u == 0x3000
}

/// An ASCII decimal digit.
pub open spec fn is_digit_char(c: char) -> bool {
    0x30 <= c as int <= 0x39
}

/// The numeric value of an ASCII decimal digit.
pub open spec fn digit_val(c: char) -> nat {
    (c as int - 0x30) as nat
}

/// `s` with its leading whitespace characters removed.
pub open spec fn trim_front(s: Seq<char>) -> Seq<char>
    decreases s.len(),
{
    if s.len() > 0 && is_ws_char(s[0]) {
        trim_front(s.subrange(1, s.len() as int))
    } else {
        s
    }
}

/// `s` with its trailing whitespace characters removed.
pub open spec fn trim_back(s: Seq<char>) -> Seq<char>
    decreases s.len(),
{
    if s.len() > 0 && is_ws_char(s.last()) {
        trim_back(s.drop_last())
    } else {
        s
    }
}

/// `s` with whitespace removed from both ends.
pub open spec fn trimmed(s: Seq<char>) -> Seq<char> {
    trim_back(trim_front(s))
}

/// Every character of `s` is an ASCII decimal digit.
pub open spec fn all_digits(s: Seq<char>) -> bool {
    forall|i: int| 0 <= i < s.len() ==> is_digit_char(s[i])
}

/// The value of a sequence of decimal digits, most significant first.
pub open spec fn digits_val(s: Seq<char>) -> nat
    decreases s.len(),
{
    if s.len() == 0 {
        0
    } else {
        digits_val(s.drop_last()) * 10 + digit_val(s.last())
    }
}

/// The value of one version segment, if it parses as an unsigned 16-bit
/// number: an optional leading `+`, then one or more decimal digits whose
/// value fits in 16 bits.
pub open spec fn segment_value(s: Seq<char>) -> Option<u16> {
    let body = if s.len() > 0 && s[0] == '+' {
        s.subrange(1, s.len() as int)
    } else {
        s
    };
    if body.len() > 0 && all_digits(body) && digits_val(body) <= 0xFFFF {
        Some(digits_val(body) as u16)
    } else {
        None
    }
}

/// The index of the first `.` in `s`, or `s.len()` if there is none.
pub open spec fn first_dot(s: Seq<char>) -> int
    decreases s.len(),
{
    if s.len() == 0 {
        0
    } else if s[0] == '.' {
        0
    } else {
        1 + first_dot(s.subrange(1, s.len() as int))
    }
}

/// The version denoted by `s`, if any: after an outer trim, one segment
/// gives `(major, 0)`, two segments separated by a single `.` give
/// `(major, minor)`, and anything else (no segment, three or more segments,
/// or a segment that is not an unsigned 16-bit number) denotes nothing.
pub open spec fn version_of(s: Seq<char>) -> Option<Version> {
    let t = trimmed(s);
    if !t.contains('.') {
        match segment_value(t) {
            Some(major) => Some(Version { major, minor: 0 }),
            None => None,
        }
    } else {
        let i = first_dot(t);
        let head = t.subrange(0, i);
        let tail = t.subrange(i + 1, t.len() as int);
        if tail.contains('.') {
            None
        } else {
            match (segment_value(head), segment_value(tail)) {
                (Some(major), Some(minor)) => Some(Version { major, minor }),
                _ => None,
            }
        }
    }
}

/// A dotted version with a major and a minor component, as used both for
/// object versions and for protocol versions.
///
/// Versions are totally ordered: first by major, then by minor.
#[derive(Debug, Copy, Clone, PartialEq, Eq, PartialOrd, Ord, Structural)]
pub struct Version {
    /// The major component.
    pub major: u16,
    /// The minor component.
    pub minor: u16,
}

/// `a` is strictly below `b` in the version order: compare the major
/// components first, then the minor components.
pub open spec fn version_lt(a: Version, b: Version) -> bool {
    a.major < b.major || (a.major == b.major && a.minor < b.minor)
}

/// `a` is below or equal to `b` in the version order.
pub open spec fn version_le(a: Version, b: Version) -> bool {
    version_lt(a, b) || a == b
}

impl Version {
    /// Create a new version from a major and a minor component.
    pub fn new(major: u16, minor: u16) -> (v: Version)
        ensures
            v.major == major,
            v.minor == minor,
    {
        Version { major, minor }
    }

    /// Decide whether `self` is strictly below `other` in the version order.
    pub fn is_older_than(&self, other: &Version) -> (r: bool)
        ensures
            r == version_lt(*self, *other),
    {
        self.major < other.major || (self.major == other.major && self.minor < other.minor)
    }

    /// Decide whether `self` is below or equal to `other` in the version order.
    pub fn is_at_most(&self, other: &Version) -> (r: bool)
        ensures
            r == version_le(*self, *other),
    {
        self.major < other.major || (self.major == other.major && self.minor <= other.minor)
    }
}

/// The version order is a strict total order: irreflexive, transitive, and
/// any two distinct versions are comparable one way and not the other.
pub proof fn lemma_version_order_total(a: Version, b: Version, c: Version)
    ensures
        !version_lt(a, a),
        version_lt(a, b) && version_lt(b, c) ==> version_lt(a, c),
        a == b || version_lt(a, b) || version_lt(b, a),
        version_lt(a, b) ==> !version_lt(b, a) && a != b,
{
}

/// If the first `.` of `s` is at `i`, `first_dot` finds it.
proof fn lemma_first_dot_at(s: Seq<char>, i: int)
    requires
        0 <= i < s.len(),
        s[i] == '.',
        forall|j: int| 0 <= j < i ==> s[j] != '.',
    ensures
        first_dot(s) == i,
    decreases i,
{
    if i > 0 {
        let rest = s.subrange(1, s.len() as int);
        lemma_first_dot_at(rest, i - 1);
    }
}

/// Decide whether `c` is in Unicode's `White_Space` class.
fn is_whitespace_char(c: char) -> (r: bool)
    ensures
        r == is_ws_char(c),
{
    let u = c as u32;
    u == 0x09 || u == 0x0A || u == 0x0B || u == 0x0C || u == 0x0D || u == 0x20 || u == 0x85 || u
        == 0xA0 || u == 0x1680 || (0x2000 <= u && u <= 0x200A) || u == 0x2028 || u == 0x2029 || u
        == 0x202F || u == 0x205F || u == 0x3000
}

/// Remove whitespace from both ends of `s`.
fn trim_str(s: &str) -> (t: &str)
    ensures
        t@ == trimmed(s@),
{
    let len = s.unicode_len();
    proof {
        assert(s@.subrange(0, len as int) =~= s@);
    }
    let mut lo: usize = 0;
    while lo < len && is_whitespace_char(s.get_char(lo))
        invariant
            lo <= len,
            len == s@.len(),
            trim_front(s@) == trim_front(s@.subrange(lo as int, len as int)),
        decreases len - lo,
    {
        proof {
            assert(s@.subrange(lo as int, len as int).subrange(1, (len - lo) as int) =~= s@.subrange(
                lo + 1,
                len as int,
            ));
        }
        lo = lo + 1;
    }
    proof {
        if lo == len {
            assert(s@.subrange(lo as int, len as int) =~= Seq::<char>::empty());
        }
        assert(trim_front(s@) == s@.subrange(lo as int, len as int));
    }
    let mut hi: usize = len;
    while hi > lo && is_whitespace_char(s.get_char(hi - 1))
        invariant
            lo <= hi <= len,
            len == s@.len(),
            trim_front(s@) == s@.subrange(lo as int, len as int),
            trim_back(s@.subrange(lo as int, len as int)) == trim_back(
                s@.subrange(lo as int, hi as int),
            ),
        decreases hi,
    {
        proof {
            let cur = s@.subrange(lo as int, hi as int);
            assert(cur.last() == s@[hi - 1]);
            assert(cur.drop_last() =~= s@.subrange(lo as int, hi - 1));
        }
        hi = hi - 1;
    }
    proof {
        if hi == lo {
            assert(s@.subrange(lo as int, hi as int) =~= Seq::<char>::empty());
        }
        assert(trimmed(s@) == s@.subrange(lo as int, hi as int));
    }
    s.substring_char(lo, hi)
}

/// Parsing round-trips on every valid version string: a single segment of
/// decimal digits whose value fits in 16 bits denotes `(value, 0)`, and two
/// such segments joined by a `.` denote `(first, second)`.
pub proof fn lemma_parse_round_trip(a: Seq<char>, b: Seq<char>)
    requires
        a.len() > 0,
        all_digits(a),
        digits_val(a) <= 0xFFFF,
        b.len() > 0,
        all_digits(b),
        digits_val(b) <= 0xFFFF,
    ensures
        version_of(a) == Some(Version { major: digits_val(a) as u16, minor: 0 }),
        version_of(a + seq!['.'] + b) == Some(
            Version { major: digits_val(a) as u16, minor: digits_val(b) as u16 },
        ),
{
    assert(!is_ws_char(a[0]));
    assert(trimmed(a) == a);
    assert_by_contradiction!(!a.contains('.'), {
        let k = choose|k: int| 0 <= k < a.len() && a[k] == '.';
        assert(is_digit_char(a[k]));
    });
    assert(a[0] != '+');
    assert(version_of(a) == Some(Version { major: digits_val(a) as u16, minor: 0 }));

    let s = a + seq!['.'] + b;
    assert(s[0] == a[0]);
    assert(s.last() == b.last());
    assert(!is_ws_char(s[0]));
    assert(!is_ws_char(s.last()));
    assert(trimmed(s) == s);
    assert(s[a.len() as int] == '.');
    assert(s.contains('.'));
    assert(forall|j: int| 0 <= j < a.len() ==> s[j] == a[j] && s[j] != '.');
    lemma_first_dot_at(s, a.len() as int);
    let head = s.subrange(0, a.len() as int);
    let tail = s.subrange(a.len() as int + 1, s.len() as int);
    assert(head =~= a);
    assert(tail =~= b);
    assert_by_contradiction!(!tail.contains('.'), {
        let k = choose|k: int| 0 <= k < tail.len() && tail[k] == '.';
        assert(is_digit_char(b[k]));
    });
    assert(b[0] != '+');
}

/// An error raised when a version string cannot be parsed.
#[derive(Debug, PartialEq, Eq)]
pub struct ParseVersionError {
    /// A description of the failure.
    pub msg: String,
}

impl ParseVersionError {
    /// Create a parse error describing the offending text.
    pub fn new(s: &str) -> (e: ParseVersionError)
        ensures
            e.msg@ == "Could not parse string: "@ + s@,
    {
        ParseVersionError { msg: String::from_str("Could not parse string: ").concat(s) }
    }
}

impl Version {
    /// Parse one version segment, handed over as the next piece of a split
    /// string: a missing piece fails, and a present piece must be an
    /// unsigned 16-bit decimal number (with an optional leading `+`).
    pub(crate) fn parse_digit(num: Option<&str>) -> (r: Result<u16, ParseVersionError>)
        ensures
            match num {
                Some(t) => match r {
                    Ok(v) => segment_value(t@) == Some(v),
                    Err(_) => segment_value(t@) is None,
                },
                None => r is Err,
            },
    {
        let t = match num {
            Some(t) => t,
            None => {
                return Err(ParseVersionError::new("NO_VALUE"));
            },
        };
        let len = t.unicode_len();
        let off: usize = if len > 0 && t.get_char(0) == '+' {
            1
        } else {
            0
        };
        let ghost body = if t@.len() > 0 && t@[0] == '+' {
            t@.subrange(1, t@.len() as int)
        } else {
            t@
        };
        if off >= len {
            proof {
                assert(body.len() == 0);
            }
            return Err(ParseVersionError::new("cannot parse integer from empty string"));
        }
        let mut val: u32 = 0;
        let mut i: usize = off;
        while i < len
            invariant
                num == Some(t),
                off <= i <= len,
                off <= 1,
                len == t@.len(),
                body == if t@.len() > 0 && t@[0] == '+' {
                    t@.subrange(1, t@.len() as int)
                } else {
                    t@
                },
                body.len() == len - off,
                forall|j: int| 0 <= j < i - off ==> is_digit_char(body[j]),
                val <= 0x10000,
                (val <= 0xFFFF && val == digits_val(body.subrange(0, i - off))) || (val == 0x10000
                    && digits_val(body.subrange(0, i - off)) > 0xFFFF),
            decreases len - i,
        {
            let c = t.get_char(i);
            let u = c as u32;
            proof {
                assert(body[i - off] == t@[i as int]);
            }
            if u < 0x30 || u > 0x39 {
                proof {
                    assert(!is_digit_char(body[i - off]));
                    assert(!all_digits(body)) by {
                        assert(0 <= i - off < body.len() && !is_digit_char(body[i - off]));
                    }
                }
                return Err(ParseVersionError::new("invalid digit found in string"));
            }
            let d = u - 0x30;
            proof {
                let pre = body.subrange(0, i - off);
                let cur = body.subrange(0, i + 1 - off);
                assert(cur.drop_last() =~= pre);
                assert(cur.last() == body[i - off]);
                assert(digits_val(cur) == digits_val(pre) * 10 + digit_val(body[i - off]));
            }
            if val > 0xFFFF {
                val = 0x10000;
            } else {
                val = val * 10 + d;
                if val > 0xFFFF {
                    val = 0x10000;
                }
            }
            i = i + 1;
        }
        proof {
            assert(body.subrange(0, (len - off) as int) =~= body);
        }
        if val > 0xFFFF {
            return Err(ParseVersionError::new("number too large to fit in target type"));
        }
        Ok(val as u16)
    }

    /// Parse a version string: an outer trim, then one segment `major`
    /// (giving minor 0) or two segments `major.minor`, each an unsigned
    /// 16-bit decimal number. Succeeds exactly on the strings that denote a
    /// version, and returns that version.
    pub fn parse(s: &str) -> (r: Result<Version, ParseVersionError>)
        ensures
            match r {
                Ok(v) => version_of(s@) == Some(v),
                Err(_) => version_of(s@) is None,
            },
    {
        let t = trim_str(s);
        let t_len = t.unicode_len();
        let mut i: usize = 0;
        while i < t_len && t.get_char(i) != '.'
            invariant
                i <= t_len,
                t_len == t@.len(),
                forall|j: int| 0 <= j < i ==> t@[j] != '.',
            decreases t_len - i,
        {
            i = i + 1;
        }
        if i == t_len {
            // one segment, no dot
            proof {
                assert_by_contradiction!(!t@.contains('.'), {
                    let k = choose|k: int| 0 <= k < t@.len() && t@[k] == '.';
                    assert(t@[k] != '.');
                });
            }
            return match Self::parse_digit(Some(t)) {
                Ok(major) => Ok(Version { major, minor: 0 }),
                Err(e) => Err(e),
            };
        }
        proof {
            assert(t@[i as int] == '.');
            assert(t@.contains('.'));
            lemma_first_dot_at(t@, i as int);
        }
        let head = t.substring_char(0, i);
        let tail = t.substring_char(i + 1, t_len);
        let mut k: usize = 0;
        let tail_len = t_len - (i + 1);
        while k < tail_len && tail.get_char(k) != '.'
            invariant
                k <= tail_len,
                tail_len == tail@.len(),
                forall|j: int| 0 <= j < k ==> tail@[j] != '.',
            decreases tail_len - k,
        {
            k = k + 1;
        }
        if k < tail_len {
            // a second dot: three or more segments
            proof {
                assert(tail@[k as int] == '.');
                assert(tail@.contains('.'));
            }
            return Err(ParseVersionError::new(s));
        }
        proof {
            assert_by_contradiction!(!tail@.contains('.'), {
                let j = choose|j: int| 0 <= j < tail@.len() && tail@[j] == '.';
                assert(tail@[j] != '.');
            });
        }
        let major = match Self::parse_digit(Some(head)) {
            Ok(v) => v,
            Err(e) => {
                return Err(e);
            },
        };
        let minor = match Self::parse_digit(Some(tail)) {
            Ok(v) => v,
            Err(e) => {
                return Err(e);
            },
        };
        Ok(Version { major, minor })
    }
}

impl core::str::FromStr for Version {
    type Err = ParseVersionError;

    /// Parse a version string, as [`Version::parse`] does.
    fn from_str(s: &str) -> Result<Version, ParseVersionError> {
        Version::parse(s)
    }
}

} // verus!
