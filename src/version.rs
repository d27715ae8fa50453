//! Dotted version identifiers: permissive parsing and tuple ordering.

use vstd::prelude::*;

use crate::text::chars_of;

verus! {

/// A parsed version: compared as the tuple (major, minor, patch).
#[derive(Clone, Copy, Debug, PartialEq, Eq, Structural)]
pub struct VersionId {
    pub major: u64,
    pub minor: u64,
    pub patch: u64,
}

pub open spec fn is_digit(c: char) -> bool {
    48 <= (c as u32) && (c as u32) <= 57
}

pub open spec fn digit_value(c: char) -> nat {
    ((c as u32) - 48) as nat
}

pub open spec fn all_digits(s: Seq<char>) -> bool {
    forall|i: int| 0 <= i < s.len() ==> is_digit(#[trigger] s[i])
}

/// The value of a run of decimal digits.
pub open spec fn digits_value(s: Seq<char>) -> nat
    decreases s.len(),
{
    if s.len() == 0 {
        0
    } else {
        digits_value(s.drop_last()) * 10 + digit_value(s.last())
    }
}

/// What a `u64` reads from `s`: an optional `+`, then one or more decimal
/// digits whose value fits in 64 bits; anything else reads as nothing.
pub open spec fn decimal_u64(s: Seq<char>) -> Option<u64> {
    let d = if s.len() > 0 && s[0] == '+' {
        s.drop_first()
    } else {
        s
    };
    if d.len() > 0 && all_digits(d) && digits_value(d) <= u64::MAX {
        Some(digits_value(d) as u64)
    } else {
        None
    }
}

/// A version component: its decimal value, or zero where it does not read.
pub open spec fn component(s: Seq<char>) -> u64 {
    match decimal_u64(s) {
        Some(v) => v,
        None => 0,
    }
}

/// The length of the run of digits that `s` starts with.
pub open spec fn digit_prefix_len(s: Seq<char>) -> nat
    decreases s.len(),
{
    if s.len() > 0 && is_digit(s[0]) {
        1 + digit_prefix_len(s.drop_first())
    } else {
        0
    }
}

/// The pieces of `s` between its dots, as splitting on `.` gives them: one
/// more piece than there are dots, empty pieces included.
pub open spec fn split_dots(s: Seq<char>) -> Seq<Seq<char>>
    decreases s.len(),
{
    if s.len() == 0 {
        seq![Seq::<char>::empty()]
    } else {
        let rest = split_dots(s.drop_last());
        if s.last() == '.' {
            rest.push(Seq::<char>::empty())
        } else {
            rest.update(rest.len() - 1, rest.last().push(s.last()))
        }
    }
}

/// The version that a string denotes: none with fewer than two dot-separated
/// pieces; else the first two pieces read as components, and the patch from
/// the digits that the third piece starts with (zero without a third piece).
pub open spec fn parse_spec(s: Seq<char>) -> Option<VersionId> {
    let parts = split_dots(s);
    if parts.len() < 2 {
        None
    } else {
        Some(
            VersionId {
                major: component(parts[0]),
                minor: component(parts[1]),
                patch: if parts.len() > 2 {
                    component(parts[2].take(digit_prefix_len(parts[2]) as int))
                } else {
                    0
                },
            },
        )
    }
}

/// Tuple order on (major, minor, patch).
pub open spec fn compare_spec(a: VersionId, b: VersionId) -> std::cmp::Ordering {
    if a.major != b.major {
        if a.major < b.major {
            std::cmp::Ordering::Less
        } else {
            std::cmp::Ordering::Greater
        }
    } else if a.minor != b.minor {
        if a.minor < b.minor {
            std::cmp::Ordering::Less
        } else {
            std::cmp::Ordering::Greater
        }
    } else if a.patch != b.patch {
        if a.patch < b.patch {
            std::cmp::Ordering::Less
        } else {
            std::cmp::Ordering::Greater
        }
    } else {
        std::cmp::Ordering::Equal
    }
}

/// `a` comes no later than `b`.
pub open spec fn version_le(a: VersionId, b: VersionId) -> bool {
    compare_spec(a, b) != std::cmp::Ordering::Greater
}

/// The string denotes a version at or above `floor`.
pub open spec fn at_least_spec(s: Seq<char>, floor: VersionId) -> bool {
    match parse_spec(s) {
        Some(v) => version_le(floor, v),
        None => false,
    }
}

impl VersionId {
    pub fn new(major: u64, minor: u64, patch: u64) -> (r: VersionId)
        ensures
            r == (VersionId { major, minor, patch }),
    {
        VersionId { major, minor, patch }
    }
}

/// Reads a component from its characters, as `u64` parsing does.
pub fn parse_decimal(s: &Vec<char>) -> (r: Option<u64>)
    ensures
        r == decimal_u64(s@),
{
    let start: usize = if s.len() > 0 && s[0] == '+' {
        1
    } else {
        0
    };
    let ghost d = if s@.len() > 0 && s@[0] == '+' {
        s@.drop_first()
    } else {
        s@
    };
    assert(d =~= s@.subrange(start as int, s@.len() as int));
    if start >= s.len() {
        return None;
    }
    let mut acc: u64 = 0;
    let mut over: bool = false;
    let mut i: usize = start;
    while i < s.len()
        invariant
            start <= i <= s.len(),
            start < s.len(),
            d =~= s@.subrange(start as int, s@.len() as int),
            d == (if s@.len() > 0 && s@[0] == '+' {
                s@.drop_first()
            } else {
                s@
            }),
            all_digits(d.take(i - start)),
            !over ==> acc as nat == digits_value(d.take(i - start)),
            over ==> digits_value(d.take(i - start)) > u64::MAX,
        decreases s.len() - i,
    {
        let c = s[i];
        let ghost prev = d.take(i - start);
        let ghost next = d.take(i + 1 - start);
        assert(next.drop_last() =~= prev);
        assert(next.last() == c);
        if !((c as u32) >= 48 && (c as u32) <= 57) {
            assert(!all_digits(d)) by {
                assert(d[i - start] == c);
                assert(!is_digit(d[i - start]));
            }
            return None;
        }
        let dv: u64 = ((c as u32) - 48) as u64;
        assert(digits_value(next) == digits_value(prev) * 10 + dv);
        if !over {
            if acc > (u64::MAX - dv) / 10 {
                over = true;
                assert(digits_value(next) > u64::MAX) by (nonlinear_arith)
                    requires
                        acc > (u64::MAX - dv) / 10,
                        digits_value(next) == acc * 10 + dv,
                        dv <= 9,
                ;
            } else {
                assert(acc * 10 + dv <= u64::MAX) by (nonlinear_arith)
                    requires
                        acc <= (u64::MAX - dv) / 10,
                        dv <= 9,
                ;
                acc = acc * 10 + dv;
            }
        } else {
            assert(digits_value(next) > u64::MAX) by (nonlinear_arith)
                requires
                    digits_value(prev) > u64::MAX,
                    digits_value(next) == digits_value(prev) * 10 + dv,
            ;
        }
        i = i + 1;
    }
    assert(d.take(s.len() - start) =~= d);
    if over {
        None
    } else {
        Some(acc)
    }
}


proof fn lemma_split_nonempty(s: Seq<char>)
    ensures
        split_dots(s).len() >= 1,
    decreases s.len(),
{
    if s.len() > 0 {
        lemma_split_nonempty(s.drop_last());
    }
}

proof fn lemma_digit_prefix_len(s: Seq<char>, k: int)
    requires
        0 <= k <= s.len(),
        forall|j: int| 0 <= j < k ==> is_digit(#[trigger] s[j]),
        k == s.len() || !is_digit(s[k]),
    ensures
        digit_prefix_len(s) == k,
    decreases k,
{
    if k > 0 {
        let t = s.drop_first();
        assert forall|j: int| 0 <= j < k - 1 implies is_digit(#[trigger] t[j]) by {
            assert(t[j] == s[j + 1]);
        }
        lemma_digit_prefix_len(t, k - 1);
    }
}

/// The pieces of `s` between its dots.
pub fn split_on_dots(s: &Vec<char>) -> (r: Vec<Vec<char>>)
    ensures
        r@.len() == split_dots(s@).len(),
        forall|j: int| 0 <= j < r@.len() ==> (#[trigger] r@[j])@ == split_dots(s@)[j],
{
    let mut parts: Vec<Vec<char>> = Vec::new();
    parts.push(Vec::new());
    assert(s@.take(0) =~= Seq::<char>::empty());
    let mut i: usize = 0;
    while i < s.len()
        invariant
            i <= s.len(),
            parts@.len() == split_dots(s@.take(i as int)).len(),
            forall|j: int|
                0 <= j < parts@.len() ==> (#[trigger] parts@[j])@ == split_dots(
                    s@.take(i as int),
                )[j],
        decreases s.len() - i,
    {
        let c = s[i];
        let ghost prev = s@.take(i as int);
        let ghost next = s@.take(i + 1);
        assert(next.drop_last() =~= prev);
        assert(next.last() == c);
        proof {
            lemma_split_nonempty(prev);
        }
        if c == '.' {
            parts.push(Vec::new());
        } else {
            let mut cur = parts.pop().unwrap();
            cur.push(c);
            parts.push(cur);
        }
        assert forall|j: int| 0 <= j < parts@.len() implies (#[trigger] parts@[j])@ == split_dots(
            next,
        )[j] by {}
        i = i + 1;
    }
    assert(s@.take(s.len() as int) =~= s@);
    parts
}

/// The run of digits that `s` starts with.
pub fn digit_prefix(s: &Vec<char>) -> (r: Vec<char>)
    ensures
        r@ == s@.take(digit_prefix_len(s@) as int),
{
    let mut out: Vec<char> = Vec::new();
    let mut i: usize = 0;
    while i < s.len() && (s[i] as u32) >= 48 && (s[i] as u32) <= 57
        invariant
            i <= s.len(),
            out@ == s@.take(i as int),
            forall|j: int| 0 <= j < i ==> is_digit(#[trigger] s@[j]),
        decreases s.len() - i,
    {
        out.push(s[i]);
        i = i + 1;
        assert(out@ =~= s@.take(i as int));
    }
    proof {
        lemma_digit_prefix_len(s@, i as int);
    }
    out
}

/// Parses a version string; `None` when it has fewer than two dot-separated
/// pieces. Pieces that do not read as numbers count as zero.
pub fn parse_version(raw: &str) -> (r: Option<VersionId>)
    ensures
        r == parse_spec(raw@),
{
    let chars = chars_of(raw);
    let parts = split_on_dots(&chars);
    if parts.len() < 2 {
        return None;
    }
    let major = match parse_decimal(&parts[0]) {
        Some(v) => v,
        None => 0,
    };
    let minor = match parse_decimal(&parts[1]) {
        Some(v) => v,
        None => 0,
    };
    let patch = if parts.len() > 2 {
        let digits = digit_prefix(&parts[2]);
        match parse_decimal(&digits) {
            Some(v) => v,
            None => 0,
        }
    } else {
        0
    };
    Some(VersionId { major, minor, patch })
}

/// Orders two versions by (major, minor, patch).
pub fn compare(a: VersionId, b: VersionId) -> (r: std::cmp::Ordering)
    ensures
        r == compare_spec(a, b),
{
    if a.major != b.major {
        if a.major < b.major {
            std::cmp::Ordering::Less
        } else {
            std::cmp::Ordering::Greater
        }
    } else if a.minor != b.minor {
        if a.minor < b.minor {
            std::cmp::Ordering::Less
        } else {
            std::cmp::Ordering::Greater
        }
    } else if a.patch != b.patch {
        if a.patch < b.patch {
            std::cmp::Ordering::Less
        } else {
            std::cmp::Ordering::Greater
        }
    } else {
        std::cmp::Ordering::Equal
    }
}

/// Whether `ver` denotes a version at or above (min_major, min_minor,
/// min_patch); a string that denotes no version is not.
pub fn is_version_at_least(ver: &str, min_major: u64, min_minor: u64, min_patch: u64) -> (r: bool)
    ensures
        r == at_least_spec(
            ver@,
            (VersionId { major: min_major, minor: min_minor, patch: min_patch }),
        ),
{
    match parse_version(ver) {
        Some(v) => match compare(VersionId::new(min_major, min_minor, min_patch), v) {
            std::cmp::Ordering::Greater => false,
            _ => true,
        },
        None => false,
    }
}

/// The order on the versions that strings denote is total and strict-weak:
/// `a < b` exactly when `b > a`, `a == b` exactly when the parsed versions
/// agree, and both `<` and `<=` are transitive.
pub proof fn lemma_version_order(a: Seq<char>, b: Seq<char>, c: Seq<char>)
    requires
        parse_spec(a) is Some,
        parse_spec(b) is Some,
        parse_spec(c) is Some,
    ensures
        ({
            let (x, y, z) = (parse_spec(a)->0, parse_spec(b)->0, parse_spec(c)->0);
            &&& (compare_spec(x, y) == std::cmp::Ordering::Less <==> compare_spec(y, x)
                == std::cmp::Ordering::Greater)
            &&& (compare_spec(x, y) == std::cmp::Ordering::Equal <==> x == y)
            &&& (compare_spec(x, y) == std::cmp::Ordering::Equal <==> compare_spec(y, x)
                == std::cmp::Ordering::Equal)
            &&& (version_le(x, y) || version_le(y, x))
            &&& (version_le(x, y) && version_le(y, z) ==> version_le(x, z))
            &&& (compare_spec(x, y) == std::cmp::Ordering::Less && compare_spec(y, z)
                == std::cmp::Ordering::Less ==> compare_spec(x, z) == std::cmp::Ordering::Less)
        }),
{
}

} // verus!
