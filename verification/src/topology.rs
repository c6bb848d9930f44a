//! Topology detection: how many logical cores the per-core identifier
//! scan found, and the first-seen package map the scan keeps on the
//! side.

use vstd::prelude::*;
use crate::metrics::{MAX_CPUS, MAX_PACKAGES};

verus! {

/// Core count from a readability scan: the scan walks core indices from
/// zero and stops at the first index whose identifier it cannot read, so
/// the count is the length of the longest readable prefix. An unreadable
/// index zero gives zero — no usable cores.
pub fn topology_count(readable: &Vec<bool>) -> (n: usize)
    ensures
        n <= readable@.len(),
        forall|i: int| 0 <= i < n ==> readable@[i],
        n < readable@.len() ==> !readable@[n as int],
{
    let mut i: usize = 0;
    while i < readable.len()
        invariant
            i <= readable@.len(),
            forall|j: int| 0 <= j < i ==> readable@[j],
        decreases readable@.len() - i,
    {
        if !readable[i] {
            return i;
        }
        i = i + 1;
    }
    i
}

/// `b` is an ASCII decimal digit.
pub open spec fn is_digit(b: u8) -> bool {
    0x30 <= b <= 0x39
}

/// `b` is ASCII whitespace as the identifier text is trimmed.
pub open spec fn is_space(b: u8) -> bool {
    b == 0x20 || b == 0x09 || b == 0x0A || b == 0x0B || b == 0x0C || b == 0x0D
}

/// `s` without its leading whitespace.
pub open spec fn trim_front(s: Seq<u8>) -> Seq<u8>
    decreases s.len(),
{
    if s.len() > 0 && is_space(s[0]) {
        trim_front(s.drop_first())
    } else {
        s
    }
}

/// `s` without its trailing whitespace.
pub open spec fn trim_back(s: Seq<u8>) -> Seq<u8>
    decreases s.len(),
{
    if s.len() > 0 && is_space(s.last()) {
        trim_back(s.drop_last())
    } else {
        s
    }
}

/// `s` without leading and trailing whitespace.
pub open spec fn trimmed(s: Seq<u8>) -> Seq<u8> {
    trim_back(trim_front(s))
}

/// Value of a run of decimal digits.
pub open spec fn digits_value(s: Seq<u8>) -> int
    decreases s.len(),
{
    if s.len() == 0 {
        0
    } else {
        digits_value(s.drop_last()) * 10 + (s.last() - 0x30)
    }
}

/// The text is a decimal integer as the identifier file holds one: an
/// optional sign followed by at least one digit, nothing else.
pub open spec fn is_int_text(s: Seq<u8>) -> bool {
    &&& s.len() > 0
    &&& (is_digit(s[0]) || ((s[0] == 0x2B || s[0] == 0x2D) && s.len() > 1))
    &&& forall|i: int| 1 <= i < s.len() ==> is_digit(#[trigger] s[i])
}

/// The signed value of a decimal integer text.
pub open spec fn int_text_value(s: Seq<u8>) -> int {
    if s[0] == 0x2D {
        -digits_value(s.subrange(1, s.len() as int))
    } else if s[0] == 0x2B {
        digits_value(s.subrange(1, s.len() as int))
    } else {
        digits_value(s)
    }
}

/// Dropping `k` leading spaces up to the first non-space yields the
/// front-trimmed sequence.
proof fn lemma_trim_front_skip(s: Seq<u8>, k: int)
    requires
        0 <= k <= s.len(),
        forall|i: int| 0 <= i < k ==> is_space(#[trigger] s[i]),
        k < s.len() ==> !is_space(s[k]),
    ensures
        trim_front(s) == s.subrange(k, s.len() as int),
    decreases k,
{
    if k == 0 {
        assert(s.subrange(0, s.len() as int) =~= s);
    } else {
        lemma_trim_front_skip(s.drop_first(), k - 1);
        assert(s.drop_first().subrange(k - 1, s.drop_first().len() as int) =~= s.subrange(
            k,
            s.len() as int,
        ));
    }
}

/// Keeping the first `k` bytes when everything after them is a space
/// yields the back-trimmed sequence.
proof fn lemma_trim_back_skip(s: Seq<u8>, k: int)
    requires
        0 <= k <= s.len(),
        forall|i: int| k <= i < s.len() ==> is_space(#[trigger] s[i]),
        k > 0 ==> !is_space(s[k - 1]),
    ensures
        trim_back(s) == s.subrange(0, k),
    decreases s.len(),
{
    if k == s.len() {
        if s.len() == 0 {
            assert(s.subrange(0, 0) =~= s);
        } else {
            assert(s.subrange(0, k) =~= s);
        }
    } else {
        lemma_trim_back_skip(s.drop_last(), k);
        assert(s.drop_last().subrange(0, k) =~= s.subrange(0, k));
    }
}

/// A run of digits has a non-negative value.
proof fn lemma_digits_nonneg(s: Seq<u8>)
    requires
        forall|i: int| 0 <= i < s.len() ==> is_digit(#[trigger] s[i]),
    ensures
        digits_value(s) >= 0,
    decreases s.len(),
{
    if s.len() > 0 {
        lemma_digits_nonneg(s.drop_last());
    }
}

/// Taking one more digit multiplies the prefix value by ten and adds the
/// digit.
proof fn lemma_digits_take_step(s: Seq<u8>, i: int)
    requires
        0 <= i < s.len(),
    ensures
        digits_value(s.take(i + 1)) == digits_value(s.take(i)) * 10 + (s[i] - 0x30),
{
    assert(s.take(i + 1).drop_last() =~= s.take(i));
    assert(s.take(i + 1).last() == s[i]);
}

/// More digits never shrink the value: any prefix of a digit run is
/// worth at most the whole run.
proof fn lemma_digits_prefix_le(s: Seq<u8>, i: int)
    requires
        0 <= i <= s.len(),
        forall|j: int| 0 <= j < s.len() ==> is_digit(#[trigger] s[j]),
    ensures
        digits_value(s.take(i)) <= digits_value(s),
    decreases s.len() - i,
{
    if i == s.len() {
        assert(s.take(i) =~= s);
    } else {
        lemma_digits_take_step(s, i);
        assert(forall|j: int| 0 <= j < s.take(i).len() ==> is_digit(#[trigger] s.take(i)[j]));
        lemma_digits_nonneg(s.take(i));
        lemma_digits_prefix_le(s, i + 1);
    }
}

/// Whether a byte is whitespace the trim drops.
fn space_byte(b: u8) -> (r: bool)
    ensures
        r == is_space(b),
{
    b == 0x20 || b == 0x09 || b == 0x0A || b == 0x0B || b == 0x0C || b == 0x0D
}

/// Parses the package identifier from the text of a topology identifier
/// file: whitespace-trimmed, an optional sign, then decimal digits, with
/// the value held to the 32-bit signed range. Any other text — and any
/// value outside that range — yields `-1`, the marker the scan uses for
/// an unusable identifier.
pub fn parse_package_id(text: &Vec<u8>) -> (id: i64)
    ensures
        ({
            let t = trimmed(text@);
            if is_int_text(t) && -0x80000000 <= int_text_value(t) <= 0x7FFFFFFF {
                id == int_text_value(t)
            } else {
                id == -1
            }
        }),
{
    let len = text.len();

    let mut lo: usize = 0;
    while lo < len && space_byte(text[lo])
        invariant
            len == text@.len(),
            lo <= len,
            forall|i: int| 0 <= i < lo ==> is_space(#[trigger] text@[i]),
        decreases len - lo,
    {
        lo = lo + 1;
    }

    let mut hi: usize = len;
    while hi > lo && space_byte(text[hi - 1])
        invariant
            len == text@.len(),
            lo <= hi <= len,
            forall|i: int| hi <= i < len ==> is_space(#[trigger] text@[i]),
        decreases hi,
    {
        hi = hi - 1;
    }

    let ghost t = text@.subrange(lo as int, hi as int);
    proof {
        lemma_trim_front_skip(text@, lo as int);
        if hi == lo {
            lemma_trim_back_skip(
                text@.subrange(lo as int, len as int),
                0,
            );
        } else {
            lemma_trim_back_skip(
                text@.subrange(lo as int, len as int),
                hi - lo,
            );
        }
        assert(text@.subrange(lo as int, len as int).subrange(0, hi - lo) =~= t);
        assert(trimmed(text@) == t);
    }

    if hi == lo {
        // nothing but whitespace
        return -1;
    }
    let head = text[lo];
    let negative = head == 0x2D;
    let signed = negative || head == 0x2B;
    let start: usize = if signed {
        lo + 1
    } else {
        lo
    };
    if signed && start == hi {
        // a sign with no digits after it
        return -1;
    }
    if !signed && !(head >= 0x30 && head <= 0x39) {
        // neither a sign nor a digit in front
        return -1;
    }

    let ghost dd = text@.subrange(start as int, hi as int);
    proof {
        if signed {
            assert(t.subrange(1, t.len() as int) =~= dd);
        } else {
            assert(t =~= dd);
        }
    }

    let mut acc: i64 = 0;
    let mut i: usize = start;
    while i < hi
        invariant
            len == text@.len(),
            lo <= start <= i <= hi <= len,
            t == text@.subrange(lo as int, hi as int),
            t == trimmed(text@),
            dd == text@.subrange(start as int, hi as int),
            signed ==> start == lo + 1 && (t[0] == 0x2B || t[0] == 0x2D) && t.len() > 1,
            !signed ==> start == lo && is_digit(t[0]),
            negative ==> t[0] == 0x2D,
            !negative && signed ==> t[0] == 0x2B,
            forall|j: int| start <= j < i ==> is_digit(#[trigger] text@[j]),
            acc == digits_value(dd.take(i - start)),
            0 <= acc <= 0x80000000,
        decreases hi - i,
    {
        let b = text[i];
        if !(b >= 0x30 && b <= 0x39) {
            // a non-digit inside the number
            proof {
                assert(t[i - lo] == text@[i as int]);
                assert(!is_int_text(t));
            }
            return -1;
        }
        proof {
            lemma_digits_take_step(dd, i - start);
            assert(dd[i - start] == text@[i as int]);
        }
        acc = acc * 10 + ((b - 0x30) as i64);
        i = i + 1;
        if acc > 0x80000000 {
            // already past the 32-bit range; further digits only grow it
            proof {
                if is_int_text(t) {
                    assert forall|j: int| 0 <= j < dd.len() implies is_digit(#[trigger] dd[j]) by {
                        assert(dd[j] == t[j + (start - lo)]);
                        if j + (start - lo) >= 1 {
                            assert(is_digit(t[j + (start - lo)]));
                        } else {
                            assert(is_digit(t[0]));
                        }
                    }
                    lemma_digits_prefix_le(dd, i - start);
                    assert(dd.take(dd.len() as int) =~= dd);
                    if signed {
                        assert(t.subrange(1, t.len() as int) =~= dd);
                    } else {
                        assert(t =~= dd);
                    }
                }
            }
            return -1;
        }
    }
    proof {
        assert(dd.take(dd.len() as int) =~= dd);
        assert(is_int_text(t)) by {
            assert(forall|j: int|
                1 <= j < t.len() ==> t[j] == text@[lo + j] && is_digit(#[trigger] t[j]));
        }
    }
    if negative {
        -acc
    } else {
        if acc > 0x7FFFFFFF {
            // too large for the 32-bit signed range
            return -1;
        }
        acc
    }
}

/// What a first-seen entry must say: `v` is `-1` when no core reported
/// package `p`, and otherwise the first core index that did.
pub open spec fn first_seen_ok(ids: Seq<i64>, p: int, v: int) -> bool {
    if v == -1 {
        forall|i: int| 0 <= i < ids.len() ==> ids[i] != p
    } else {
        &&& 0 <= v < ids.len()
        &&& ids[v] == p
        &&& forall|i: int| 0 <= i < v ==> ids[i] != p
    }
}

/// The first core index whose package identifier equals `p`, or `-1`
/// when none does.
fn first_index_of(ids: &Vec<i64>, p: i64) -> (v: i64)
    requires
        ids@.len() <= MAX_CPUS,
    ensures
        first_seen_ok(ids@, p as int, v as int),
{
    let mut i: usize = 0;
    while i < ids.len()
        invariant
            ids@.len() <= MAX_CPUS,
            i <= ids@.len(),
            forall|j: int| 0 <= j < i ==> ids@[j] != p,
        decreases ids@.len() - i,
    {
        if ids[i] == p {
            return i as i64;
        }
        i = i + 1;
    }
    -1
}

/// First core index seen for each package identifier from zero up to the
/// slot cap, `-1` where no scanned core reported that package. The scan
/// keeps this map as groundwork for package-aware aggregation but does
/// not yet feed it onward.
pub fn first_seen_packages(package_ids: &Vec<i64>) -> (m: Vec<i64>)
    requires
        package_ids@.len() <= MAX_CPUS,
    ensures
        m@.len() == MAX_PACKAGES,
        forall|p: int|
            0 <= p < MAX_PACKAGES ==> first_seen_ok(package_ids@, p, #[trigger] m@[p] as int),
{
    let mut m: Vec<i64> = Vec::new();
    let mut p: usize = 0;
    while p < MAX_PACKAGES
        invariant
            package_ids@.len() <= MAX_CPUS,
            p <= MAX_PACKAGES,
            m@.len() == p,
            forall|q: int| 0 <= q < p ==> first_seen_ok(package_ids@, q, #[trigger] m@[q] as int),
        decreases MAX_PACKAGES - p,
    {
        let v = first_index_of(package_ids, p as i64);
        m.push(v);
        p = p + 1;
    }
    m
}

} // verus!
