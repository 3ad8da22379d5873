//! The packed 64-bit version number of a version string: up to four
//! dot-separated decimal components, 16 bits each, most significant first.
use vstd::prelude::*;
use crate::text::chars_of;

verus! {

/// Number of components of a Windows version number.
pub const WINDOWS_VERSION_COMPONENT_COUNT: usize = 4;

/// The version string split at its first three dots: at most four parts,
/// the last one keeping any further dots.
pub open spec fn split_version_components(s: Seq<char>) -> Seq<Seq<char>>
    decreases s.len(),
{
    if s.len() == 0 {
        seq![Seq::<char>::empty()]
    } else {
        let parts = split_version_components(s.drop_last());
        let c = s.last();
        if c == '.' && parts.len() < 4 {
            parts.push(Seq::<char>::empty())
        } else {
            parts.update(parts.len() - 1, parts.last().push(c))
        }
    }
}

pub open spec fn is_decimal_digit(c: char) -> bool {
    '0' <= c && c <= '9'
}

pub open spec fn digit_value(c: char) -> int {
    c as int - '0' as int
}

/// The number that a sequence of decimal digits denotes.
pub open spec fn decimal_value(digits: Seq<char>) -> int
    decreases digits.len(),
{
    if digits.len() == 0 {
        0
    } else {
        10 * decimal_value(digits.drop_last()) + digit_value(digits.last())
    }
}

pub open spec fn all_decimal_digits(s: Seq<char>) -> bool {
    forall|i: int| 0 <= i < s.len() ==> is_decimal_digit(#[trigger] s[i])
}

/// The digits of a number text, after an optional leading `+`.
pub open spec fn unsigned_digits(s: Seq<char>) -> Seq<char> {
    if s.len() > 0 && s[0] == '+' {
        s.drop_first()
    } else {
        s
    }
}

/// The unsigned 64-bit number that a text denotes: an optional `+`, then
/// one or more decimal digits whose value fits in 64 bits.
pub open spec fn parse_u64(s: Seq<char>) -> Option<u64> {
    let digits = unsigned_digits(s);
    if digits.len() > 0 && all_decimal_digits(digits) && decimal_value(digits) <= u64::MAX {
        Some(decimal_value(digits) as u64)
    } else {
        None
    }
}

/// The value of the `i`-th component, zero where it is absent or is no
/// unsigned number.
pub open spec fn component_or_zero(parts: Seq<Seq<char>>, i: int) -> u64 {
    if 0 <= i < parts.len() {
        match parse_u64(parts[i]) {
            Some(v) => v,
            None => 0,
        }
    } else {
        0
    }
}

/// The packed version: major, minor, patch and build shifted to bits 48,
/// 32, 16 and 0 of a 64-bit value (bits shifted past 64 are lost, and a
/// component wider than its 16-bit field overlaps the next one).
pub open spec fn packed_version(s: Seq<char>) -> u64 {
    let parts = split_version_components(s);
    (component_or_zero(parts, 0) << 48u64) | (component_or_zero(parts, 1) << 32u64) | (
    component_or_zero(parts, 2) << 16u64) | component_or_zero(parts, 3)
}

proof fn lemma_decimal_value_nonneg(digits: Seq<char>)
    requires
        all_decimal_digits(digits),
    ensures
        decimal_value(digits) >= 0,
    decreases digits.len(),
{
    if digits.len() > 0 {
        lemma_decimal_value_nonneg(digits.drop_last());
        assert(is_decimal_digit(digits[digits.len() - 1]));
    }
}

proof fn lemma_decimal_value_prefix(digits: Seq<char>, k: int)
    requires
        all_decimal_digits(digits),
        0 <= k <= digits.len(),
    ensures
        decimal_value(digits.take(k)) <= decimal_value(digits),
    decreases digits.len() - k,
{
    if k < digits.len() {
        let next = digits.take(k + 1);
        assert(next.drop_last() == digits.take(k));
        assert(is_decimal_digit(next[k]));
        assert(all_decimal_digits(digits.take(k))) by {
            assert forall|i: int| 0 <= i < k implies is_decimal_digit(#[trigger] digits.take(k)[i]) by {
                assert(digits.take(k)[i] == digits[i]);
            }
        }
        lemma_decimal_value_nonneg(digits.take(k));
        lemma_decimal_value_prefix(digits, k + 1);
    } else {
        assert(digits.take(k) == digits);
    }
}

/// Parses `chars[start..end]` as an unsigned 64-bit number.
fn parse_component(chars: &Vec<char>, start: usize, end: usize) -> (value: Option<u64>)
    requires
        start <= end <= chars@.len(),
    ensures
        value == parse_u64(chars@.subrange(start as int, end as int)),
{
    let ghost text = chars@.subrange(start as int, end as int);
    let ghost digits = unsigned_digits(text);
    let mut first: usize = start;
    if start < end && chars[start] == '+' {
        first = start + 1;
    }
    assert(digits == chars@.subrange(first as int, end as int));
    if first == end {
        return None;
    }
    let mut value: u64 = 0;
    let mut j: usize = first;
    while j < end
        invariant
            first <= j <= end <= chars@.len(),
            start <= end,
            digits == unsigned_digits(chars@.subrange(start as int, end as int)),
            digits == chars@.subrange(first as int, end as int),
            digits.len() > 0,
            all_decimal_digits(digits.take(j - first)),
            value == decimal_value(digits.take(j - first)),
        decreases end - j,
    {
        let c = chars[j];
        let ghost k: int = j - first;
        assert(digits[k] == c);
        assert(digits.take(k + 1).drop_last() == digits.take(k));
        if !('0' <= c && c <= '9') {
            assert(!is_decimal_digit(digits[k]));
            return None;
        }
        let d: u64 = (c as u32 - '0' as u32) as u64;
        let scaled = value.checked_mul(10);
        if scaled.is_none() {
            proof {
                assert(digits.take(k + 1).last() == c);
                assert(decimal_value(digits.take(k + 1)) == 10 * value + digit_value(c));
                if all_decimal_digits(digits) {
                    lemma_decimal_value_nonneg(digits.take(k));
                    lemma_decimal_value_prefix(digits, k + 1);
                }
            }
            return None;
        }
        let next = scaled.unwrap().checked_add(d);
        if next.is_none() {
            proof {
                assert(digits.take(k + 1).last() == c);
                assert(decimal_value(digits.take(k + 1)) == 10 * value + digit_value(c));
                if all_decimal_digits(digits) {
                    lemma_decimal_value_prefix(digits, k + 1);
                }
            }
            return None;
        }
        value = next.unwrap();
        j = j + 1;
        assert(all_decimal_digits(digits.take(j - first))) by {
            assert forall|i: int| 0 <= i < j - first implies is_decimal_digit(
                #[trigger] digits.take(j - first)[i],
            ) by {
                if i < k {
                    assert(digits.take(j - first)[i] == digits.take(k)[i]);
                }
            }
        }
    }
    assert(digits.take(end - first) == digits);
    Some(value)
}

/// The text pieces that the component boundaries `starts` and `ends` cut
/// out of `chars`.
pub open spec fn component_texts(chars: Seq<char>, starts: Seq<usize>, ends: Seq<usize>) -> Seq<Seq<char>> {
    Seq::new(starts.len(), |p: int| chars.subrange(starts[p] as int, ends[p] as int))
}

/// Packs a version string into the 64-bit form that `VS_FIXEDFILEINFO`
/// holds: the string is split at its first three dots, each part that is
/// an unsigned number gives its component and any other part, or a missing
/// one, gives zero.
pub fn parse_version_string(version_string: &str) -> (version: u64)
    ensures
        version == packed_version(version_string@),
{
    let chars = chars_of(version_string);
    // Start and end of each component found so far; the last one is open.
    let mut starts: Vec<usize> = Vec::new();
    let mut ends: Vec<usize> = Vec::new();
    starts.push(0);
    ends.push(0);
    proof {
        assert(chars@.take(0) == Seq::<char>::empty());
        assert(component_texts(chars@, starts@, ends@) == split_version_components(chars@.take(0)));
    }
    let mut i: usize = 0;
    while i < chars.len()
        invariant
            i <= chars@.len(),
            chars@ == version_string@,
            starts@.len() == ends@.len(),
            1 <= starts@.len() <= WINDOWS_VERSION_COMPONENT_COUNT,
            ends@[ends@.len() - 1] == i,
            forall|p: int| #![trigger starts@[p]] 0 <= p < starts@.len() ==> starts@[p] <= ends@[p] && ends@[p] <= i,
            split_version_components(chars@.take(i as int)) == component_texts(chars@, starts@, ends@),
        decreases chars@.len() - i,
    {
        let ghost prefix = chars@.take(i as int);
        let ghost parts = split_version_components(prefix);
        let ghost old_starts = starts@;
        let ghost old_ends = ends@;
        proof {
            assert(chars@.take(i + 1).drop_last() == prefix);
            assert(chars@.take(i + 1).last() == chars@[i as int]);
        }
        if chars[i] == '.' && starts.len() < WINDOWS_VERSION_COMPONENT_COUNT {
            starts.push(i + 1);
            ends.push(i + 1);
            proof {
                let next = split_version_components(chars@.take(i + 1));
                assert(next == parts.push(Seq::<char>::empty()));
                assert forall|q: int| #![trigger starts@[q]] 0 <= q < starts@.len() implies starts@[q] <= ends@[q] && ends@[q] <= i + 1 by {
                    if q < old_starts.len() {
                        assert(starts@[q] == old_starts[q]);
                        assert(ends@[q] == old_ends[q]);
                        assert(old_starts[q] <= old_ends[q] <= i);
                    }
                }
                assert(chars@.subrange(i + 1, i + 1) == Seq::<char>::empty());
                assert(next == component_texts(chars@, starts@, ends@));
            }
        } else {
            let last = ends.len() - 1;
            ends.set(last, i + 1);
            proof {
                let next = split_version_components(chars@.take(i + 1));
                assert(next == parts.update(parts.len() - 1, parts.last().push(chars@[i as int])));
                assert forall|q: int| #![trigger starts@[q]] 0 <= q < starts@.len() implies starts@[q] <= ends@[q] && ends@[q] <= i + 1 by {
                    if q < last {
                        assert(starts@[q] == old_starts[q]);
                        assert(ends@[q] == old_ends[q]);
                        assert(old_starts[q] <= old_ends[q] <= i);
                    } else {
                        assert(old_starts[q] <= old_ends[q] <= i);
                    }
                }
                assert(parts.last() == chars@.subrange(starts@[last as int] as int, i as int));
                assert(chars@.subrange(starts@[last as int] as int, i + 1) == chars@.subrange(
                    starts@[last as int] as int,
                    i as int,
                ).push(chars@[i as int]));
                assert(next == component_texts(chars@, starts@, ends@));
            }
        }
        assert(forall|p: int| #![trigger starts@[p]] 0 <= p < starts@.len() ==> starts@[p] <= ends@[p] && ends@[p] <= i + 1);
        i = i + 1;
        assert(forall|p: int| #![trigger starts@[p]] 0 <= p < starts@.len() ==> starts@[p] <= ends@[p] && ends@[p] <= i);
    }
    proof {
        assert(chars@.take(chars@.len() as int) == chars@);
    }
    let ghost parts = split_version_components(version_string@);
    let mut components: Vec<u64> = Vec::new();
    let mut p: usize = 0;
    while p < WINDOWS_VERSION_COMPONENT_COUNT
        invariant
            p <= WINDOWS_VERSION_COMPONENT_COUNT,
            chars@ == version_string@,
            parts == split_version_components(version_string@),
            starts@.len() == ends@.len(),
            forall|q: int| #![trigger starts@[q]] 0 <= q < starts@.len() ==> starts@[q] <= ends@[q] && ends@[q] <= chars@.len(),
            parts == component_texts(chars@, starts@, ends@),
            components@.len() == p,
            forall|q: int| 0 <= q < p ==> #[trigger] components@[q] == component_or_zero(parts, q),
        decreases WINDOWS_VERSION_COMPONENT_COUNT - p,
    {
        if p < starts.len() {
            assert(starts@[p as int] <= ends@[p as int] <= chars@.len());
            let parsed = parse_component(&chars, starts[p], ends[p]);
            assert(parts[p as int] == chars@.subrange(starts@[p as int] as int, ends@[p as int] as int));
            match parsed {
                Some(v) => components.push(v),
                None => components.push(0),
            }
        } else {
            components.push(0);
        }
        p = p + 1;
    }
    let major = components[0];
    let minor = components[1];
    let patch = components[2];
    let build = components[3];
    (major << 48u64) | (minor << 32u64) | (patch << 16u64) | build
}

/// Components that fit in 16 bits each read back from their fields of the
/// packed version: major in the top 16 bits, then minor, patch and build.
pub proof fn lemma_packed_version_fields(s: Seq<char>)
    requires
        component_or_zero(split_version_components(s), 0) < 0x10000,
        component_or_zero(split_version_components(s), 1) < 0x10000,
        component_or_zero(split_version_components(s), 2) < 0x10000,
        component_or_zero(split_version_components(s), 3) < 0x10000,
    ensures
        ({
            let parts = split_version_components(s);
            let v = packed_version(s);
            &&& v / 0x1_0000_0000_0000 == component_or_zero(parts, 0)
            &&& (v / 0x1_0000_0000) % 0x10000 == component_or_zero(parts, 1)
            &&& (v / 0x10000) % 0x10000 == component_or_zero(parts, 2)
            &&& v % 0x10000 == component_or_zero(parts, 3)
        }),
{
    let parts = split_version_components(s);
    let a = component_or_zero(parts, 0);
    let b = component_or_zero(parts, 1);
    let c = component_or_zero(parts, 2);
    let d = component_or_zero(parts, 3);
    assert({
        let v: u64 = (a << 48u64) | (b << 32u64) | (c << 16u64) | d;
        &&& v / 0x1_0000_0000_0000 == a
        &&& (v / 0x1_0000_0000) % 0x10000 == b
        &&& (v / 0x10000) % 0x10000 == c
        &&& v % 0x10000 == d
    }) by (bit_vector)
        requires
            a < 0x10000,
            b < 0x10000,
            c < 0x10000,
            d < 0x10000,
    ;
}

} // verus!

