//! Character-level parsing utilities for the data-layout grammar: decimal
//! integers, colon-prefixed fields, and the tagged address-space segments.
//!
//! Every function consumes characters of a segment string and is specified
//! against the spec-level grammar functions defined here.

use vstd::prelude::*;
use vstd::string::StrSliceExecFns;

verus! {

/// Whether `c` is a decimal digit.
pub open spec fn is_digit(c: char) -> bool {
    48 <= c as int && c as int <= 57
}

/// The numeric value of the digit `c`.
pub open spec fn digit_val(c: char) -> int {
    c as int - 48
}

/// Whether every character of `s` is a decimal digit.
pub open spec fn all_digits(s: Seq<char>) -> bool {
    forall|i: int| 0 <= i < s.len() ==> is_digit(#[trigger] s[i])
}

/// Whether `s` is a decimal integer literal: nonempty, all digits, and
/// without a leading zero unless it is exactly `0`.
pub open spec fn is_int_literal(s: Seq<char>) -> bool {
    s.len() > 0 && all_digits(s) && (s[0] as int != 48 || s.len() == 1)
}

/// The value of the digit string `s`.
pub open spec fn dec_value(s: Seq<char>) -> int
    decreases s.len(),
{
    if s.len() == 0 {
        0
    } else {
        dec_value(s.drop_last()) * 10 + digit_val(s.last())
    }
}

/// The first position at or after `from` that does not hold a digit.
pub open spec fn digit_run_end(s: Seq<char>, from: int) -> int
    decreases s.len() - from,
{
    if from < 0 || from >= s.len() {
        from
    } else if is_digit(s[from]) {
        digit_run_end(s, from + 1)
    } else {
        from
    }
}

pub proof fn lemma_digit_run_end(s: Seq<char>, from: int)
    requires
        0 <= from <= s.len(),
    ensures
        from <= digit_run_end(s, from) <= s.len(),
        forall|i: int| from <= i < digit_run_end(s, from) ==> is_digit(#[trigger] s[i]),
        digit_run_end(s, from) == s.len() || !is_digit(s[digit_run_end(s, from)]),
    decreases s.len() - from,
{
    if from < s.len() && is_digit(s[from]) {
        lemma_digit_run_end(s, from + 1);
    }
}

/// Appending digits never decreases the value of a digit string.
proof fn lemma_dec_prefix_le(s: Seq<char>, from: int, a: int, b: int)
    requires
        0 <= from <= a <= b <= s.len(),
        forall|i: int| from <= i < b ==> is_digit(#[trigger] s[i]),
    ensures
        dec_value(s.subrange(from, a)) <= dec_value(s.subrange(from, b)),
    decreases b - a,
{
    if a < b {
        lemma_dec_prefix_le(s, from, a + 1, b);
        let t = s.subrange(from, a + 1);
        assert(t.drop_last() =~= s.subrange(from, a));
        assert(t.last() == s[a]);
        assert(dec_value(t) == dec_value(s.subrange(from, a)) * 10 + digit_val(s[a]));
        assert(dec_value(s.subrange(from, a)) >= 0) by {
            lemma_dec_value_nonneg(s.subrange(from, a));
        }
    }
}

proof fn lemma_dec_value_nonneg(s: Seq<char>)
    requires
        all_digits(s),
    ensures
        dec_value(s) >= 0,
    decreases s.len(),
{
    if s.len() > 0 {
        assert(s.drop_last() =~= s.subrange(0, s.len() - 1));
        assert(all_digits(s.drop_last()));
        lemma_dec_value_nonneg(s.drop_last());
        assert(is_digit(s.last()));
    }
}

/// Parses the maximal digit run of `s` starting at `from` as a decimal
/// integer, returning its value and the position just past it. Fails if
/// there is no digit at `from`, on a superfluous leading zero, and on a
/// value that does not fit.
pub fn pos_int(s: &str, from: usize) -> (r: Option<(usize, usize)>)
    requires
        from <= s@.len(),
    ensures
        match r {
            Some(v) => {
                &&& v.1 == digit_run_end(s@, from as int)
                &&& from < v.1 <= s@.len()
                &&& is_int_literal(s@.subrange(from as int, v.1 as int))
                &&& v.0 == dec_value(s@.subrange(from as int, v.1 as int))
            },
            None => {
                let end = digit_run_end(s@, from as int);
                end == from || !is_int_literal(s@.subrange(from as int, end)) || dec_value(
                    s@.subrange(from as int, end),
                ) > usize::MAX
            },
        },
{
    let n = s.unicode_len();
    proof {
        lemma_digit_run_end(s@, from as int);
    }
    let ghost end = digit_run_end(s@, from as int);
    if from == n {
        return None;
    }
    let first = s.get_char(from);
    let first_u = first as u32;
    if !(48 <= first_u && first_u <= 57) {
        return None;
    }
    let mut i: usize = from;
    let mut acc: usize = 0;
    while i < n
        invariant_except_break
            from <= i <= n,
            n == s@.len(),
            end == digit_run_end(s@, from as int),
            from <= end <= n,
            forall|k: int| from <= k < end ==> is_digit(#[trigger] s@[k]),
            end == s@.len() || !is_digit(s@[end as int]),
            i <= end,
            i == end || is_digit(s@[i as int]),
            acc == dec_value(s@.subrange(from as int, i as int)),
            all_digits(s@.subrange(from as int, i as int)),
        ensures
            n == s@.len(),
            from <= i <= n,
            i == end,
            acc == dec_value(s@.subrange(from as int, i as int)),
            all_digits(s@.subrange(from as int, i as int)),
        decreases n - i,
    {
        let c = s.get_char(i);
        let u = c as u32;
        if !(48 <= u && u <= 57) {
            proof {
                assert(i == end);
            }
            break ;
        }
        let d = (u - 48) as usize;
        if acc > (usize::MAX - d) / 10 {
            // The run's value exceeds the machine's range: the value of the
            // full run is at least the value of this prefix.
            proof {
                let t = s@.subrange(from as int, i + 1);
                assert(t.drop_last() =~= s@.subrange(from as int, i as int));
                assert(t.last() == s@[i as int]);
                assert(dec_value(t) == acc * 10 + d);
                assert(i + 1 <= end) by {
                    lemma_digit_run_end(s@, from as int);
                }
                lemma_dec_prefix_le(s@, from as int, i + 1, end);
                assert(dec_value(s@.subrange(from as int, end)) > usize::MAX);
            }
            return None;
        }
        acc = acc * 10 + d;
        proof {
            let t = s@.subrange(from as int, i + 1);
            assert(t.drop_last() =~= s@.subrange(from as int, i as int));
            assert(t.last() == s@[i as int]);
            assert(i + 1 <= end) by {
                lemma_digit_run_end(s@, from as int);
            }
        }
        i += 1;
    }
    proof {
        assert(i == end);
    }
    if first == '0' && i > from + 1 {
        proof {
            assert(s@.subrange(from as int, end)[0] == s@[from as int]);
            assert(s@[from as int] as u32 == 48);
        }
        return None;
    }
    proof {
        assert(s@.subrange(from as int, end)[0] == s@[from as int]);
    }
    Some((acc, i))
}

/// Parses a field: a colon followed by a decimal integer, starting at
/// `from`. Returns the value and the position just past it.
pub fn field(s: &str, from: usize) -> (r: Option<(usize, usize)>)
    requires
        from <= s@.len(),
    ensures
        match r {
            Some(v) => {
                &&& from < s@.len() && s@[from as int] == ':'
                &&& v.1 == digit_run_end(s@, from + 1)
                &&& from + 1 < v.1 <= s@.len()
                &&& is_int_literal(s@.subrange(from + 1, v.1 as int))
                &&& v.0 == dec_value(s@.subrange(from + 1, v.1 as int))
            },
            None => from >= s@.len() || s@[from as int] != ':' || {
                let end = digit_run_end(s@, from + 1);
                end == from + 1 || !is_int_literal(s@.subrange(from + 1, end)) || dec_value(
                    s@.subrange(from + 1, end),
                ) > usize::MAX
            },
        },
{
    let n = s.unicode_len();
    if from == n {
        return None;
    }
    if s.get_char(from) != ':' {
        return None;
    }
    pos_int(s, from + 1)
}

/// The value of a whole segment of the shape `<tag><int>`, if it has it.
pub open spec fn tagged_int_spec(tag: char, s: Seq<char>) -> Option<int> {
    if s.len() >= 2 && s[0] == tag && is_int_literal(s.subrange(1, s.len() as int)) && dec_value(
        s.subrange(1, s.len() as int),
    ) <= usize::MAX {
        Some(dec_value(s.subrange(1, s.len() as int)))
    } else {
        Option::<int>::None
    }
}

/// Parses a whole segment of the shape `<tag><int>`.
fn tagged_int(tag: char, s: &str) -> (r: Option<usize>)
    ensures
        match r {
            Some(v) => tagged_int_spec(tag, s@) == Some(v as int),
            None => tagged_int_spec(tag, s@) is None,
        },
{
    let n = s.unicode_len();
    if n < 2 {
        return None;
    }
    if s.get_char(0) != tag {
        return None;
    }
    match pos_int(s, 1) {
        Some((v, end)) => {
            if end == n {
                proof {
                    assert(s@.subrange(1, s@.len() as int) =~= s@.subrange(1, end as int));
                }
                Some(v)
            } else {
                // Trailing characters after the digits: not a pure segment.
                proof {
                    lemma_digit_run_end(s@, 1);
                    if is_int_literal(s@.subrange(1, s@.len() as int)) {
                        assert(s@.subrange(1, s@.len() as int)[end - 1] == s@[end as int]);
                        assert(is_digit(s@[end as int]));
                    }
                }
                None
            }
        },
        None => {
            proof {
                lemma_digit_run_end(s@, 1);
                if is_int_literal(s@.subrange(1, s@.len() as int)) && dec_value(
                    s@.subrange(1, s@.len() as int),
                ) <= usize::MAX {
                    let end = digit_run_end(s@, 1);
                    assert forall|i: int| 1 <= i < s@.len() implies is_digit(
                        #[trigger] s@[i],
                    ) by {
                        assert(s@.subrange(1, s@.len() as int)[i - 1] == s@[i]);
                    }
                    assert(end == s@.len());
                    assert(s@.subrange(1, end) =~= s@.subrange(1, s@.len() as int));
                }
            }
            None
        },
    }
}

/// Parses the program address space segment, of the shape `P<int>`.
pub fn program_address_space(s: &str) -> (r: Option<usize>)
    ensures
        match r {
            Some(v) => tagged_int_spec('P', s@) == Some(v as int),
            None => tagged_int_spec('P', s@) is None,
        },
{
    tagged_int('P', s)
}

/// Parses the global address space segment, of the shape `G<int>`.
pub fn global_address_space(s: &str) -> (r: Option<usize>)
    ensures
        match r {
            Some(v) => tagged_int_spec('G', s@) == Some(v as int),
            None => tagged_int_spec('G', s@) is None,
        },
{
    tagged_int('G', s)
}

/// Parses the alloc address space segment, of the shape `A<int>`.
pub fn alloc_address_space(s: &str) -> (r: Option<usize>)
    ensures
        match r {
            Some(v) => tagged_int_spec('A', s@) == Some(v as int),
            None => tagged_int_spec('A', s@) is None,
        },
{
    tagged_int('A', s)
}

/// The stack alignment segment, of the shape `S<int>`, where the alignment
/// must fall on a byte boundary.
pub open spec fn stack_alignment_spec(s: Seq<char>) -> Option<int> {
    match tagged_int_spec('S', s) {
        Some(v) => if v % 8 == 0 {
            Some(v)
        } else {
            Option::<int>::None
        },
        Option::<int>::None => Option::<int>::None,
    }
}

/// Parses the stack alignment segment, of the shape `S<int>`; the alignment
/// must fall on a byte boundary.
pub fn stack_alignment(s: &str) -> (r: Option<usize>)
    ensures
        match r {
            Some(v) => stack_alignment_spec(s@) == Some(v as int),
            None => stack_alignment_spec(s@) is None,
        },
{
    match tagged_int('S', s) {
        Some(v) => if v % 8 == 0 {
            Some(v)
        } else {
            None
        },
        None => None,
    }
}

} // verus!
