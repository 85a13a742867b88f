//! The [`DataLayout`] struct and the parser for the textual data-layout
//! descriptor: a `-`-separated list of segments, each describing the
//! endianness, mangling, alignment or type-layout rules of the module.
//!
//! Each segment parser is specified against a spec-level grammar function;
//! [`DataLayout::new`] folds the segments over a default layout and is
//! specified by [`fold_layout`] and [`add_defaults`].

use vstd::multiset::Multiset;
use vstd::prelude::*;
use vstd::string::StrSliceExecFns;

use crate::constant::BYTE_SIZE;
use crate::errors::Error;
use crate::parsing::{
    alloc_address_space, dec_value, digit_run_end, global_address_space, is_int_literal,
    program_address_space, stack_alignment, stack_alignment_spec, tagged_int_spec, pos_int,
};

verus! {

/// A description of the endianness used when laying out data.
#[derive(Clone, Copy, Debug, PartialEq, Eq, Structural)]
pub enum Endianness {
    /// Little-endian: least-significant byte first.
    Little,

    /// Big-endian: most-significant byte first.
    Big,
}

/// A description of the mangling scheme used by this module.
#[derive(Clone, Copy, Debug, PartialEq, Eq, Structural)]
pub enum Mangling {
    /// The Unix COFF mangling scheme.
    COFF,

    /// The Windows x86 COFF mangling scheme.
    COFF86,

    /// The ELF mangling scheme.
    ELF,

    /// The GOFF mangling scheme.
    GOFF,

    /// The Mach-O mangling scheme.
    MachO,

    /// The MIPS mangling scheme.
    MIPS,

    /// The XCOFF mangling scheme.
    XCOFF,
}

/// A specification of the pointer layout for an address space.
#[derive(Clone, Copy, Debug, PartialEq, Eq, Structural)]
pub struct PointerLayout {
    /// The address space for which the pointer is being specified.
    pub address_space: usize,

    /// The size of the pointer.
    pub size: usize,

    /// The required ABI alignment for the pointer.
    pub abi_alignment: usize,

    /// The preferred alignment for the pointer.
    pub preferred_alignment: usize,

    /// The size of the index used for address calculation.
    pub index_size: usize,
}

/// A specification of an integer layout.
#[derive(Clone, Copy, Debug, PartialEq, Eq, Structural)]
pub struct IntegerLayout {
    /// The size of the integer.
    pub size: usize,

    /// The required ABI alignment for the integer.
    pub abi_alignment: usize,

    /// The preferred alignment for the integer.
    pub preferred_alignment: usize,
}

/// A specification of a vector layout.
#[derive(Clone, Copy, Debug, PartialEq, Eq, Structural)]
pub struct VectorLayout {
    /// The size of the vector.
    pub size: usize,

    /// The required ABI alignment for the vector.
    pub abi_alignment: usize,

    /// The preferred alignment for the vector.
    pub preferred_alignment: usize,
}

/// A specification of a floating-point layout.
#[derive(Clone, Copy, Debug, PartialEq, Eq, Structural)]
pub struct FloatLayout {
    /// The size of the floating-point number.
    pub size: usize,

    /// The required ABI alignment for the floating-point number.
    pub abi_alignment: usize,

    /// The preferred alignment for the floating-point number.
    pub preferred_alignment: usize,
}

/// A specification of the aggregate layout.
#[derive(Clone, Copy, Debug, PartialEq, Eq, Structural)]
pub struct AggregateLayout {
    /// The required ABI alignment for an aggregate.
    pub abi_alignment: usize,

    /// The preferred alignment for an aggregate.
    pub preferred_alignment: usize,
}

/// The way function pointers relate to function alignment.
#[derive(Clone, Copy, Debug, PartialEq, Eq, Structural)]
pub enum FunctionPointerType {
    /// The alignment of function pointers is independent of the alignment of
    /// functions.
    Independent,

    /// The alignment of function pointers is a multiple of the explicit
    /// alignment specified on the function.
    Multiple,
}

/// A specification of the function pointer layout.
#[derive(Clone, Copy, Debug, PartialEq, Eq, Structural)]
pub struct FunctionPointerLayout {
    /// The way that the function pointer is treated in the data layout.
    pub ptr_type: FunctionPointerType,

    /// The alignment of function pointers in this data layout.
    pub abi_alignment: usize,
}

/// A specification of the integer widths natively supported by the CPU.
#[derive(Clone, Debug, PartialEq, Eq)]
pub struct NativeIntegerWidths {
    /// The integer widths that are natively supported on the CPU.
    pub widths: Vec<usize>,
}

/// The address spaces in which pointers are non-integral.
#[derive(Clone, Debug, PartialEq, Eq)]
pub struct NonIntegralPointerAddressSpaces {
    /// The address spaces in which pointers should be treated as
    /// non-integral.
    pub address_spaces: Vec<usize>,
}

/// The values of a `<int> (":" <int>)*` group list starting at `from`, or
/// nothing if the characters from `from` to the end do not have that shape
/// or a value does not fit the machine's range.
pub open spec fn groups_from(s: Seq<char>, from: int) -> Option<Seq<int>>
    decreases s.len() - from,
{
    if !(0 <= from && from <= s.len()) {
        None
    } else {
        let end = digit_run_end(s, from);
        if !(from < end <= s.len()) || !is_int_literal(s.subrange(from, end)) || dec_value(
            s.subrange(from, end),
        ) > usize::MAX {
            None
        } else if end == s.len() {
            Some(seq![dec_value(s.subrange(from, end))])
        } else if s[end] == ':' {
            match groups_from(s, end + 1) {
                Some(rest) => Some(seq![dec_value(s.subrange(from, end))] + rest),
                None => None,
            }
        } else {
            None
        }
    }
}

/// Whether the machine integers `v` are exactly the mathematical integers
/// `g`, in order.
pub open spec fn ints_match(g: Seq<int>, v: Seq<usize>) -> bool {
    g.len() == v.len() && forall|i: int| 0 <= i < g.len() ==> g[i] == (#[trigger] v[i]) as int
}

/// Parses a `<int> (":" <int>)*` group list from `from` to the end of `s`.
fn parse_groups(s: &str, from: usize) -> (r: Option<Vec<usize>>)
    requires
        from <= s@.len(),
    ensures
        match r {
            Some(v) => {
                &&& groups_from(s@, from as int) is Some
                &&& ints_match(groups_from(s@, from as int)->Some_0, v@)
                &&& v@.len() > 0
            },
            None => groups_from(s@, from as int) is None,
        },
    decreases s@.len() - from,
{
    let n = s.unicode_len();
    match pos_int(s, from) {
        Some((v, end)) => {
            if end == n {
                let mut out: Vec<usize> = Vec::new();
                out.push(v);
                proof {
                    assert(out@ =~= seq![v]);
                }
                Some(out)
            } else if s.get_char(end) == ':' {
                match parse_groups(s, end + 1) {
                    Some(rest) => {
                        let mut out: Vec<usize> = Vec::new();
                        out.push(v);
                        let mut k: usize = 0;
                        let m = rest.len();
                        while k < m
                            invariant
                                k <= m,
                                m == rest@.len(),
                                out@ =~= seq![v].add(rest@.subrange(0, k as int)),
                            decreases m - k,
                        {
                            out.push(rest[k]);
                            proof {
                                assert(rest@.subrange(0, k + 1) =~= rest@.subrange(
                                    0,
                                    k as int,
                                ).push(rest@[k as int]));
                            }
                            k += 1;
                        }
                        proof {
                            assert(rest@.subrange(0, m as int) =~= rest@);
                            assert(out@ =~= seq![v].add(rest@));
                            let gs = groups_from(s@, from as int)->Some_0;
                            let grest = groups_from(s@, end + 1)->Some_0;
                            assert(gs == seq![dec_value(s@.subrange(from as int, end as int))]
                                + grest);
                            assert forall|i: int| 0 <= i < gs.len() implies gs[i] == (
                            #[trigger] out@[i]) as int by {
                                if i == 0 {
                                    assert(gs[0] == dec_value(
                                        s@.subrange(from as int, end as int),
                                    ));
                                } else {
                                    assert(gs[i] == grest[i - 1]);
                                    assert(out@[i] == rest@[i - 1]);
                                }
                            }
                        }
                        Some(out)
                    },
                    None => None,
                }
            } else {
                None
            }
        },
        None => None,
    }
}

impl Endianness {
    /// The endianness segment: `e` or `E`.
    pub open spec fn segment_spec(s: Seq<char>) -> Option<Endianness> {
        if s == seq!['e'] {
            Some(Endianness::Little)
        } else if s == seq!['E'] {
            Some(Endianness::Big)
        } else {
            None
        }
    }

    /// Parses the endianness segment of the data layout.
    pub fn parser(s: &str) -> (r: Option<Endianness>)
        ensures
            r == Endianness::segment_spec(s@),
    {
        let n = s.unicode_len();
        if n != 1 {
            proof {
                assert(s@ != seq!['e'] && s@ != seq!['E']);
            }
            return None;
        }
        let c = s.get_char(0);
        proof {
            assert(s@ =~= seq![s@[0]]);
        }
        if c == 'e' {
            Some(Endianness::Little)
        } else if c == 'E' {
            Some(Endianness::Big)
        } else {
            None
        }
    }
}

impl Mangling {
    /// The mangling segment: `m:` followed by one scheme letter.
    pub open spec fn segment_spec(s: Seq<char>) -> Option<Mangling> {
        if s.len() == 3 && s[0] == 'm' && s[1] == ':' {
            if s[2] == 'a' {
                Some(Mangling::XCOFF)
            } else if s[2] == 'e' {
                Some(Mangling::ELF)
            } else if s[2] == 'l' {
                Some(Mangling::GOFF)
            } else if s[2] == 'm' {
                Some(Mangling::MIPS)
            } else if s[2] == 'o' {
                Some(Mangling::MachO)
            } else if s[2] == 'w' {
                Some(Mangling::COFF)
            } else if s[2] == 'x' {
                Some(Mangling::COFF86)
            } else {
                None
            }
        } else {
            None
        }
    }

    /// Parses the mangling segment of the data layout.
    pub fn parser(s: &str) -> (r: Option<Mangling>)
        ensures
            r == Mangling::segment_spec(s@),
    {
        let n = s.unicode_len();
        if n != 3 {
            return None;
        }
        if s.get_char(0) != 'm' || s.get_char(1) != ':' {
            return None;
        }
        let c = s.get_char(2);
        if c == 'a' {
            Some(Mangling::XCOFF)
        } else if c == 'e' {
            Some(Mangling::ELF)
        } else if c == 'l' {
            Some(Mangling::GOFF)
        } else if c == 'm' {
            Some(Mangling::MIPS)
        } else if c == 'o' {
            Some(Mangling::MachO)
        } else if c == 'w' {
            Some(Mangling::COFF)
        } else if c == 'x' {
            Some(Mangling::COFF86)
        } else {
            None
        }
    }
}

impl PointerLayout {
    /// The pointer segment: `p`, an optional bracketed address space, and
    /// two to four colon-prefixed integers: size, ABI alignment, an optional
    /// preferred alignment defaulting to the ABI alignment, and an optional
    /// index size defaulting to the size. The index size must not exceed the
    /// pointer size.
    pub open spec fn segment_spec(s: Seq<char>) -> Option<PointerLayout> {
        if s.len() >= 1 && s[0] == 'p' {
            let has_bracket = s.len() >= 2 && s[1] == '[';
            let close = digit_run_end(s, 2);
            if has_bracket && !(2 < close < s.len() && s[close] == ']' && is_int_literal(
                s.subrange(2, close),
            ) && dec_value(s.subrange(2, close)) <= usize::MAX) {
                None
            } else {
                let addr = if has_bracket {
                    dec_value(s.subrange(2, close))
                } else {
                    0
                };
                let body = if has_bracket {
                    close + 1
                } else {
                    1
                };
                if body < s.len() && s[body] == ':' {
                    match groups_from(s, body + 1) {
                        Some(g) => {
                            if 2 <= g.len() <= 4 {
                                let size = g[0];
                                let abi = g[1];
                                let pref = if g.len() >= 3 {
                                    g[2]
                                } else {
                                    abi
                                };
                                let index = if g.len() == 4 {
                                    g[3]
                                } else {
                                    size
                                };
                                if index > size {
                                    None
                                } else {
                                    Some(
                                        PointerLayout {
                                            address_space: addr as usize,
                                            size: size as usize,
                                            abi_alignment: abi as usize,
                                            preferred_alignment: pref as usize,
                                            index_size: index as usize,
                                        },
                                    )
                                }
                            } else {
                                None
                            }
                        },
                        None => None,
                    }
                } else {
                    None
                }
            }
        } else {
            None
        }
    }

    /// Parses the pointer layout segment of the data layout.
    pub fn parser(s: &str) -> (r: Option<PointerLayout>)
        ensures
            r == PointerLayout::segment_spec(s@),
    {
        let n = s.unicode_len();
        if n < 1 || s.get_char(0) != 'p' {
            return None;
        }
        let has_bracket = n >= 2 && s.get_char(1) == '[';
        let mut addr: usize = 0;
        let mut body: usize = 1;
        if has_bracket {
            match pos_int(s, 2) {
                Some((v, close)) => {
                    if close < n && s.get_char(close) == ']' {
                        addr = v;
                        body = close + 1;
                    } else {
                        return None;
                    }
                },
                None => {
                    return None;
                },
            }
        }
        if !(body < n && s.get_char(body) == ':') {
            return None;
        }
        match parse_groups(s, body + 1) {
            Some(g) => {
                if 2 <= g.len() && g.len() <= 4 {
                    let size = g[0];
                    let abi = g[1];
                    let pref = if g.len() >= 3 {
                        g[2]
                    } else {
                        abi
                    };
                    let index = if g.len() == 4 {
                        g[3]
                    } else {
                        size
                    };
                    if index > size {
                        None
                    } else {
                        Some(
                            PointerLayout {
                                address_space: addr,
                                size,
                                abi_alignment: abi,
                                preferred_alignment: pref,
                                index_size: index,
                            },
                        )
                    }
                } else {
                    None
                }
            },
            None => None,
        }
    }
}

impl IntegerLayout {
    /// The integer segment: `i`, then two or three colon-separated integers:
    /// size, ABI alignment, and an optional preferred alignment defaulting
    /// to the ABI alignment. A byte-sized integer must be byte-aligned.
    pub open spec fn segment_spec(s: Seq<char>) -> Option<IntegerLayout> {
        if s.len() >= 1 && s[0] == 'i' {
            match groups_from(s, 1) {
                Some(g) => {
                    if 2 <= g.len() <= 3 && !(g[0] == BYTE_SIZE && g[1] != g[0]) {
                        Some(
                            IntegerLayout {
                                size: g[0] as usize,
                                abi_alignment: g[1] as usize,
                                preferred_alignment: (if g.len() == 3 {
                                    g[2]
                                } else {
                                    g[1]
                                }) as usize,
                            },
                        )
                    } else {
                        None
                    }
                },
                None => None,
            }
        } else {
            None
        }
    }

    /// Parses the integer layout segment of the data layout.
    pub fn parser(s: &str) -> (r: Option<IntegerLayout>)
        ensures
            r == IntegerLayout::segment_spec(s@),
    {
        let n = s.unicode_len();
        if n < 1 || s.get_char(0) != 'i' {
            return None;
        }
        match parse_groups(s, 1) {
            Some(g) => {
                if 2 <= g.len() && g.len() <= 3 && !(g[0] == BYTE_SIZE && g[1] != g[0]) {
                    Some(
                        IntegerLayout {
                            size: g[0],
                            abi_alignment: g[1],
                            preferred_alignment: if g.len() == 3 {
                                g[2]
                            } else {
                                g[1]
                            },
                        },
                    )
                } else {
                    None
                }
            },
            None => None,
        }
    }
}

impl VectorLayout {
    /// The vector segment: `v`, then two or three colon-separated integers:
    /// size, ABI alignment, and an optional preferred alignment defaulting
    /// to the ABI alignment.
    pub open spec fn segment_spec(s: Seq<char>) -> Option<VectorLayout> {
        if s.len() >= 1 && s[0] == 'v' {
            match groups_from(s, 1) {
                Some(g) => {
                    if 2 <= g.len() <= 3 {
                        Some(
                            VectorLayout {
                                size: g[0] as usize,
                                abi_alignment: g[1] as usize,
                                preferred_alignment: (if g.len() == 3 {
                                    g[2]
                                } else {
                                    g[1]
                                }) as usize,
                            },
                        )
                    } else {
                        None
                    }
                },
                None => None,
            }
        } else {
            None
        }
    }

    /// Parses the vector layout segment of the data layout.
    pub fn parser(s: &str) -> (r: Option<VectorLayout>)
        ensures
            r == VectorLayout::segment_spec(s@),
    {
        let n = s.unicode_len();
        if n < 1 || s.get_char(0) != 'v' {
            return None;
        }
        match parse_groups(s, 1) {
            Some(g) => {
                if 2 <= g.len() && g.len() <= 3 {
                    Some(
                        VectorLayout {
                            size: g[0],
                            abi_alignment: g[1],
                            preferred_alignment: if g.len() == 3 {
                                g[2]
                            } else {
                                g[1]
                            },
                        },
                    )
                } else {
                    None
                }
            },
            None => None,
        }
    }
}

impl FloatLayout {
    /// The floating-point segment: `f`, then two or three colon-separated
    /// integers: size, ABI alignment, and an optional preferred alignment
    /// defaulting to the ABI alignment. The size must be one of the valid
    /// floating-point sizes.
    pub open spec fn segment_spec(s: Seq<char>) -> Option<FloatLayout> {
        if s.len() >= 1 && s[0] == 'f' {
            match groups_from(s, 1) {
                Some(g) => {
                    if 2 <= g.len() <= 3 && (g[0] == 16 || g[0] == 32 || g[0] == 64 || g[0] == 80
                        || g[0] == 128) {
                        Some(
                            FloatLayout {
                                size: g[0] as usize,
                                abi_alignment: g[1] as usize,
                                preferred_alignment: (if g.len() == 3 {
                                    g[2]
                                } else {
                                    g[1]
                                }) as usize,
                            },
                        )
                    } else {
                        None
                    }
                },
                None => None,
            }
        } else {
            None
        }
    }

    /// Parses the floating-point layout segment of the data layout.
    pub fn parser(s: &str) -> (r: Option<FloatLayout>)
        ensures
            r == FloatLayout::segment_spec(s@),
    {
        let n = s.unicode_len();
        if n < 1 || s.get_char(0) != 'f' {
            return None;
        }
        match parse_groups(s, 1) {
            Some(g) => {
                if 2 <= g.len() && g.len() <= 3 && (g[0] == 16 || g[0] == 32 || g[0] == 64 || g[0]
                    == 80 || g[0] == 128) {
                    Some(
                        FloatLayout {
                            size: g[0],
                            abi_alignment: g[1],
                            preferred_alignment: if g.len() == 3 {
                                g[2]
                            } else {
                                g[1]
                            },
                        },
                    )
                } else {
                    None
                }
            },
            None => None,
        }
    }
}

impl AggregateLayout {
    /// The aggregate segment: `a`, then one or two colon-separated integers:
    /// ABI alignment and an optional preferred alignment defaulting to the
    /// ABI alignment.
    pub open spec fn segment_spec(s: Seq<char>) -> Option<AggregateLayout> {
        if s.len() >= 1 && s[0] == 'a' {
            match groups_from(s, 1) {
                Some(g) => {
                    if 1 <= g.len() <= 2 {
                        Some(
                            AggregateLayout {
                                abi_alignment: g[0] as usize,
                                preferred_alignment: (if g.len() == 2 {
                                    g[1]
                                } else {
                                    g[0]
                                }) as usize,
                            },
                        )
                    } else {
                        None
                    }
                },
                None => None,
            }
        } else {
            None
        }
    }

    /// Parses the aggregate layout segment of the data layout.
    pub fn parser(s: &str) -> (r: Option<AggregateLayout>)
        ensures
            r == AggregateLayout::segment_spec(s@),
    {
        let n = s.unicode_len();
        if n < 1 || s.get_char(0) != 'a' {
            return None;
        }
        match parse_groups(s, 1) {
            Some(g) => {
                if 1 <= g.len() && g.len() <= 2 {
                    Some(
                        AggregateLayout {
                            abi_alignment: g[0],
                            preferred_alignment: if g.len() == 2 {
                                g[1]
                            } else {
                                g[0]
                            },
                        },
                    )
                } else {
                    None
                }
            },
            None => None,
        }
    }
}

impl FunctionPointerType {
    /// The function pointer kind letter: `i` or `n`.
    pub open spec fn segment_spec(s: Seq<char>) -> Option<FunctionPointerType> {
        if s == seq!['i'] {
            Some(FunctionPointerType::Independent)
        } else if s == seq!['n'] {
            Some(FunctionPointerType::Multiple)
        } else {
            None
        }
    }

    /// Parses the function pointer kind letter.
    pub fn parser(s: &str) -> (r: Option<FunctionPointerType>)
        ensures
            r == FunctionPointerType::segment_spec(s@),
    {
        let n = s.unicode_len();
        if n != 1 {
            proof {
                assert(s@ != seq!['i'] && s@ != seq!['n']);
            }
            return None;
        }
        let c = s.get_char(0);
        proof {
            assert(s@ =~= seq![s@[0]]);
        }
        if c == 'i' {
            Some(FunctionPointerType::Independent)
        } else if c == 'n' {
            Some(FunctionPointerType::Multiple)
        } else {
            None
        }
    }
}

impl FunctionPointerLayout {
    /// The function pointer segment: `F`, a kind letter, and an integer
    /// alignment.
    pub open spec fn segment_spec(s: Seq<char>) -> Option<FunctionPointerLayout> {
        if s.len() >= 3 && s[0] == 'F' && (s[1] == 'i' || s[1] == 'n') && is_int_literal(
            s.subrange(2, s.len() as int),
        ) && dec_value(s.subrange(2, s.len() as int)) <= usize::MAX {
            Some(
                FunctionPointerLayout {
                    ptr_type: if s[1] == 'i' {
                        FunctionPointerType::Independent
                    } else {
                        FunctionPointerType::Multiple
                    },
                    abi_alignment: dec_value(s.subrange(2, s.len() as int)) as usize,
                },
            )
        } else {
            None
        }
    }

    /// Parses the function pointer layout segment of the data layout.
    pub fn parser(s: &str) -> (r: Option<FunctionPointerLayout>)
        ensures
            r == FunctionPointerLayout::segment_spec(s@),
    {
        let n = s.unicode_len();
        if n < 3 || s.get_char(0) != 'F' {
            return None;
        }
        let kind = s.get_char(1);
        if kind != 'i' && kind != 'n' {
            return None;
        }
        match pos_int(s, 2) {
            Some((v, end)) => {
                if end == n {
                    proof {
                        assert(s@.subrange(2, s@.len() as int) =~= s@.subrange(2, end as int));
                    }
                    Some(
                        FunctionPointerLayout {
                            ptr_type: if kind == 'i' {
                                FunctionPointerType::Independent
                            } else {
                                FunctionPointerType::Multiple
                            },
                            abi_alignment: v,
                        },
                    )
                } else {
                    proof {
                        crate::parsing::lemma_digit_run_end(s@, 2);
                        if is_int_literal(s@.subrange(2, s@.len() as int)) {
                            assert(s@.subrange(2, s@.len() as int)[end - 2] == s@[end as int]);
                        }
                    }
                    None
                }
            },
            None => {
                proof {
                    crate::parsing::lemma_digit_run_end(s@, 2);
                    if is_int_literal(s@.subrange(2, s@.len() as int)) && dec_value(
                        s@.subrange(2, s@.len() as int),
                    ) <= usize::MAX {
                        let end = digit_run_end(s@, 2);
                        assert forall|i: int| 2 <= i < s@.len() implies crate::parsing::is_digit(
                            #[trigger] s@[i],
                        ) by {
                            assert(s@.subrange(2, s@.len() as int)[i - 2] == s@[i]);
                        }
                        assert(end == s@.len());
                        assert(s@.subrange(2, end) =~= s@.subrange(2, s@.len() as int));
                    }
                }
                None
            },
        }
    }
}

impl NativeIntegerWidths {
    /// The native widths segment: `n`, then one or more colon-separated
    /// integers.
    pub open spec fn segment_spec(s: Seq<char>) -> Option<Seq<int>> {
        if s.len() >= 1 && s[0] == 'n' {
            groups_from(s, 1)
        } else {
            None
        }
    }

    /// Parses the native integer widths segment of the data layout.
    pub fn parser(s: &str) -> (r: Option<NativeIntegerWidths>)
        ensures
            match r {
                Some(v) => NativeIntegerWidths::segment_spec(s@) is Some && ints_match(
                    NativeIntegerWidths::segment_spec(s@)->Some_0,
                    v.widths@,
                ),
                None => NativeIntegerWidths::segment_spec(s@) is None,
            },
    {
        let n = s.unicode_len();
        if n < 1 || s.get_char(0) != 'n' {
            return None;
        }
        match parse_groups(s, 1) {
            Some(g) => Some(NativeIntegerWidths { widths: g }),
            None => None,
        }
    }
}

impl NonIntegralPointerAddressSpaces {
    /// The non-integral pointer segment: `ni`, then one or more
    /// colon-prefixed integers, none of which may be the zero address space.
    pub open spec fn segment_spec(s: Seq<char>) -> Option<Seq<int>> {
        if s.len() >= 3 && s[0] == 'n' && s[1] == 'i' && s[2] == ':' {
            match groups_from(s, 3) {
                Some(g) => {
                    if exists|i: int| 0 <= i < g.len() && g[i] == 0 {
                        None
                    } else {
                        Some(g)
                    }
                },
                None => None,
            }
        } else {
            None
        }
    }

    /// Parses the non-integral pointer address spaces segment of the data
    /// layout.
    pub fn parser(s: &str) -> (r: Option<NonIntegralPointerAddressSpaces>)
        ensures
            match r {
                Some(v) => NonIntegralPointerAddressSpaces::segment_spec(s@) is Some && ints_match(
                    NonIntegralPointerAddressSpaces::segment_spec(s@)->Some_0,
                    v.address_spaces@,
                ),
                None => NonIntegralPointerAddressSpaces::segment_spec(s@) is None,
            },
    {
        let n = s.unicode_len();
        if n < 3 || s.get_char(0) != 'n' || s.get_char(1) != 'i' || s.get_char(2) != ':' {
            return None;
        }
        match parse_groups(s, 3) {
            Some(g) => {
                let m = g.len();
                let mut k: usize = 0;
                while k < m
                    invariant
                        k <= m,
                        m == g@.len(),
                        s@.len() >= 3 && s@[0] == 'n' && s@[1] == 'i' && s@[2] == ':',
                        groups_from(s@, 3) is Some,
                        ints_match(groups_from(s@, 3)->Some_0, g@),
                        forall|i: int| 0 <= i < k ==> (#[trigger] g@[i]) != 0,
                    decreases m - k,
                {
                    if g[k] == 0 {
                        proof {
                            let gq = groups_from(s@, 3)->Some_0;
                            assert(gq[k as int] == (g@[k as int]) as int);
                            assert(0 <= (k as int) && (k as int) < gq.len() && gq[k as int] == 0);
                            assert(exists|i: int| 0 <= i < gq.len() && gq[i] == 0);
                        }
                        return None;
                    }
                    k += 1;
                }
                proof {
                    let gq = groups_from(s@, 3)->Some_0;
                    assert forall|i: int| 0 <= i < gq.len() implies (#[trigger] gq[i]) != 0 by {
                        assert(gq[i] == (g@[i]) as int);
                        assert(g@[i] != 0);
                    }
                }
                Some(NonIntegralPointerAddressSpaces { address_spaces: g })
            },
            None => None,
        }
    }
}


/// The first position at or after `from` holding a dash, or the length of
/// `s` when there is none.
pub open spec fn first_dash(s: Seq<char>, from: int) -> int
    decreases s.len() - from,
{
    if !(0 <= from && from < s.len()) {
        s.len() as int
    } else if s[from] == '-' {
        from
    } else {
        first_dash(s, from + 1)
    }
}

pub proof fn lemma_first_dash(s: Seq<char>, from: int)
    requires
        0 <= from <= s.len(),
    ensures
        from <= first_dash(s, from) <= s.len(),
        forall|i: int| from <= i < first_dash(s, from) ==> (#[trigger] s[i]) != '-',
        first_dash(s, from) == s.len() || s[first_dash(s, from)] == '-',
    decreases s.len() - from,
{
    if from < s.len() && s[from] != '-' {
        lemma_first_dash(s, from + 1);
    }
}

/// The dash-separated parts of `s`, starting at `from`.
pub open spec fn dash_parts(s: Seq<char>, from: int) -> Seq<Seq<char>>
    decreases s.len() - from,
{
    if !(0 <= from && from <= s.len()) {
        Seq::empty()
    } else {
        let d = first_dash(s, from);
        if from <= d && d < s.len() {
            seq![s.subrange(from, d)] + dash_parts(s, d + 1)
        } else {
            seq![s.subrange(from, s.len() as int)]
        }
    }
}

/// The spec-level value of a data layout: the scalar fields, the collected
/// layout lists, and the native and non-integral lists as mathematical
/// integers.
#[verifier::ext_equal]
pub ghost struct DataLayoutV {
    /// The endianness used in this data layout.
    pub endianness: Endianness,
    /// The mangling scheme used by this data layout.
    pub mangling: Mangling,
    /// The natural alignment of the stack in bits.
    pub stack_alignment: usize,
    /// The index of the address space that corresponds to program memory.
    pub program_address_space: usize,
    /// The index of the address space that corresponds to globals.
    pub global_address_space: usize,
    /// The index of the address space for allocations.
    pub alloc_address_space: usize,
    /// The layouts of pointers, in arrival order.
    pub pointer_layouts: Seq<PointerLayout>,
    /// The layouts of the integer types, in arrival order.
    pub integer_layouts: Seq<IntegerLayout>,
    /// The layouts of the vector types, in arrival order.
    pub vector_layouts: Seq<VectorLayout>,
    /// The layouts of the floating-point types, in arrival order.
    pub float_layouts: Seq<FloatLayout>,
    /// The layout of aggregate types.
    pub aggregate_layout: AggregateLayout,
    /// The layout of function pointers.
    pub function_pointer_layout: FunctionPointerLayout,
    /// The integer widths natively supported by the CPU.
    pub native_integer_widths: Seq<int>,
    /// The address spaces in which pointers are non-integral.
    pub nointptr_address_spaces: Seq<int>,
}

/// The defaults a data layout starts from before any segment is applied.
pub open spec fn initial_layout() -> DataLayoutV {
    DataLayoutV {
        endianness: Endianness::Little,
        mangling: Mangling::ELF,
        stack_alignment: 0,
        program_address_space: 0,
        global_address_space: 0,
        alloc_address_space: 0,
        pointer_layouts: Seq::empty(),
        integer_layouts: Seq::empty(),
        vector_layouts: Seq::empty(),
        float_layouts: Seq::empty(),
        aggregate_layout: AggregateLayout { abi_alignment: 0, preferred_alignment: 64 },
        function_pointer_layout: FunctionPointerLayout {
            ptr_type: FunctionPointerType::Independent,
            abi_alignment: 64,
        },
        native_integer_widths: seq![32, 64],
        nointptr_address_spaces: Seq::empty(),
    }
}

/// What one segment does to the layout: scalar segments overwrite their
/// field, list segments append, an empty segment is ignored, and anything
/// else is an error.
pub open spec fn apply_part(v: DataLayoutV, part: Seq<char>) -> Option<DataLayoutV> {
    if Endianness::segment_spec(part) is Some {
        Some(DataLayoutV { endianness: Endianness::segment_spec(part)->Some_0, ..v })
    } else if Mangling::segment_spec(part) is Some {
        Some(DataLayoutV { mangling: Mangling::segment_spec(part)->Some_0, ..v })
    } else if stack_alignment_spec(part) is Some {
        Some(DataLayoutV { stack_alignment: stack_alignment_spec(part)->Some_0 as usize, ..v })
    } else if tagged_int_spec('P', part) is Some {
        Some(DataLayoutV { program_address_space: tagged_int_spec('P', part)->Some_0 as usize, ..v })
    } else if tagged_int_spec('G', part) is Some {
        Some(DataLayoutV { global_address_space: tagged_int_spec('G', part)->Some_0 as usize, ..v })
    } else if tagged_int_spec('A', part) is Some {
        Some(DataLayoutV { alloc_address_space: tagged_int_spec('A', part)->Some_0 as usize, ..v })
    } else if PointerLayout::segment_spec(part) is Some {
        Some(
            DataLayoutV {
                pointer_layouts: v.pointer_layouts.push(PointerLayout::segment_spec(part)->Some_0),
                ..v
            },
        )
    } else if IntegerLayout::segment_spec(part) is Some {
        Some(
            DataLayoutV {
                integer_layouts: v.integer_layouts.push(IntegerLayout::segment_spec(part)->Some_0),
                ..v
            },
        )
    } else if VectorLayout::segment_spec(part) is Some {
        Some(
            DataLayoutV {
                vector_layouts: v.vector_layouts.push(VectorLayout::segment_spec(part)->Some_0),
                ..v
            },
        )
    } else if FloatLayout::segment_spec(part) is Some {
        Some(
            DataLayoutV {
                float_layouts: v.float_layouts.push(FloatLayout::segment_spec(part)->Some_0),
                ..v
            },
        )
    } else if AggregateLayout::segment_spec(part) is Some {
        Some(DataLayoutV { aggregate_layout: AggregateLayout::segment_spec(part)->Some_0, ..v })
    } else if FunctionPointerLayout::segment_spec(part) is Some {
        Some(
            DataLayoutV {
                function_pointer_layout: FunctionPointerLayout::segment_spec(part)->Some_0,
                ..v
            },
        )
    } else if NativeIntegerWidths::segment_spec(part) is Some {
        Some(
            DataLayoutV {
                native_integer_widths: NativeIntegerWidths::segment_spec(part)->Some_0,
                ..v
            },
        )
    } else if NonIntegralPointerAddressSpaces::segment_spec(part) is Some {
        Some(
            DataLayoutV {
                nointptr_address_spaces: NonIntegralPointerAddressSpaces::segment_spec(
                    part,
                )->Some_0,
                ..v
            },
        )
    } else if part.len() == 0 {
        Some(v)
    } else {
        None
    }
}

/// Folds the segments of a descriptor over an accumulated layout, failing on
/// the first segment no grammar accepts.
pub open spec fn fold_layout(parts: Seq<Seq<char>>, acc: DataLayoutV) -> Option<DataLayoutV>
    decreases parts.len(),
{
    if parts.len() == 0 {
        Some(acc)
    } else {
        match apply_part(acc, parts[0]) {
            Some(a2) => fold_layout(parts.drop_first(), a2),
            None => None,
        }
    }
}

/// An ascending order on the records of one layout kind, comparing every
/// field in declaration order, so that records equal under it are equal
/// outright.
pub trait LayoutOrder: Sized {
    /// Whether `self` sorts at or before `other`.
    spec fn le_spec(self, other: Self) -> bool;

    /// The order is total.
    proof fn lemma_total(a: Self, b: Self)
        ensures
            a.le_spec(b) || b.le_spec(a),
    ;

    /// Compares two records.
    fn le(&self, other: &Self) -> (r: bool)
        ensures
            r == self.le_spec(*other),
    ;
}

/// Whether consecutive records of `s` are in ascending order.
pub open spec fn sorted_by<T: LayoutOrder>(s: Seq<T>) -> bool {
    forall|i: int| 0 <= i < s.len() - 1 ==> (#[trigger] s[i]).le_spec(s[i + 1])
}

impl LayoutOrder for PointerLayout {
    open spec fn le_spec(self, other: Self) -> bool {
        if self.address_space != other.address_space {
            self.address_space < other.address_space
        } else if self.size != other.size {
            self.size < other.size
        } else if self.abi_alignment != other.abi_alignment {
            self.abi_alignment < other.abi_alignment
        } else if self.preferred_alignment != other.preferred_alignment {
            self.preferred_alignment < other.preferred_alignment
        } else {
            self.index_size <= other.index_size
        }
    }

    proof fn lemma_total(a: Self, b: Self) {
    }

    fn le(&self, other: &Self) -> (r: bool) {
        if self.address_space != other.address_space {
            self.address_space < other.address_space
        } else if self.size != other.size {
            self.size < other.size
        } else if self.abi_alignment != other.abi_alignment {
            self.abi_alignment < other.abi_alignment
        } else if self.preferred_alignment != other.preferred_alignment {
            self.preferred_alignment < other.preferred_alignment
        } else {
            self.index_size <= other.index_size
        }
    }
}

impl LayoutOrder for IntegerLayout {
    open spec fn le_spec(self, other: Self) -> bool {
        if self.size != other.size {
            self.size < other.size
        } else if self.abi_alignment != other.abi_alignment {
            self.abi_alignment < other.abi_alignment
        } else {
            self.preferred_alignment <= other.preferred_alignment
        }
    }

    proof fn lemma_total(a: Self, b: Self) {
    }

    fn le(&self, other: &Self) -> (r: bool) {
        if self.size != other.size {
            self.size < other.size
        } else if self.abi_alignment != other.abi_alignment {
            self.abi_alignment < other.abi_alignment
        } else {
            self.preferred_alignment <= other.preferred_alignment
        }
    }
}

impl LayoutOrder for VectorLayout {
    open spec fn le_spec(self, other: Self) -> bool {
        if self.size != other.size {
            self.size < other.size
        } else if self.abi_alignment != other.abi_alignment {
            self.abi_alignment < other.abi_alignment
        } else {
            self.preferred_alignment <= other.preferred_alignment
        }
    }

    proof fn lemma_total(a: Self, b: Self) {
    }

    fn le(&self, other: &Self) -> (r: bool) {
        if self.size != other.size {
            self.size < other.size
        } else if self.abi_alignment != other.abi_alignment {
            self.abi_alignment < other.abi_alignment
        } else {
            self.preferred_alignment <= other.preferred_alignment
        }
    }
}

impl LayoutOrder for FloatLayout {
    open spec fn le_spec(self, other: Self) -> bool {
        if self.size != other.size {
            self.size < other.size
        } else if self.abi_alignment != other.abi_alignment {
            self.abi_alignment < other.abi_alignment
        } else {
            self.preferred_alignment <= other.preferred_alignment
        }
    }

    proof fn lemma_total(a: Self, b: Self) {
    }

    fn le(&self, other: &Self) -> (r: bool) {
        if self.size != other.size {
            self.size < other.size
        } else if self.abi_alignment != other.abi_alignment {
            self.abi_alignment < other.abi_alignment
        } else {
            self.preferred_alignment <= other.preferred_alignment
        }
    }
}

/// Inserting an element anywhere adds exactly it to the sequence's
/// multiset.
proof fn lemma_insert_multiset<T>(s: Seq<T>, i: int, x: T)
    requires
        0 <= i <= s.len(),
    ensures
        s.insert(i, x).to_multiset() == s.to_multiset().insert(x),
{
    broadcast use vstd::seq_lib::group_to_multiset_ensures;
    broadcast use vstd::multiset::group_multiset_axioms;

    let a = s.subrange(0, i);
    let b = s.subrange(i, s.len() as int);
    assert(s =~= a + b);
    assert(s.insert(i, x) =~= a + (seq![x] + b));
    vstd::seq_lib::lemma_multiset_commutative(a, b);
    vstd::seq_lib::lemma_multiset_commutative(a, seq![x] + b);
    vstd::seq_lib::lemma_multiset_commutative(seq![x], b);
    assert(seq![x] =~= Seq::<T>::empty().push(x));
    assert(Seq::<T>::empty().to_multiset().len() == 0);
    assert(Seq::<T>::empty().to_multiset() =~= Multiset::<T>::empty()) by {
        assert forall|y: T| Seq::<T>::empty().to_multiset().count(y) == 0 by {
            vstd::multiset::axiom_count_le_len::<T>(Seq::<T>::empty().to_multiset(), y);
        }
    }
    assert(seq![x].to_multiset() =~= Multiset::<T>::empty().insert(x));
    assert(s.insert(i, x).to_multiset() =~= s.to_multiset().insert(x)) by {
        assert forall|y: T|
            s.insert(i, x).to_multiset().count(y) == s.to_multiset().insert(x).count(y) by {}
    }
}

/// Sorts the records ascending, preserving exactly the records present.
fn sort_records<T: LayoutOrder>(v: Vec<T>) -> (r: Vec<T>)
    ensures
        r@.to_multiset() == v@.to_multiset(),
        sorted_by(r@),
{
    broadcast use vstd::seq_lib::group_to_multiset_ensures;

    let mut rest = v;
    let mut out: Vec<T> = Vec::new();
    proof {
        assert(out@.to_multiset().add(rest@.to_multiset()) =~= v@.to_multiset());
    }
    while rest.len() > 0
        invariant
            out@.to_multiset().add(rest@.to_multiset()) == v@.to_multiset(),
            sorted_by(out@),
        decreases rest@.len(),
    {
        let ghost pre_rest = rest@;
        let ghost pre_out = out@;
        let x = rest.remove(0);
        // Find the first position whose record sorts after `x`.
        let n = out.len();
        let mut pos: usize = 0;
        while pos < n
            invariant_except_break
                pos <= n,
                n == out@.len(),
                forall|j: int| 0 <= j < pos ==> (#[trigger] out@[j]).le_spec(x),
            ensures
                pos <= n,
                n == out@.len(),
                forall|j: int| 0 <= j < pos ==> (#[trigger] out@[j]).le_spec(x),
                pos < n ==> !out@[pos as int].le_spec(x),
            decreases n - pos,
        {
            if !out[pos].le(&x) {
                break ;
            }
            pos += 1;
        }
        proof {
            if pos < out@.len() {
                T::lemma_total(out@[pos as int], x);
            }
        }
        out.insert(pos, x);
        proof {
            broadcast use vstd::seq_lib::group_to_multiset_ensures;
            broadcast use vstd::multiset::group_multiset_axioms;

            lemma_insert_multiset(pre_out, pos as int, x);
            assert(pre_rest.remove(0).to_multiset() =~= pre_rest.to_multiset().remove(
                pre_rest[0],
            ));

            assert(out@.to_multiset().add(rest@.to_multiset()) =~= v@.to_multiset()) by {
                assert forall|y: T|
                    out@.to_multiset().add(rest@.to_multiset()).count(y) == v@.to_multiset().count(
                    y,
                ) by {
                    assert(pre_out.to_multiset().add(pre_rest.to_multiset()).count(y)
                        == v@.to_multiset().count(y));
                }
            }
            assert forall|i: int| 0 <= i < out@.len() - 1 implies (#[trigger] out@[i]).le_spec(
                out@[i + 1],
            ) by {
                if i + 1 < pos as int {
                    assert(out@[i] == pre_out[i]);
                    assert(out@[i + 1] == pre_out[i + 1]);
                } else if i + 1 == pos as int {
                    assert(out@[i] == pre_out[i]);
                    assert(out@[i + 1] == x);
                } else if i == pos as int {
                    assert(out@[i] == x);
                    assert(out@[i + 1] == pre_out[i]);
                    if pos < pre_out.len() {
                        assert(!pre_out[pos as int].le_spec(x));
                    }
                } else {
                    assert(out@[i] == pre_out[i - 1]);
                    assert(out@[i + 1] == pre_out[i]);
                }
            }
        }
    }
    proof {
        broadcast use vstd::multiset::group_multiset_axioms;

        assert(rest@ =~= Seq::<T>::empty());
        assert(rest@.to_multiset().len() == 0);
        assert(out@.to_multiset() =~= v@.to_multiset()) by {
            assert forall|y: T| out@.to_multiset().count(y) == v@.to_multiset().count(y) by {
                assert(out@.to_multiset().add(rest@.to_multiset()).count(y) == v@.to_multiset()
                    .count(y));
                vstd::multiset::axiom_count_le_len::<T>(rest@.to_multiset(), y);
            }
        }
    }
    out
}

/// Whether some layout in `s` describes the size `sz`.
pub open spec fn has_int_size(s: Seq<IntegerLayout>, sz: usize) -> bool {
    exists|i: int| 0 <= i < s.len() && (#[trigger] s[i]).size == sz
}

/// Whether some layout in `s` describes the size `sz`.
pub open spec fn has_vector_size(s: Seq<VectorLayout>, sz: usize) -> bool {
    exists|i: int| 0 <= i < s.len() && (#[trigger] s[i]).size == sz
}

/// Whether some layout in `s` describes the size `sz`.
pub open spec fn has_float_size(s: Seq<FloatLayout>, sz: usize) -> bool {
    exists|i: int| 0 <= i < s.len() && (#[trigger] s[i]).size == sz
}

/// Whether some layout in `s` describes the address space `space`.
pub open spec fn has_addr_space(s: Seq<PointerLayout>, space: usize) -> bool {
    exists|i: int| 0 <= i < s.len() && (#[trigger] s[i]).address_space == space
}

/// The parsed integer layouts with defaults appended, in ascending size
/// order of the defaults, for any default size not described.
pub open spec fn with_int_defaults(s: Seq<IntegerLayout>) -> Seq<IntegerLayout> {
    let s1 = if has_int_size(s, 1) {
        s
    } else {
        s.push(IntegerLayout { size: 1, abi_alignment: 8, preferred_alignment: 8 })
    };
    let s2 = if has_int_size(s1, 8) {
        s1
    } else {
        s1.push(IntegerLayout { size: 8, abi_alignment: 8, preferred_alignment: 8 })
    };
    let s3 = if has_int_size(s2, 16) {
        s2
    } else {
        s2.push(IntegerLayout { size: 16, abi_alignment: 16, preferred_alignment: 16 })
    };
    let s4 = if has_int_size(s3, 32) {
        s3
    } else {
        s3.push(IntegerLayout { size: 32, abi_alignment: 32, preferred_alignment: 32 })
    };
    if has_int_size(s4, 64) {
        s4
    } else {
        s4.push(IntegerLayout { size: 64, abi_alignment: 32, preferred_alignment: 64 })
    }
}

/// The parsed vector layouts with any missing default appended.
pub open spec fn with_vector_defaults(s: Seq<VectorLayout>) -> Seq<VectorLayout> {
    let s1 = if has_vector_size(s, 64) {
        s
    } else {
        s.push(VectorLayout { size: 64, abi_alignment: 64, preferred_alignment: 64 })
    };
    if has_vector_size(s1, 128) {
        s1
    } else {
        s1.push(VectorLayout { size: 128, abi_alignment: 128, preferred_alignment: 128 })
    }
}

/// The parsed floating-point layouts with any missing default appended.
pub open spec fn with_float_defaults(s: Seq<FloatLayout>) -> Seq<FloatLayout> {
    let s1 = if has_float_size(s, 16) {
        s
    } else {
        s.push(FloatLayout { size: 16, abi_alignment: 16, preferred_alignment: 16 })
    };
    let s2 = if has_float_size(s1, 32) {
        s1
    } else {
        s1.push(FloatLayout { size: 32, abi_alignment: 32, preferred_alignment: 32 })
    };
    let s3 = if has_float_size(s2, 64) {
        s2
    } else {
        s2.push(FloatLayout { size: 64, abi_alignment: 64, preferred_alignment: 64 })
    };
    if has_float_size(s3, 128) {
        s3
    } else {
        s3.push(FloatLayout { size: 128, abi_alignment: 128, preferred_alignment: 128 })
    }
}

/// The parsed pointer layouts with the default for address space zero
/// appended when that space is not described.
pub open spec fn with_pointer_defaults(s: Seq<PointerLayout>) -> Seq<PointerLayout> {
    if has_addr_space(s, 0) {
        s
    } else {
        s.push(
            PointerLayout {
                address_space: 0,
                size: 64,
                abi_alignment: 64,
                preferred_alignment: 64,
                index_size: 64,
            },
        )
    }
}

/// The folded layout with all type-layout defaults appended.
pub open spec fn add_defaults(v: DataLayoutV) -> DataLayoutV {
    DataLayoutV {
        pointer_layouts: with_pointer_defaults(v.pointer_layouts),
        integer_layouts: with_int_defaults(v.integer_layouts),
        vector_layouts: with_vector_defaults(v.vector_layouts),
        float_layouts: with_float_defaults(v.float_layouts),
        ..v
    }
}

/// Information about the expected data layout for a module.
///
/// A descriptor string starts from a default specification that its segments
/// override; an empty string therefore yields the fully defaulted layout.
#[derive(Clone, Debug, PartialEq, Eq)]
pub struct DataLayout {
    /// The endianness used in this data layout.
    pub endianness: Endianness,

    /// The mangling scheme used by this data layout.
    pub mangling: Mangling,

    /// The natural alignment of the stack in bits.
    pub stack_alignment: usize,

    /// The index of the address space that corresponds to program memory.
    pub program_address_space: usize,

    /// The index of the address space that corresponds to globals.
    pub global_address_space: usize,

    /// The index of the address space for allocations.
    pub alloc_address_space: usize,

    /// The layout of pointers.
    pub pointer_layouts: Vec<PointerLayout>,

    /// The layout of the various integer types.
    pub integer_layouts: Vec<IntegerLayout>,

    /// The layout of the various vector types.
    pub vector_layouts: Vec<VectorLayout>,

    /// The layout of the various floating-point types.
    pub float_layouts: Vec<FloatLayout>,

    /// The layout of aggregate types.
    pub aggregate_layout: AggregateLayout,

    /// The layout of function pointers.
    pub function_pointer_layout: FunctionPointerLayout,

    /// The integer widths natively supported by the CPU in this layout.
    pub native_integer_widths: NativeIntegerWidths,

    /// The address space numbers in which pointers should be treated as
    /// non-integral.
    pub nointptr_address_spaces: NonIntegralPointerAddressSpaces,
}

/// Whether the data layout `l` holds exactly the spec-level value `v`,
/// list for list in arrival order — the relation the segment fold
/// maintains, before defaults and sorting are applied.
pub open spec fn layout_matches_exact(l: DataLayout, v: DataLayoutV) -> bool {
    &&& l.endianness == v.endianness
    &&& l.mangling == v.mangling
    &&& l.stack_alignment == v.stack_alignment
    &&& l.program_address_space == v.program_address_space
    &&& l.global_address_space == v.global_address_space
    &&& l.alloc_address_space == v.alloc_address_space
    &&& l.pointer_layouts@ == v.pointer_layouts
    &&& l.integer_layouts@ == v.integer_layouts
    &&& l.vector_layouts@ == v.vector_layouts
    &&& l.float_layouts@ == v.float_layouts
    &&& l.aggregate_layout == v.aggregate_layout
    &&& l.function_pointer_layout == v.function_pointer_layout
    &&& ints_match(v.native_integer_widths, l.native_integer_widths.widths@)
    &&& ints_match(v.nointptr_address_spaces, l.nointptr_address_spaces.address_spaces@)
}

/// Whether the data layout `l` holds exactly the spec-level value `v`,
/// with each of the four layout lists holding exactly `v`'s records in
/// ascending order. The order is total and separates unequal records, so
/// the records and the order determine each list outright.
pub open spec fn layout_matches(l: DataLayout, v: DataLayoutV) -> bool {
    &&& l.endianness == v.endianness
    &&& l.mangling == v.mangling
    &&& l.stack_alignment == v.stack_alignment
    &&& l.program_address_space == v.program_address_space
    &&& l.global_address_space == v.global_address_space
    &&& l.alloc_address_space == v.alloc_address_space
    &&& l.pointer_layouts@.to_multiset() == v.pointer_layouts.to_multiset()
    &&& sorted_by(l.pointer_layouts@)
    &&& l.integer_layouts@.to_multiset() == v.integer_layouts.to_multiset()
    &&& sorted_by(l.integer_layouts@)
    &&& l.vector_layouts@.to_multiset() == v.vector_layouts.to_multiset()
    &&& sorted_by(l.vector_layouts@)
    &&& l.float_layouts@.to_multiset() == v.float_layouts.to_multiset()
    &&& sorted_by(l.float_layouts@)
    &&& l.aggregate_layout == v.aggregate_layout
    &&& l.function_pointer_layout == v.function_pointer_layout
    &&& ints_match(v.native_integer_widths, l.native_integer_widths.widths@)
    &&& ints_match(v.nointptr_address_spaces, l.nointptr_address_spaces.address_spaces@)
}

/// Sequences with the same records agree on any per-record property; here,
/// on every pointer record lying in address space zero.
pub proof fn lemma_same_pointer_spaces(a: Seq<PointerLayout>, b: Seq<PointerLayout>)
    requires
        a.to_multiset() == b.to_multiset(),
        forall|i: int| 0 <= i < a.len() ==> (#[trigger] a[i]).address_space == 0,
    ensures
        forall|i: int| 0 <= i < b.len() ==> (#[trigger] b[i]).address_space == 0,
{
    broadcast use vstd::seq_lib::group_to_multiset_ensures;

    assert forall|i: int| 0 <= i < b.len() implies (#[trigger] b[i]).address_space == 0 by {
        assert(b.contains(b[i]));
        assert(b.to_multiset().count(b[i]) > 0);
        assert(a.contains(b[i]));
        let j = choose|j: int| 0 <= j < a.len() && a[j] == b[i];
        assert(a[j].address_space == 0);
    }
}

/// Finds the first dash at or after `from`, or the end of the string.
fn find_dash(s: &str, from: usize) -> (r: usize)
    requires
        from <= s@.len(),
    ensures
        r == first_dash(s@, from as int),
        from <= r <= s@.len(),
{
    proof {
        lemma_first_dash(s@, from as int);
    }
    let n = s.unicode_len();
    let mut i: usize = from;
    while i < n
        invariant
            from <= i <= n,
            n == s@.len(),
            forall|j: int| from <= j < i ==> (#[trigger] s@[j]) != '-',
        decreases n - i,
    {
        if s.get_char(i) == '-' {
            proof {
                lemma_first_dash(s@, from as int);
                if first_dash(s@, from as int) != i as int {
                    assert(false);
                }
            }
            return i;
        }
        i += 1;
    }
    proof {
        lemma_first_dash(s@, from as int);
        if first_dash(s@, from as int) < n as int {
            assert(false);
        }
    }
    n
}

fn contains_int_size(v: &Vec<IntegerLayout>, sz: usize) -> (r: bool)
    ensures
        r == has_int_size(v@, sz),
{
    let n = v.len();
    let mut i: usize = 0;
    while i < n
        invariant
            i <= n,
            n == v@.len(),
            forall|j: int| 0 <= j < i ==> (#[trigger] v@[j]).size != sz,
        decreases n - i,
    {
        if v[i].size == sz {
            return true;
        }
        i += 1;
    }
    false
}

fn contains_vector_size(v: &Vec<VectorLayout>, sz: usize) -> (r: bool)
    ensures
        r == has_vector_size(v@, sz),
{
    let n = v.len();
    let mut i: usize = 0;
    while i < n
        invariant
            i <= n,
            n == v@.len(),
            forall|j: int| 0 <= j < i ==> (#[trigger] v@[j]).size != sz,
        decreases n - i,
    {
        if v[i].size == sz {
            return true;
        }
        i += 1;
    }
    false
}

fn contains_float_size(v: &Vec<FloatLayout>, sz: usize) -> (r: bool)
    ensures
        r == has_float_size(v@, sz),
{
    let n = v.len();
    let mut i: usize = 0;
    while i < n
        invariant
            i <= n,
            n == v@.len(),
            forall|j: int| 0 <= j < i ==> (#[trigger] v@[j]).size != sz,
        decreases n - i,
    {
        if v[i].size == sz {
            return true;
        }
        i += 1;
    }
    false
}

fn contains_addr_space(v: &Vec<PointerLayout>, space: usize) -> (r: bool)
    ensures
        r == has_addr_space(v@, space),
{
    let n = v.len();
    let mut i: usize = 0;
    while i < n
        invariant
            i <= n,
            n == v@.len(),
            forall|j: int| 0 <= j < i ==> (#[trigger] v@[j]).address_space != space,
        decreases n - i,
    {
        if v[i].address_space == space {
            return true;
        }
        i += 1;
    }
    false
}

impl DataLayout {
    /// Augments the parsed integer layouts with any missing defaults, then
    /// sorts the whole list ascending.
    pub fn int_specs_or_defaults(specs: Vec<IntegerLayout>) -> (r: Vec<IntegerLayout>)
        ensures
            r@.to_multiset() == with_int_defaults(specs@).to_multiset(),
            sorted_by(r@),
    {
        let mut specs = specs;
        if !contains_int_size(&specs, 1) {
            specs.push(IntegerLayout { size: 1, abi_alignment: 8, preferred_alignment: 8 });
        }
        if !contains_int_size(&specs, 8) {
            specs.push(IntegerLayout { size: 8, abi_alignment: 8, preferred_alignment: 8 });
        }
        if !contains_int_size(&specs, 16) {
            specs.push(IntegerLayout { size: 16, abi_alignment: 16, preferred_alignment: 16 });
        }
        if !contains_int_size(&specs, 32) {
            specs.push(IntegerLayout { size: 32, abi_alignment: 32, preferred_alignment: 32 });
        }
        if !contains_int_size(&specs, 64) {
            specs.push(IntegerLayout { size: 64, abi_alignment: 32, preferred_alignment: 64 });
        }
        sort_records(specs)
    }

    /// Augments the parsed vector layouts with any missing defaults, then
    /// sorts the whole list ascending.
    pub fn vec_specs_or_defaults(specs: Vec<VectorLayout>) -> (r: Vec<VectorLayout>)
        ensures
            r@.to_multiset() == with_vector_defaults(specs@).to_multiset(),
            sorted_by(r@),
    {
        let mut specs = specs;
        if !contains_vector_size(&specs, 64) {
            specs.push(VectorLayout { size: 64, abi_alignment: 64, preferred_alignment: 64 });
        }
        if !contains_vector_size(&specs, 128) {
            specs.push(VectorLayout { size: 128, abi_alignment: 128, preferred_alignment: 128 });
        }
        sort_records(specs)
    }

    /// Augments the parsed floating-point layouts with any missing defaults,
    /// then sorts the whole list ascending.
    pub fn float_specs_or_defaults(specs: Vec<FloatLayout>) -> (r: Vec<FloatLayout>)
        ensures
            r@.to_multiset() == with_float_defaults(specs@).to_multiset(),
            sorted_by(r@),
    {
        let mut specs = specs;
        if !contains_float_size(&specs, 16) {
            specs.push(FloatLayout { size: 16, abi_alignment: 16, preferred_alignment: 16 });
        }
        if !contains_float_size(&specs, 32) {
            specs.push(FloatLayout { size: 32, abi_alignment: 32, preferred_alignment: 32 });
        }
        if !contains_float_size(&specs, 64) {
            specs.push(FloatLayout { size: 64, abi_alignment: 64, preferred_alignment: 64 });
        }
        if !contains_float_size(&specs, 128) {
            specs.push(FloatLayout { size: 128, abi_alignment: 128, preferred_alignment: 128 });
        }
        sort_records(specs)
    }

    /// Augments the parsed pointer layouts with the default for address
    /// space zero when that space is not described, then sorts the whole
    /// list ascending.
    pub fn pointer_specs_or_defaults(specs: Vec<PointerLayout>) -> (r: Vec<PointerLayout>)
        ensures
            r@.to_multiset() == with_pointer_defaults(specs@).to_multiset(),
            sorted_by(r@),
    {
        let mut specs = specs;
        if !contains_addr_space(&specs, 0) {
            specs.push(
                PointerLayout {
                    address_space: 0,
                    size: 64,
                    abi_alignment: 64,
                    preferred_alignment: 64,
                    index_size: 64,
                },
            );
        }
        sort_records(specs)
    }

    /// Constructs a new data layout description from the provided
    /// `layout_string`.
    ///
    /// Any portion of the specification left out takes its default value; an
    /// unrecognizable segment is an error.
    #[verifier::rlimit(60)]
    pub fn new(layout_string: &str) -> (r: Result<DataLayout, Error>)
        ensures
            match r {
                Ok(l) => {
                    &&& fold_layout(dash_parts(layout_string@, 0), initial_layout()) is Some
                    &&& layout_matches(
                        l,
                        add_defaults(
                            fold_layout(dash_parts(layout_string@, 0), initial_layout())->Some_0,
                        ),
                    )
                },
                Err(e) => {
                    &&& fold_layout(dash_parts(layout_string@, 0), initial_layout()) is None
                    &&& e is InvalidDataLayoutSpecification
                },
            },
    {
        let n = layout_string.unicode_len();
        let mut widths: Vec<usize> = Vec::new();
        widths.push(32);
        widths.push(64);
        let mut layout = DataLayout {
            endianness: Endianness::Little,
            mangling: Mangling::ELF,
            stack_alignment: 0,
            program_address_space: 0,
            global_address_space: 0,
            alloc_address_space: 0,
            pointer_layouts: Vec::new(),
            integer_layouts: Vec::new(),
            vector_layouts: Vec::new(),
            float_layouts: Vec::new(),
            aggregate_layout: AggregateLayout { abi_alignment: 0, preferred_alignment: 64 },
            function_pointer_layout: FunctionPointerLayout {
                ptr_type: FunctionPointerType::Independent,
                abi_alignment: 64,
            },
            native_integer_widths: NativeIntegerWidths { widths },
            nointptr_address_spaces: NonIntegralPointerAddressSpaces {
                address_spaces: Vec::new(),
            },
        };
        let ghost mut accv: DataLayoutV = initial_layout();
        proof {
            assert(accv.native_integer_widths =~= seq![32, 64]);
            assert(layout_matches_exact(layout, accv));
        }
        let mut cur: usize = 0;
        loop
            invariant_except_break
                cur <= n,
                n == layout_string@.len(),
                fold_layout(dash_parts(layout_string@, 0), initial_layout()) == fold_layout(
                    dash_parts(layout_string@, cur as int),
                    accv,
                ),
                layout_matches_exact(layout, accv),
            ensures
                fold_layout(dash_parts(layout_string@, 0), initial_layout()) is Some,
                layout_matches_exact(
                    layout,
                    fold_layout(dash_parts(layout_string@, 0), initial_layout())->Some_0,
                ),
            decreases n - cur,
        {
            let d = find_dash(layout_string, cur);
            let part = layout_string.substring_char(cur, d);
            let ghost parts_here = dash_parts(layout_string@, cur as int);
            proof {
                lemma_first_dash(layout_string@, cur as int);
                if d < n {
                    assert(parts_here == seq![layout_string@.subrange(cur as int, d as int)]
                        + dash_parts(layout_string@, d + 1));
                    assert(parts_here[0] == part@);
                    assert(parts_here.drop_first() =~= dash_parts(layout_string@, d + 1));
                } else {
                    assert(parts_here == seq![layout_string@.subrange(
                        cur as int,
                        layout_string@.len() as int,
                    )]);
                    assert(parts_here[0] == part@);
                    assert(parts_here.drop_first() =~= Seq::<Seq<char>>::empty());
                }
            }
            let is_empty_part = cur == d;
            let mut matched = true;
            if is_empty_part {
                // An empty segment is tolerated and changes nothing.
            } else if let Some(e) = Endianness::parser(part) {
                layout.endianness = e;
            } else if let Some(m) = Mangling::parser(part) {
                layout.mangling = m;
            } else if let Some(a) = stack_alignment(part) {
                layout.stack_alignment = a;
            } else if let Some(p) = program_address_space(part) {
                layout.program_address_space = p;
            } else if let Some(g) = global_address_space(part) {
                layout.global_address_space = g;
            } else if let Some(a) = alloc_address_space(part) {
                layout.alloc_address_space = a;
            } else if let Some(pl) = PointerLayout::parser(part) {
                layout.pointer_layouts.push(pl);
            } else if let Some(il) = IntegerLayout::parser(part) {
                layout.integer_layouts.push(il);
            } else if let Some(vl) = VectorLayout::parser(part) {
                layout.vector_layouts.push(vl);
            } else if let Some(fl) = FloatLayout::parser(part) {
                layout.float_layouts.push(fl);
            } else if let Some(ag) = AggregateLayout::parser(part) {
                layout.aggregate_layout = ag;
            } else if let Some(fp) = FunctionPointerLayout::parser(part) {
                layout.function_pointer_layout = fp;
            } else if let Some(nw) = NativeIntegerWidths::parser(part) {
                layout.native_integer_widths = nw;
            } else if let Some(ni) = NonIntegralPointerAddressSpaces::parser(part) {
                layout.nointptr_address_spaces = ni;
            } else {
                matched = false;
            }
            if !matched {
                proof {
                    assert(apply_part(accv, part@) is None);
                    assert(fold_layout(parts_here, accv) is None);
                }
                let whole = layout_string.to_owned();
                let seg = part.to_owned();
                return Err(Error::InvalidDataLayoutSpecification(whole, seg));
            }
            proof {
                assert(apply_part(accv, part@) is Some);
                let accv2 = apply_part(accv, part@)->Some_0;
                assert(fold_layout(parts_here, accv) == fold_layout(
                    parts_here.drop_first(),
                    accv2,
                ));
                accv = accv2;
                assert(layout_matches_exact(layout, accv));
            }
            if d == n {
                break ;
            }
            cur = d + 1;
        }
        let DataLayout {
            endianness,
            mangling,
            stack_alignment: stack_align,
            program_address_space: prog_space,
            global_address_space: glob_space,
            alloc_address_space: alloc_space,
            pointer_layouts,
            integer_layouts,
            vector_layouts,
            float_layouts,
            aggregate_layout,
            function_pointer_layout,
            native_integer_widths,
            nointptr_address_spaces,
        } = layout;
        let pointer_layouts = DataLayout::pointer_specs_or_defaults(pointer_layouts);
        let integer_layouts = DataLayout::int_specs_or_defaults(integer_layouts);
        let vector_layouts = DataLayout::vec_specs_or_defaults(vector_layouts);
        let float_layouts = DataLayout::float_specs_or_defaults(float_layouts);
        let result = DataLayout {
            endianness,
            mangling,
            stack_alignment: stack_align,
            program_address_space: prog_space,
            global_address_space: glob_space,
            alloc_address_space: alloc_space,
            pointer_layouts,
            integer_layouts,
            vector_layouts,
            float_layouts,
            aggregate_layout,
            function_pointer_layout,
            native_integer_widths,
            nointptr_address_spaces,
        };
        proof {
            let v = add_defaults(fold_layout(dash_parts(layout_string@, 0), initial_layout())->Some_0);
            assert(result.pointer_layouts@.to_multiset() == v.pointer_layouts.to_multiset());
            assert(result.integer_layouts@.to_multiset() == v.integer_layouts.to_multiset());
            assert(result.vector_layouts@.to_multiset() == v.vector_layouts.to_multiset());
            assert(result.float_layouts@.to_multiset() == v.float_layouts.to_multiset());
            assert(layout_matches(result, v));
        }
        Ok(result)
    }
}

} // verus!
