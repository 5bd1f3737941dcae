//! Header layout of a mapped region.
//!
//! A segment's bytes are laid out as {mutex storage | attachment counter |
//! payload}, each field placed at the next offset aligned for it, and the
//! whole region sized to a multiple of the strictest alignment.  The layout
//! is computed once from the field sizes and alignments and is the same in
//! every attaching process.

use vstd::arithmetic::div_mod::{
    lemma_fundamental_div_mod, lemma_mod_decreases, lemma_mod_division_less_than_divisor,
    lemma_mod_multiples_basic,
};
use vstd::prelude::*;

verus! {

/// The least multiple of `a` that is at least `x`.
pub open spec fn spec_align_up(x: int, a: int) -> int
    recommends
        0 <= x,
        1 <= a,
{
    if x % a == 0 {
        x
    } else {
        x + a - x % a
    }
}

/// Rounding up to an alignment lands on that alignment, moves forward, and
/// overshoots by less than one alignment unit.
pub proof fn lemma_align_up(x: int, a: int)
    requires
        0 <= x,
        1 <= a,
    ensures
        x <= spec_align_up(x, a),
        spec_align_up(x, a) < x + a,
        spec_align_up(x, a) % a == 0,
{
    lemma_mod_division_less_than_divisor(x, a);
    if x % a != 0 {
        lemma_fundamental_div_mod(x, a);
        let q = x / a;
        let r = x % a;
        assert(x + a - r == (q + 1) * a) by (nonlinear_arith)
            requires
                x == a * q + r,
        ;
        lemma_mod_multiples_basic(q + 1, a);
    }
}

/// The computed header layout: the byte offset of each field of the region
/// header and the total segment size.
pub struct HeaderLayout {
    /// Offset of the process-shared mutex storage; always zero.
    pub mutex_offset: usize,
    /// Offset of the attachment counter word.
    pub counter_offset: usize,
    /// Offset of the typed payload.
    pub payload_offset: usize,
    /// Total byte size of the segment.
    pub total_size: usize,
    /// The strictest alignment among the three fields.
    pub align: usize,
}

/// The strictest of the three field alignments.
pub open spec fn spec_max_align(ma: int, ca: int, pa: int) -> int {
    if ma >= ca && ma >= pa {
        ma
    } else if ca >= pa {
        ca
    } else {
        pa
    }
}

/// Offset of the counter: the first offset past the mutex aligned for the
/// counter.
pub open spec fn spec_counter_offset(ms: int, ca: int) -> int {
    spec_align_up(ms, ca)
}

/// Offset of the payload: the first offset past the counter aligned for the
/// payload.
pub open spec fn spec_payload_offset(ms: int, ca: int, cs: int, pa: int) -> int {
    spec_align_up(spec_counter_offset(ms, ca) + cs, pa)
}

/// Total segment size: everything through the payload, rounded up to the
/// strictest alignment.
pub open spec fn spec_total_size(ms: int, ma: int, cs: int, ca: int, ps: int, pa: int) -> int {
    spec_align_up(
        spec_payload_offset(ms, ca, cs, pa) + ps,
        spec_max_align(ma, ca, pa),
    )
}

/// What a correctly computed layout looks like for the given field sizes and
/// alignments: fields in order, each aligned, none overlapping, all inside
/// the total size.
pub open spec fn layout_ok(
    l: HeaderLayout,
    ms: int,
    ma: int,
    cs: int,
    ca: int,
    ps: int,
    pa: int,
) -> bool {
    &&& l.mutex_offset == 0
    &&& l.counter_offset == spec_counter_offset(ms, ca)
    &&& l.payload_offset == spec_payload_offset(ms, ca, cs, pa)
    &&& l.total_size == spec_total_size(ms, ma, cs, ca, ps, pa)
    &&& l.align == spec_max_align(ma, ca, pa)
    &&& l.counter_offset as int % ca == 0
    &&& l.payload_offset as int % pa == 0
    &&& l.total_size as int % l.align as int == 0
    &&& ms <= l.counter_offset
    &&& l.counter_offset + cs <= l.payload_offset
    &&& l.payload_offset + ps <= l.total_size
}

/// Round `x` up to a multiple of `a`, or report that no such multiple fits
/// in a machine word.
fn align_up_checked(x: usize, a: usize) -> (r: Option<usize>)
    requires
        1 <= a,
    ensures
        match r {
            Some(v) => v == spec_align_up(x as int, a as int),
            None => spec_align_up(x as int, a as int) > usize::MAX,
        },
{
    let rem: usize = x % a;
    proof {
        lemma_mod_decreases(x as nat, a as nat);
    }
    if rem == 0 {
        Some(x)
    } else if x - rem <= usize::MAX - a {
        Some(x - rem + a)
    } else {
        None
    }
}

/// Compute the header layout from the mutex, counter and payload sizes and
/// alignments.  Returns `None` exactly when the segment would not fit in a
/// machine word.
pub fn compute_layout(
    mutex_size: usize,
    mutex_align: usize,
    counter_size: usize,
    counter_align: usize,
    payload_size: usize,
    payload_align: usize,
) -> (r: Option<HeaderLayout>)
    requires
        1 <= mutex_align,
        1 <= counter_align,
        1 <= payload_align,
    ensures
        match r {
            Some(l) => layout_ok(
                l,
                mutex_size as int,
                mutex_align as int,
                counter_size as int,
                counter_align as int,
                payload_size as int,
                payload_align as int,
            ),
            None => spec_total_size(
                mutex_size as int,
                mutex_align as int,
                counter_size as int,
                counter_align as int,
                payload_size as int,
                payload_align as int,
            ) > usize::MAX,
        },
{
    let align: usize = if mutex_align >= counter_align && mutex_align >= payload_align {
        mutex_align
    } else if counter_align >= payload_align {
        counter_align
    } else {
        payload_align
    };
    proof {
        lemma_align_up(mutex_size as int, counter_align as int);
    }
    let counter_offset: usize = match align_up_checked(mutex_size, counter_align) {
        Some(v) => v,
        None => {
            proof {
                lemma_overflow_propagates(
                    mutex_size as int,
                    mutex_align as int,
                    counter_size as int,
                    counter_align as int,
                    payload_size as int,
                    payload_align as int,
                );
            }
            return None;
        },
    };
    if counter_offset > usize::MAX - counter_size {
        proof {
            lemma_overflow_propagates(
                mutex_size as int,
                mutex_align as int,
                counter_size as int,
                counter_align as int,
                payload_size as int,
                payload_align as int,
            );
        }
        return None;
    }
    proof {
        lemma_align_up((counter_offset + counter_size) as int, payload_align as int);
    }
    let payload_offset: usize = match align_up_checked(counter_offset + counter_size, payload_align) {
        Some(v) => v,
        None => {
            proof {
                lemma_overflow_propagates(
                    mutex_size as int,
                    mutex_align as int,
                    counter_size as int,
                    counter_align as int,
                    payload_size as int,
                    payload_align as int,
                );
            }
            return None;
        },
    };
    if payload_offset > usize::MAX - payload_size {
        proof {
            lemma_overflow_propagates(
                mutex_size as int,
                mutex_align as int,
                counter_size as int,
                counter_align as int,
                payload_size as int,
                payload_align as int,
            );
        }
        return None;
    }
    proof {
        lemma_align_up((payload_offset + payload_size) as int, align as int);
    }
    let total_size: usize = match align_up_checked(payload_offset + payload_size, align) {
        Some(v) => v,
        None => {
            return None;
        },
    };
    Some(HeaderLayout {
        mutex_offset: 0,
        counter_offset,
        payload_offset,
        total_size,
        align,
    })
}

/// If an intermediate offset already exceeds a machine word, so does the
/// total size: each stage of the layout only moves forward.
proof fn lemma_overflow_propagates(ms: int, ma: int, cs: int, ca: int, ps: int, pa: int)
    requires
        0 <= ms,
        0 <= cs,
        0 <= ps,
        1 <= ma,
        1 <= ca,
        1 <= pa,
    ensures
        spec_counter_offset(ms, ca) + cs <= spec_payload_offset(ms, ca, cs, pa),
        spec_payload_offset(ms, ca, cs, pa) + ps <= spec_total_size(ms, ma, cs, ca, ps, pa),
{
    lemma_align_up(ms, ca);
    lemma_align_up(spec_counter_offset(ms, ca) + cs, pa);
    lemma_align_up(spec_payload_offset(ms, ca, cs, pa) + ps, spec_max_align(ma, ca, pa));
}

} // verus!
