//! Splitting an H.264 Annex B bitstream into NAL units.
//!
//! NAL units are separated by start codes: `00 00 00 01` or `00 00 01`.
use vstd::prelude::*;

verus! {

/// A four-byte start code begins at `j`.
pub open spec fn start_code4_at(d: Seq<u8>, j: int) -> bool {
    &&& 0 <= j
    &&& j + 3 < d.len()
    &&& d[j] == 0
    &&& d[j + 1] == 0
    &&& d[j + 2] == 0
    &&& d[j + 3] == 1
}

/// A three-byte start code begins at `j`.
pub open spec fn start_code3_at(d: Seq<u8>, j: int) -> bool {
    &&& 0 <= j
    &&& j + 2 < d.len()
    &&& d[j] == 0
    &&& d[j + 1] == 0
    &&& d[j + 2] == 1
}

/// The first position at or after `j` where a start code begins, or the
/// end of the data when there is none.
pub open spec fn next_start_code(d: Seq<u8>, j: int) -> int
    decreases d.len() - j,
{
    if j >= d.len() {
        d.len() as int
    } else if start_code4_at(d, j) || start_code3_at(d, j) {
        j
    } else {
        next_start_code(d, j + 1)
    }
}

/// `next_start_code` never moves backwards and never passes the end.
pub proof fn lemma_next_start_code_bounds(d: Seq<u8>, j: int)
    requires
        0 <= j,
    ensures
        j <= d.len() ==> j <= next_start_code(d, j) <= d.len(),
        j > d.len() ==> next_start_code(d, j) == d.len(),
    decreases d.len() - j,
{
    if j < d.len() && !(start_code4_at(d, j) || start_code3_at(d, j)) {
        lemma_next_start_code_bounds(d, j + 1);
    }
}

/// The NAL units found by scanning `d` from position `i`: at a start code,
/// the unit runs from just after it up to the next start code (or the end),
/// and the scan resumes there; elsewhere the scan moves on one byte. Empty
/// units are not reported.
pub open spec fn nal_units_from(d: Seq<u8>, i: int) -> Seq<Seq<u8>>
    decreases d.len() - i,
{
    if i < 0 || i >= d.len() {
        Seq::empty()
    } else if start_code4_at(d, i) || start_code3_at(d, i) {
        let s = if start_code4_at(d, i) { i + 4 } else { i + 3 };
        let e = next_start_code(d, s);
        proof {
            lemma_next_start_code_bounds(d, s);
        }
        (if s < e { seq![d.subrange(s, e)] } else { Seq::empty() }) + nal_units_from(d, e)
    } else {
        nal_units_from(d, i + 1)
    }
}

/// The NAL units of an Annex B bitstream, in order.
pub open spec fn nal_units(d: Seq<u8>) -> Seq<Seq<u8>> {
    nal_units_from(d, 0)
}

/// No start code begins anywhere in `d` from `s` up to `next_start_code(d, s)`.
proof fn lemma_no_start_code_before_next(d: Seq<u8>, s: int, j: int)
    requires
        0 <= s <= j < next_start_code(d, s),
    ensures
        !start_code4_at(d, j),
        !start_code3_at(d, j),
    decreases j - s,
{
    lemma_next_start_code_bounds(d, s);
    if j > s {
        assert(!(start_code4_at(d, s) || start_code3_at(d, s)));
        lemma_no_start_code_before_next(d, s + 1, j);
    }
}

/// Every extracted NAL unit is nonempty and holds no start code: units are
/// exactly the stretches between start codes.
pub proof fn law_nal_units_hold_no_start_code(d: Seq<u8>, i: int)
    requires
        0 <= i,
    ensures
        forall|k: int| 0 <= k < nal_units_from(d, i).len() ==> (#[trigger] nal_units_from(d, i)[k]).len() > 0,
        forall|k: int, j: int| 0 <= k < nal_units_from(d, i).len() ==>
            !#[trigger] start_code4_at(nal_units_from(d, i)[k], j),
        forall|k: int, j: int| 0 <= k < nal_units_from(d, i).len() ==>
            !#[trigger] start_code3_at(nal_units_from(d, i)[k], j),
    decreases d.len() - i,
{
    if i < d.len() {
        if start_code4_at(d, i) || start_code3_at(d, i) {
            let s = if start_code4_at(d, i) { i + 4 } else { i + 3 };
            let e = next_start_code(d, s);
            lemma_next_start_code_bounds(d, s);
            law_nal_units_hold_no_start_code(d, e);
            let head: Seq<Seq<u8>> = if s < e { seq![d.subrange(s, e)] } else { Seq::empty() };
            let rest = nal_units_from(d, e);
            assert(nal_units_from(d, i) == head + rest);
            if s < e {
                let u = d.subrange(s, e);
                assert forall|j: int| !start_code4_at(u, j) && !start_code3_at(u, j) by {
                    if start_code4_at(u, j) {
                        assert(u[j] == d[s + j] && u[j + 1] == d[s + j + 1] && u[j + 2] == d[s + j + 2] && u[j + 3] == d[s + j + 3]);
                        lemma_no_start_code_before_next(d, s, s + j);
                    }
                    if start_code3_at(u, j) {
                        assert(u[j] == d[s + j] && u[j + 1] == d[s + j + 1] && u[j + 2] == d[s + j + 2]);
                        lemma_no_start_code_before_next(d, s, s + j);
                    }
                }
            }
            assert forall|k: int| 0 <= k < nal_units_from(d, i).len() implies (#[trigger] nal_units_from(d, i)[k]).len() > 0 by {
                if k < head.len() {
                    assert(nal_units_from(d, i)[k] == d.subrange(s, e));
                } else {
                    assert(nal_units_from(d, i)[k] == rest[k - head.len()]);
                }
            }
            assert forall|k: int, j: int| 0 <= k < nal_units_from(d, i).len() implies
                !#[trigger] start_code4_at(nal_units_from(d, i)[k], j) && !start_code3_at(nal_units_from(d, i)[k], j) by {
                if k < head.len() {
                    assert(nal_units_from(d, i)[k] == d.subrange(s, e));
                    assert(!start_code4_at(d.subrange(s, e), j) && !start_code3_at(d.subrange(s, e), j));
                } else {
                    assert(nal_units_from(d, i)[k] == rest[k - head.len()]);
                    assert(!start_code4_at(rest[k - head.len()], j) && !start_code3_at(rest[k - head.len()], j));
                }
            }
        } else {
            law_nal_units_hold_no_start_code(d, i + 1);
            assert(nal_units_from(d, i) == nal_units_from(d, i + 1));
        }
    }
}

/// The bytes `d[start..end]` as a new vector.
pub fn copy_range(d: &[u8], start: usize, end: usize) -> (r: Vec<u8>)
    requires
        start <= end <= d@.len(),
    ensures
        r@ == d@.subrange(start as int, end as int),
{
    let mut r: Vec<u8> = Vec::new();
    let mut k: usize = start;
    while k < end
        invariant
            start <= k <= end <= d@.len(),
            r@ == d@.subrange(start as int, k as int),
        decreases end - k,
    {
        r.push(d[k]);
        proof {
            assert(d@.subrange(start as int, k + 1) =~= d@.subrange(start as int, k as int).push(d@[k as int]));
        }
        k = k + 1;
    }
    r
}

/// The contents of a sequence of byte vectors.
pub open spec fn byte_views(v: Seq<Vec<u8>>) -> Seq<Seq<u8>> {
    v.map_values(|b: Vec<u8>| b@)
}

/// Whether a four-byte start code begins at `j`.
fn is_start_code4(data: &[u8], j: usize) -> (r: bool)
    ensures
        r == start_code4_at(data@, j as int),
{
    j < data.len() && data.len() - j > 3 && data[j] == 0 && data[j + 1] == 0 && data[j + 2] == 0
        && data[j + 3] == 1
}

/// Whether a three-byte start code begins at `j`.
fn is_start_code3(data: &[u8], j: usize) -> (r: bool)
    ensures
        r == start_code3_at(data@, j as int),
{
    j < data.len() && data.len() - j > 2 && data[j] == 0 && data[j + 1] == 0 && data[j + 2] == 1
}

/// Extracts the NAL units from an Annex B bitstream, in order.
pub fn extract_nal_units(data: &[u8]) -> (r: Vec<Vec<u8>>)
    ensures
        byte_views(r@) == nal_units(data@),
{
    let ghost d = data@;
    let mut nals: Vec<Vec<u8>> = Vec::new();
    let mut i: usize = 0;
    let len = data.len();
    proof {
        assert(byte_views(nals@) =~= Seq::<Seq<u8>>::empty());
    }
    while i < len
        invariant
            len == d.len(),
            d == data@,
            i <= len,
            byte_views(nals@) + nal_units_from(d, i as int) == nal_units(d),
        decreases len - i,
    {
        let ghost i0 = i as int;
        let start: usize;
        if is_start_code4(data, i) {
            i = i + 4;
            start = i;
        } else if is_start_code3(data, i) {
            i = i + 3;
            start = i;
        } else {
            i = i + 1;
            continue;
        }
        let mut end: usize = start;
        while end < len && !is_start_code4(data, end) && !is_start_code3(data, end)
            invariant
                len == d.len(),
                d == data@,
                start <= end <= len,
                next_start_code(d, start as int) == next_start_code(d, end as int),
            decreases len - end,
        {
            end = end + 1;
        }
        proof {
            assert(end == next_start_code(d, end as int));
            assert(nal_units_from(d, i0) == (if start < end {
                seq![d.subrange(start as int, end as int)]
            } else {
                Seq::<Seq<u8>>::empty()
            }) + nal_units_from(d, end as int));
        }
        let ghost before = nals@;
        if start < end {
            let unit = copy_range(data, start, end);
            nals.push(unit);
            proof {
                assert(byte_views(nals@) =~= byte_views(before).push(d.subrange(start as int, end as int)));
            }
        }
        proof {
            assert(byte_views(nals@) + nal_units_from(d, end as int) =~= nal_units(d));
        }
        i = end;
    }
    nals
}

} // verus!
