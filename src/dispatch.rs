use vstd::prelude::*;

verus! {

/// Number of workgroups needed to cover `extent` pixels with groups of `size`
/// pixels: the quotient rounded up, so that no edge pixel is dropped.
pub open spec fn groups_for(extent: nat, size: nat) -> nat
    recommends
        size > 0,
{
    if extent % size == 0 {
        extent / size
    } else {
        extent / size + 1
    }
}

proof fn lemma_div_parts(e: int, s: int)
    requires
        0 <= e,
        0 < s,
    ensures
        e == (e / s) * s + e % s,
        0 <= e % s < s,
        e % s != 0 ==> s >= 2 && e / s < e,
        e / s <= e,
{
    assert(e == (e / s) * s + e % s && 0 <= e % s < s) by (nonlinear_arith)
        requires
            0 < s,
    ;
    assert(e / s <= e) by (nonlinear_arith)
        requires
            0 <= e,
            0 < s,
            e == (e / s) * s + e % s,
            0 <= e % s,
    ;
    if e % s != 0 {
        assert(e / s < e) by (nonlinear_arith)
            requires
                2 <= s,
                0 <= e,
                e == (e / s) * s + e % s,
                0 < e % s,
        ;
    }
}

/// Workgroup count along one axis, rounded up.
pub fn workgroup_count(extent: u32, size: u32) -> (r: u32)
    requires
        size > 0,
    ensures
        r as nat == groups_for(extent as nat, size as nat),
        (r as int) * (size as int) >= extent as int,
        (r as int - 1) * (size as int) < extent as int,
{
    let q: u32 = extent / size;
    let rem: u32 = extent % size;
    proof {
        lemma_div_parts(extent as int, size as int);
    }
    let r: u32 = if rem == 0 { q } else { q + 1 };
    proof {
        let e = extent as int;
        let s = size as int;
        assert((r as int) * s >= e && (r as int - 1) * s < e) by (nonlinear_arith)
            requires
                e == q * s + rem,
                0 <= rem < s,
                rem == 0 ==> r == q,
                rem != 0 ==> r == q + 1,
        ;
    }
    r
}

/// The three dispatch dimensions of a stage whose texture is
/// `width` × `height`, tiled by square workgroups of side `size`.
pub fn dispatch_size(width: u32, height: u32, size: u32) -> (r: (u32, u32, u32))
    requires
        size > 0,
    ensures
        r.0 as nat == groups_for(width as nat, size as nat),
        r.1 as nat == groups_for(height as nat, size as nat),
        r.2 == 1,
{
    (workgroup_count(width, size), workgroup_count(height, size), 1)
}

} // verus!
