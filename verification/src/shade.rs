//! Dimming of premultiplied RGBA pixels, used for the backdrop that is shown
//! outside the selected region.

use vstd::prelude::*;

verus! {

/// One colour channel scaled to 40%, rounded down.
pub open spec fn dim_channel(c: u8) -> u8 {
    ((c as int * 2) / 5) as u8
}

/// The dimmed form of an RGBA byte sequence: every red, green and blue byte is
/// scaled to 40% (rounded down), every alpha byte (index 3 of each pixel) is kept.
pub open spec fn dimmed(rgba: Seq<u8>) -> Seq<u8> {
    Seq::new(rgba.len(), |i: int| if i % 4 == 3 { rgba[i] } else { dim_channel(rgba[i]) })
}

/// Dims premultiplied RGBA pixels to 40% brightness, keeping their alpha.
pub fn darken_rgba(rgba: &[u8]) -> (out: Vec<u8>)
    ensures
        out@ == dimmed(rgba@),
{
    let mut out: Vec<u8> = Vec::with_capacity(rgba.len());
    let mut i: usize = 0;
    while i < rgba.len()
        invariant
            i <= rgba@.len(),
            out@.len() == i,
            forall|j: int| 0 <= j < i ==> out@[j] == dimmed(rgba@)[j],
        decreases rgba@.len() - i,
    {
        let c: u8 = rgba[i];
        if i % 4 == 3 {
            out.push(c);
        } else {
            let d: u8 = ((c as u16 * 2) / 5) as u8;
            out.push(d);
        }
        i = i + 1;
    }
    assert(out@ =~= dimmed(rgba@));
    out
}

/// Dimming keeps the length and every alpha byte, and never brightens a byte;
/// an opaque pixel stays opaque.
pub proof fn lemma_dimming_keeps_alpha_and_never_brightens(rgba: Seq<u8>)
    ensures
        dimmed(rgba).len() == rgba.len(),
        forall|i: int| 0 <= i < rgba.len() && i % 4 == 3 ==> #[trigger] dimmed(rgba)[i] == rgba[i],
        forall|i: int| 0 <= i < rgba.len() ==> #[trigger] dimmed(rgba)[i] <= rgba[i],
{
    assert forall|i: int| 0 <= i < rgba.len() implies #[trigger] dimmed(rgba)[i] <= rgba[i] by {
        let c: u8 = rgba[i];
        assert((c as int * 2) / 5 <= c as int);
    }
}

/// Each dimmed colour byte is 40% of the original byte rounded down: five times
/// it is at most twice the original, and less than that plus five.
pub proof fn lemma_dimmed_is_forty_percent_rounded_down(rgba: Seq<u8>, i: int)
    requires
        0 <= i < rgba.len(),
        i % 4 != 3,
    ensures
        5 * dimmed(rgba)[i] <= 2 * rgba[i] < 5 * dimmed(rgba)[i] + 5,
{
    let c: int = rgba[i] as int;
    assert(0 <= (c * 2) / 5 <= 102);
}

} // verus!
