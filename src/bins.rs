use vstd::prelude::*;

verus! {

/// The bin range `[low, high)` that a band reads from a spectrum of
/// `spectrum_len` bins, given the raw bins `low_bin` and `high_bin` its edge
/// frequencies fall in: `low` is raised to at least 1 (the DC bin is left out)
/// and then held to at most `spectrum_len - 1`; `high` is raised to at least
/// `low + 1` and then held to at most `spectrum_len`.
pub open spec fn resolved(low_bin: int, high_bin: int, spectrum_len: int) -> (int, int) {
    let lo1 = if low_bin < 1 { 1 } else { low_bin };
    let lo = if lo1 > spectrum_len - 1 { spectrum_len - 1 } else { lo1 };
    let hi1 = if high_bin < lo + 1 { lo + 1 } else { high_bin };
    let hi = if hi1 > spectrum_len { spectrum_len } else { hi1 };
    (lo, hi)
}

/// Clamps one band's raw bin range into the spectrum. Where the spectrum has a
/// bin beside DC, the result is never empty and never reads the DC bin.
pub fn resolve_bin_range(low_bin: usize, high_bin: usize, spectrum_len: usize) -> (r: (usize, usize))
    requires
        spectrum_len >= 1,
    ensures
        (r.0 as int, r.1 as int) == resolved(low_bin as int, high_bin as int, spectrum_len as int),
        spectrum_len >= 2 ==> 1 <= r.0 < r.1 <= spectrum_len,
{
    let lo1 = if low_bin < 1 { 1 } else { low_bin };
    let lo = if lo1 > spectrum_len - 1 { spectrum_len - 1 } else { lo1 };
    let hi1 = if high_bin < lo + 1 { lo + 1 } else { high_bin };
    let hi = if hi1 > spectrum_len { spectrum_len } else { hi1 };
    (lo, hi)
}

/// Clamps the raw bin range of every band into the spectrum, band by band.
pub fn resolve_bin_ranges(raw: &[(usize, usize)], spectrum_len: usize) -> (r: Vec<(usize, usize)>)
    requires
        spectrum_len >= 1,
    ensures
        r@.len() == raw@.len(),
        forall|i: int|
            0 <= i < raw@.len() ==> (#[trigger] r@[i].0 as int, r@[i].1 as int) == resolved(
                raw@[i].0 as int,
                raw@[i].1 as int,
                spectrum_len as int,
            ),
        spectrum_len >= 2 ==> forall|i: int|
            0 <= i < raw@.len() ==> 1 <= #[trigger] r@[i].0 < r@[i].1 <= spectrum_len,
{
    let mut r: Vec<(usize, usize)> = Vec::new();
    let mut i: usize = 0;
    while i < raw.len()
        invariant
            spectrum_len >= 1,
            i <= raw@.len(),
            r@.len() == i,
            forall|k: int|
                0 <= k < i ==> (#[trigger] r@[k].0 as int, r@[k].1 as int) == resolved(
                    raw@[k].0 as int,
                    raw@[k].1 as int,
                    spectrum_len as int,
                ),
            spectrum_len >= 2 ==> forall|k: int|
                0 <= k < i ==> 1 <= #[trigger] r@[k].0 < r@[k].1 <= spectrum_len,
        decreases raw@.len() - i,
    {
        let (low_bin, high_bin) = raw[i];
        r.push(resolve_bin_range(low_bin, high_bin, spectrum_len));
        i = i + 1;
    }
    r
}

} // verus!
