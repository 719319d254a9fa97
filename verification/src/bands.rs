//! Partition of the FFT bins into the visualizer's frequency bands.
//!
//! The band edges follow a logarithmic scale over the audible range; they are
//! computed in floating point by the application and handed in here as raw bin
//! numbers, which this module clamps into valid, non-empty bin ranges and later
//! intersects with the spectrum actually available.
use vstd::prelude::*;

verus! {

/// The bin range `[low, high)` of one band, from its raw edges `raw` (the floor of
/// the lower edge frequency and the ceiling of the upper one, in bins) when the
/// spectrum has `nyquist_bins` bins: the lower edge is kept below the last bin,
/// the upper edge within the spectrum, and a band that would be empty is widened
/// to one bin.
pub open spec fn band_range(raw: (usize, usize), nyquist_bins: nat) -> (usize, usize) {
    let last: nat = if nyquist_bins == 0 { 0 } else { (nyquist_bins - 1) as nat };
    let low = if raw.0 < last { raw.0 as nat } else { last };
    let high = if raw.1 < nyquist_bins { raw.1 as nat } else { nyquist_bins };
    let high = if high <= low {
        if low + 1 < nyquist_bins { low + 1 } else { nyquist_bins }
    } else {
        high
    };
    (low as usize, high as usize)
}

/// The bins `[low, high)` of a band with range `range` that a spectrum of
/// `available` bins actually covers, or `None` when it covers none of them.
pub open spec fn band_slice(range: (usize, usize), available: nat) -> Option<(usize, usize)> {
    if range.0 >= available {
        None
    } else {
        let high = if range.1 < available { range.1 } else { available as usize };
        if high <= range.0 {
            None
        } else {
            Some((range.0, high))
        }
    }
}

/// Law: whatever the raw edges, every band of a spectrum with at least one bin
/// is a non-empty run of bins inside it.
pub proof fn lemma_bands_nonempty_within_spectrum(raw: (usize, usize), nyquist_bins: nat)
    requires
        1 <= nyquist_bins <= usize::MAX,
    ensures
        band_range(raw, nyquist_bins).0 < band_range(raw, nyquist_bins).1,
        band_range(raw, nyquist_bins).1 <= nyquist_bins,
{
}

/// Law: a band keeps its raw edges whenever they already describe a non-empty
/// run of bins that starts before the last bin and ends within the spectrum: the
/// upper edge is only ever clamped to the spectrum, never pulled towards the lower
/// one. Such a band then reads all of its bins from any spectrum that reaches its
/// upper edge.
pub proof fn lemma_band_keeps_raw_edges(raw: (usize, usize), nyquist_bins: nat, available: nat)
    requires
        raw.0 < raw.1 <= nyquist_bins,
        raw.0 + 1 < nyquist_bins,
    ensures
        band_range(raw, nyquist_bins) == raw,
        raw.1 <= available ==> band_slice(band_range(raw, nyquist_bins), available) == Some(raw),
{
}

/// Law: how any raw edges are turned into a band, told by what the result must
/// satisfy. The lower edge is the raw one, lowered to the last bin when it lies at
/// or past it. The upper edge is never below the raw upper edge clamped to the
/// spectrum, never past the spectrum, and it exceeds that clamped edge only to
/// widen a band that would otherwise be empty, to exactly one bin.
pub proof fn lemma_band_edges(raw: (usize, usize), nyquist_bins: nat)
    requires
        1 <= nyquist_bins <= usize::MAX,
    ensures
        raw.0 < nyquist_bins - 1 ==> band_range(raw, nyquist_bins).0 == raw.0,
        raw.0 >= nyquist_bins - 1 ==> band_range(raw, nyquist_bins).0 == nyquist_bins - 1,
        band_range(raw, nyquist_bins).1 >= (if raw.1 < nyquist_bins { raw.1 as nat } else { nyquist_bins }),
        band_range(raw, nyquist_bins).1 <= nyquist_bins,
        band_range(raw, nyquist_bins).1 > (if raw.1 < nyquist_bins { raw.1 as nat } else { nyquist_bins })
            ==> band_range(raw, nyquist_bins).1 == band_range(raw, nyquist_bins).0 + 1,
{
}

/// Law: the bins a band reads from a spectrum of `available` bins lie inside both
/// the band and the spectrum.
pub proof fn lemma_band_slice_within(range: (usize, usize), available: nat)
    ensures
        band_slice(range, available) matches Some(b) ==> range.0 <= b.0 && b.1 <= range.1 && b.0 < b.1
            && b.1 <= available,
{
}

/// Maps linear FFT magnitude bins onto logarithmically spaced frequency bands.
pub struct FrequencyBands {
    num_bands: usize,
    band_bin_ranges: Vec<(usize, usize)>,
}

impl FrequencyBands {
    #[verifier::type_invariant]
    spec fn inv(&self) -> bool {
        &&& self.band_bin_ranges@.len() == self.num_bands
        &&& forall|i: int|
            0 <= i < self.num_bands ==> #[trigger] self.band_bin_ranges@[i].0
                <= self.band_bin_ranges@[i].1
    }

    /// Number of bands.
    pub closed spec fn band_count(&self) -> nat {
        self.num_bands as nat
    }

    /// The bin range `[low, high)` of each band, lowest band first.
    pub closed spec fn ranges(&self) -> Seq<(usize, usize)> {
        self.band_bin_ranges@
    }

    /// Builds the band layout for an FFT of `fft_size` samples from the raw edges
    /// of each band (see `band_range`).
    pub fn new(num_bands: usize, fft_size: usize, raw_edges: &[(usize, usize)]) -> (bands: Self)
        requires
            raw_edges@.len() == num_bands,
        ensures
            bands.band_count() == num_bands,
            bands.ranges().len() == num_bands,
            forall|i: int|
                0 <= i < num_bands ==> #[trigger] bands.ranges()[i] == band_range(
                    raw_edges@[i],
                    (fft_size / 2) as nat,
                ),
    {
        let nyquist_bins = fft_size / 2;
        let last: usize = if nyquist_bins == 0 { 0 } else { nyquist_bins - 1 };
        let mut band_bin_ranges: Vec<(usize, usize)> = Vec::with_capacity(num_bands);
        let mut i: usize = 0;
        while i < num_bands
            invariant
                i <= num_bands,
                raw_edges@.len() == num_bands,
                nyquist_bins == fft_size / 2,
                last == if nyquist_bins == 0 { 0 } else { nyquist_bins - 1 },
                band_bin_ranges@.len() == i,
                forall|k: int|
                    0 <= k < i ==> #[trigger] band_bin_ranges@[k] == band_range(
                        raw_edges@[k],
                        nyquist_bins as nat,
                    ),
                forall|k: int|
                    0 <= k < i ==> #[trigger] band_bin_ranges@[k].0 <= band_bin_ranges@[k].1,
            decreases num_bands - i,
        {
            let (raw_low, raw_high) = raw_edges[i];
            let bin_low = if raw_low < last { raw_low } else { last };
            let mut bin_high = if raw_high < nyquist_bins { raw_high } else { nyquist_bins };
            if bin_high <= bin_low {
                bin_high = if bin_low + 1 < nyquist_bins { bin_low + 1 } else { nyquist_bins };
            }
            band_bin_ranges.push((bin_low, bin_high));
            i = i + 1;
        }
        FrequencyBands { num_bands, band_bin_ranges }
    }

    /// Number of frequency bands.
    pub fn num_bands(&self) -> (n: usize)
        ensures
            n == self.band_count(),
    {
        self.num_bands
    }

    /// The bins of band `band` that a spectrum of `available` bins covers, or
    /// `None` when the band lies beyond it (such a band shows as zero).
    pub fn band_bins(&self, band: usize, available: usize) -> (bins: Option<(usize, usize)>)
        requires
            band < self.band_count(),
        ensures
            bins == band_slice(self.ranges()[band as int], available as nat),
            bins matches Some(b) ==> b.0 < b.1 <= available,
    {
        proof {
            use_type_invariant(self);
        }
        let (bin_low, bin_high) = self.band_bin_ranges[band];
        if bin_low >= available {
            return None;
        }
        let high = if bin_high < available { bin_high } else { available };
        if high <= bin_low {
            None
        } else {
            Some((bin_low, high))
        }
    }
}

} // verus!
