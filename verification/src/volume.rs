//! The scalar volume: a stack of equal-sized planes of 16-bit samples, held
//! as one flat sequence with x running fastest, then y, then z.

use vstd::prelude::*;
use crate::fixed::{floor_div, floor_ratio, lemma_floor_ratio_bound, ONE};

verus! {

/// The largest number of samples a volume may hold: 256 MiB of 32-bit words.
pub const MAX_VOXELS: usize = 67_108_864;

/// One decoded plane: `width * height` samples, row by row.
#[derive(Debug, PartialEq, Eq)]
pub struct ImageInfo {
    pub data: Vec<u16>,
    pub width: usize,
    pub height: usize,
}

/// Why a file or a stack of planes was not accepted as a volume.
#[derive(Debug, PartialEq, Eq)]
pub enum LoadError {
    /// The decoder rejected the bytes; the text is the decoder's own.
    Decode(String),
    /// The first page is wider or taller than 8192 samples.
    DimensionsTooLarge,
    /// A page of bytes is neither 8-bit grey nor 8-bit RGB.
    UnsupportedColorFormat,
    /// The file decoded to no plane at all.
    NoImageData,
    /// The stack of planes is empty.
    NoSlices,
    /// `width * height * depth` does not fit the machine word.
    SizeOverflow,
    /// The volume would hold more than `MAX_VOXELS` samples.
    TooLarge,
    /// A plane differs from the first one in width or height.
    InconsistentDimensions,
}

impl LoadError {
    /// The text of the error: the decoder's own for an error of decoding,
    /// a fixed sentence for every other.
    pub open spec fn spec_message(self) -> Seq<char> {
        match self {
            LoadError::Decode(text) => text@,
            LoadError::DimensionsTooLarge => "Image dimensions too large"@,
            LoadError::UnsupportedColorFormat => "Unsupported color format"@,
            LoadError::NoImageData => "No valid image data found in TIFF"@,
            LoadError::NoSlices => "No valid slices found in TIFF"@,
            LoadError::SizeOverflow => "Integer overflow in size calculation"@,
            LoadError::TooLarge => "Image data too large to fit in memory"@,
            LoadError::InconsistentDimensions => "Inconsistent slice dimensions"@,
        }
    }

    /// The text of the error, as a caller shows it.
    pub fn message(&self) -> (s: String)
        ensures
            s@ == self.spec_message(),
    {
        match self {
            LoadError::Decode(text) => text.clone(),
            LoadError::DimensionsTooLarge => "Image dimensions too large".to_owned(),
            LoadError::UnsupportedColorFormat => "Unsupported color format".to_owned(),
            LoadError::NoImageData => "No valid image data found in TIFF".to_owned(),
            LoadError::NoSlices => "No valid slices found in TIFF".to_owned(),
            LoadError::SizeOverflow => "Integer overflow in size calculation".to_owned(),
            LoadError::TooLarge => "Image data too large to fit in memory".to_owned(),
            LoadError::InconsistentDimensions => "Inconsistent slice dimensions".to_owned(),
        }
    }
}

/// The samples of all planes, one plane after the other.
pub open spec fn flatten(slices: Seq<ImageInfo>) -> Seq<u16>
    decreases slices.len(),
{
    if slices.len() == 0 {
        Seq::empty()
    } else {
        flatten(slices.drop_last()) + slices.last().data@
    }
}

/// Some sample of some plane is larger than 255.
pub open spec fn has_wide_sample(slices: Seq<ImageInfo>) -> bool {
    exists|k: int, i: int|
        0 <= k < slices.len() && 0 <= i < slices[k].data@.len() && #[trigger] slices[k].data@[i]
            > 255
}

/// Every plane has the width and height of the first one.
pub open spec fn same_dimensions(slices: Seq<ImageInfo>) -> bool {
    forall|k: int|
        0 <= k < slices.len() ==> (#[trigger] slices[k]).width == slices[0].width
            && slices[k].height == slices[0].height
}

/// The reason for which a stack of planes is rejected, if it is. The tests
/// are made in this order: the first that fails names the error.
pub open spec fn planes_verdict(slices: Seq<ImageInfo>) -> Option<LoadError> {
    if slices.len() == 0 {
        Some(LoadError::NoSlices)
    } else if slices[0].width * slices[0].height * slices.len() > usize::MAX {
        Some(LoadError::SizeOverflow)
    } else if slices[0].width * slices[0].height * slices.len() > MAX_VOXELS {
        Some(LoadError::TooLarge)
    } else if !same_dimensions(slices) {
        Some(LoadError::InconsistentDimensions)
    } else {
        None
    }
}

/// A scalar volume and the range by which its samples are normalised.
#[derive(Debug, PartialEq, Eq)]
pub struct VolumeData {
    pub raw_data: Vec<u16>,
    pub dimensions: (usize, usize, usize),
    pub value_range: (u16, u16),
}

impl Default for VolumeData {
    /// The empty volume: no samples, all dimensions zero.
    fn default() -> (v: Self)
        ensures
            v.raw_data@ == Seq::<u16>::empty(),
            v.dimensions == (0usize, 0usize, 0usize),
            v.value_range == (0u16, 0u16),
    {
        VolumeData { raw_data: Vec::new(), dimensions: (0, 0, 0), value_range: (0, 0) }
    }
}

impl VolumeData {
    /// The position of the sample (x, y, z) in the flat sequence.
    pub open spec fn voxel_index(self, x: int, y: int, z: int) -> int {
        z * self.dimensions.0 * self.dimensions.1 + y * self.dimensions.0 + x
    }

    /// The sample at (x, y, z): none outside the dimensions, and none where
    /// the flat sequence is too short to hold it.
    pub open spec fn spec_sample(self, x: int, y: int, z: int) -> Option<u16> {
        if 0 <= x < self.dimensions.0 && 0 <= y < self.dimensions.1 && 0 <= z < self.dimensions.2
            && self.voxel_index(x, y, z) < self.raw_data@.len() {
            Some(self.raw_data@[self.voxel_index(x, y, z)])
        } else {
            None
        }
    }

    /// A raw sample brought into the unit range by the volume's value range:
    /// `(value - min) / (max - min)`, rounded down, and 0 for an empty range.
    pub open spec fn spec_normalized(self, value: u16) -> int {
        if self.value_range.1 == self.value_range.0 {
            0
        } else {
            floor_ratio(
                (value - self.value_range.0) * ONE,
                self.value_range.1 - self.value_range.0,
            )
        }
    }

    /// Takes a stack of decoded planes as the new volume.
    ///
    /// The stack is rejected as `planes_verdict` says, and the volume is then
    /// left as it was. Otherwise the planes are laid one after the other, the
    /// dimensions are those of the first plane and the number of planes, and
    /// the value range is 0 to 65535 if any sample exceeds 255, else 0 to 255.
    pub fn load_planes(&mut self, slices: Vec<ImageInfo>) -> (r: Result<(), LoadError>)
        ensures
            match planes_verdict(slices@) {
                Some(e) => r == Err::<(), LoadError>(e) && *final(self) == *old(self),
                None => {
                    &&& r is Ok
                    &&& final(self).raw_data@ == flatten(slices@)
                    &&& final(self).dimensions == (slices[0].width, slices[0].height, slices.len())
                    &&& final(self).value_range.0 == 0
                    &&& final(self).value_range.1 == if has_wide_sample(slices@) {
                        65535u16
                    } else {
                        255u16
                    }
                },
            },
    {
        if slices.len() == 0 {
            return Err(LoadError::NoSlices);
        }
        let width: usize = slices[0].width;
        let height: usize = slices[0].height;
        let depth: usize = slices.len();
        let plane: usize = match width.checked_mul(height) {
            Some(p) => p,
            None => {
                assert(width * height * depth > usize::MAX) by (nonlinear_arith)
                    requires
                        width * height > usize::MAX,
                        depth >= 1,
                ;
                return Err(LoadError::SizeOverflow);
            },
        };
        let total: usize = match plane.checked_mul(depth) {
            Some(t) => t,
            None => {
                return Err(LoadError::SizeOverflow);
            },
        };
        if total > MAX_VOXELS {
            return Err(LoadError::TooLarge);
        }
        let mut k: usize = 1;
        while k < depth
            invariant
                1 <= k <= depth,
                depth == slices.len(),
                width == slices[0].width,
                height == slices[0].height,
                width * height * depth <= MAX_VOXELS,
                forall|j: int|
                    0 <= j < k ==> (#[trigger] slices[j]).width == width && slices[j].height
                        == height,
            decreases depth - k,
        {
            if slices[k].width != width || slices[k].height != height {
                assert(!same_dimensions(slices@)) by {
                    let bad = slices@[k as int];
                    assert(bad.width != slices@[0].width || bad.height != slices@[0].height);
                }
                return Err(LoadError::InconsistentDimensions);
            }
            k += 1;
        }
        let mut combined: Vec<u16> = Vec::new();
        let mut wide: bool = false;
        let mut k: usize = 0;
        while k < depth
            invariant
                k <= depth,
                depth == slices.len(),
                combined@ == flatten(slices@.take(k as int)),
                wide == has_wide_sample(slices@.take(k as int)),
            decreases depth - k,
        {
            let data: &Vec<u16> = &slices[k].data;
            let ghost before = combined@;
            let ghost wide_before = wide;
            let mut i: usize = 0;
            while i < data.len()
                invariant
                    i <= data.len(),
                    combined@ == before + data@.take(i as int),
                    wide == (wide_before || exists|j: int| 0 <= j < i && #[trigger] data@[j] > 255),
                decreases data.len() - i,
            {
                let v: u16 = data[i];
                if v > 255 {
                    wide = true;
                }
                combined.push(v);
                i += 1;
            }
            proof {
                let prefix = slices@.take(k as int);
                let next = slices@.take(k as int + 1);
                assert(next.drop_last() == prefix);
                assert(has_wide_sample(next) == (has_wide_sample(prefix) || exists|j: int|
                    0 <= j < data@.len() && #[trigger] data@[j] > 255)) by {
                    if has_wide_sample(next) {
                        let (a, b) = choose|a: int, b: int|
                            0 <= a < next.len() && 0 <= b < next[a].data@.len()
                                && #[trigger] next[a].data@[b] > 255;
                        if a < k {
                            assert(prefix[a].data@[b] > 255);
                        } else {
                            assert(data@[b] > 255);
                        }
                    }
                    if has_wide_sample(prefix) {
                        let (a, b) = choose|a: int, b: int|
                            0 <= a < prefix.len() && 0 <= b < prefix[a].data@.len()
                                && #[trigger] prefix[a].data@[b] > 255;
                        assert(next[a].data@[b] > 255);
                    }
                    if exists|j: int| 0 <= j < data@.len() && #[trigger] data@[j] > 255 {
                        let b = choose|j: int| 0 <= j < data@.len() && #[trigger] data@[j] > 255;
                        assert(next[k as int].data@[b] > 255);
                    }
                }
            }
            k += 1;
        }
        proof {
            assert(slices@.take(depth as int) == slices@);
        }
        self.raw_data = combined;
        self.dimensions = (width, height, depth);
        self.value_range = (
            0,
            if wide {
                65535
            } else {
                255
            },
        );
        Ok(())
    }

    /// The sample at (x, y, z), if the volume holds one there.
    pub fn sample(&self, x: usize, y: usize, z: usize) -> (r: Option<u16>)
        ensures
            r == self.spec_sample(x as int, y as int, z as int),
    {
        let (width, height, depth): (usize, usize, usize) = self.dimensions;
        let len: usize = self.raw_data.len();
        if x >= width || y >= height || z >= depth {
            return None;
        }
        proof {
            assert(z * width >= 0 && y * width >= 0) by (nonlinear_arith)
                requires
                    z >= 0,
                    y >= 0,
                    width >= 0,
            ;
            assert(z * width * height >= z * width) by (nonlinear_arith)
                requires
                    z * width >= 0,
                    height >= 1,
            ;
        }
        let rows: usize = match z.checked_mul(width) {
            Some(v) => v,
            None => {
                return None;
            },
        };
        let below: usize = match rows.checked_mul(height) {
            Some(v) => v,
            None => {
                return None;
            },
        };
        let in_plane: usize = match y.checked_mul(width) {
            Some(v) => v,
            None => {
                return None;
            },
        };
        let start: usize = match below.checked_add(in_plane) {
            Some(v) => v,
            None => {
                return None;
            },
        };
        let index: usize = match start.checked_add(x) {
            Some(v) => v,
            None => {
                return None;
            },
        };
        if index < len {
            Some(self.raw_data[index])
        } else {
            None
        }
    }

    /// A raw sample brought into the unit range by the volume's value range.
    pub fn get_normalized_value(&self, value: u16) -> (r: i64)
        ensures
            r == self.spec_normalized(value),
    {
        let (min, max): (u16, u16) = self.value_range;
        if max == min {
            return 0;
        }
        let diff: i128 = value as i128 - min as i128;
        assert(-65535 * ONE <= diff * ONE <= 65535 * ONE) by (nonlinear_arith)
            requires
                -65535 <= diff <= 65535,
        ;
        let num: i128 = diff * (ONE as i128);
        let den: i128 = max as i128 - min as i128;
        let q: i128 = floor_div(num, den);
        proof {
            lemma_floor_ratio_bound(num as int, den as int, 65535 * ONE);
        }
        q as i64
    }
}

} // verus!
