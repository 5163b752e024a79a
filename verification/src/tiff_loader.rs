//! Reading the pages of a TIFF file into planes of 16-bit samples.
//!
//! The bytes are decoded by a decoder that the caller drives: it may stop
//! short on an ill-formed file in ways that are its own matter. What is
//! decided here is what is made of each of its answers: whether the size of
//! the first page is accepted, how a page becomes a plane, and when the
//! reading ends. The caller asks the decoder what the walk asks for, in the
//! walk's order, and hands each answer in; an error of the decoder comes as
//! its text.

use vstd::prelude::*;
use crate::volume::{ImageInfo, LoadError};

verus! {

/// The widest and the tallest page that is read.
pub const MAX_PLANE_SIDE: usize = 8192;

/// The largest number of pages that is read from one file.
pub const MAX_SLICES: usize = 512;

/// The samples of one decoded page, by their width.
pub enum PageSamples {
    Bytes(Vec<u8>),
    Words(Vec<u16>),
    Other,
}

/// The colour layout of a page, with the bits of one sample.
#[derive(Clone, Copy, Debug, PartialEq, Eq)]
pub enum PageColor {
    Gray(u8),
    Rgb(u8),
    Other,
}

/// The grey level of an RGB colour: 0.2989 r + 0.5870 g + 0.1140 b, rounded
/// down.
pub open spec fn gray_level(r: u8, g: u8, b: u8) -> int {
    (2989 * r + 5870 * g + 1140 * b) / 10000
}

/// The grey level of pixel `i` of interleaved RGB bytes, and 0 where the
/// bytes end before the pixel's third byte.
pub open spec fn gray_at(rgb: Seq<u8>, i: int) -> int {
    if 3 * i + 2 < rgb.len() {
        gray_level(rgb[3 * i], rgb[3 * i + 1], rgb[3 * i + 2])
    } else {
        0
    }
}

/// Turns interleaved 8-bit RGB into one grey sample per pixel, row by row.
/// A pixel that the bytes do not reach is 0.
pub fn convert_rgb_to_grayscale(rgb_data: &[u8], width: usize, height: usize) -> (gray: Vec<u16>)
    requires
        width * height <= usize::MAX,
    ensures
        gray@.len() == width * height,
        forall|i: int| 0 <= i < width * height ==> #[trigger] gray@[i] == gray_at(rgb_data@, i),
{
    let count: usize = width * height;
    let len: u128 = rgb_data.len() as u128;
    let mut gray: Vec<u16> = Vec::new();
    let mut i: usize = 0;
    while i < count
        invariant
            i <= count,
            len == rgb_data@.len(),
            len <= usize::MAX,
            gray@.len() == i,
            forall|j: int| 0 <= j < i ==> #[trigger] gray@[j] == gray_at(rgb_data@, j),
        decreases count - i,
    {
        let base: u128 = (i as u128) * 3;
        if base + 2 < len {
            let b0: usize = i * 3;
            let r: u32 = rgb_data[b0] as u32;
            let g: u32 = rgb_data[b0 + 1] as u32;
            let b: u32 = rgb_data[b0 + 2] as u32;
            let level: u32 = (2989 * r + 5870 * g + 1140 * b) / 10000;
            gray.push(level as u16);
        } else {
            gray.push(0);
        }
        i += 1;
    }
    gray
}

/// The plane that a page of bytes stands for: its grey levels where the
/// page is 8-bit RGB, the bytes themselves where it is 8-bit grey, and none
/// for any other layout.
pub open spec fn plane_of_bytes(bytes: Seq<u8>, color: PageColor, width: int, height: int)
    -> Option<Seq<u16>> {
    match color {
        PageColor::Rgb(bits) if bits == 8 => Some(
            Seq::new((width * height) as nat, |i: int| gray_at(bytes, i) as u16),
        ),
        PageColor::Gray(bits) if bits == 8 => Some(Seq::new(bytes.len(), |i: int| bytes[i] as u16)),
        _ => None,
    }
}

/// Makes the plane of a page that was decoded to bytes, or refuses the
/// page's colour layout.
pub fn plane_from_bytes(bytes: Vec<u8>, color: PageColor, width: usize, height: usize) -> (r:
    Result<ImageInfo, LoadError>)
    requires
        width * height <= usize::MAX,
    ensures
        match plane_of_bytes(bytes@, color, width as int, height as int) {
            Some(samples) => r matches Ok(plane) && plane.data@ == samples && plane.width == width
                && plane.height == height,
            None => r == Err::<ImageInfo, LoadError>(LoadError::UnsupportedColorFormat),
        },
{
    match color {
        PageColor::Rgb(bits) => {
            if bits == 8 {
                let data: Vec<u16> = convert_rgb_to_grayscale(bytes.as_slice(), width, height);
                Ok(ImageInfo { data, width, height })
            } else {
                Err(LoadError::UnsupportedColorFormat)
            }
        },
        PageColor::Gray(bits) => {
            if bits == 8 {
                let mut data: Vec<u16> = Vec::new();
                let mut i: usize = 0;
                while i < bytes.len()
                    invariant
                        i <= bytes.len(),
                        data@.len() == i,
                        forall|j: int| 0 <= j < i ==> #[trigger] data@[j] == bytes@[j] as u16,
                    decreases bytes.len() - i,
                {
                    data.push(bytes[i] as u16);
                    i += 1;
                }
                Ok(ImageInfo { data, width, height })
            } else {
                Err(LoadError::UnsupportedColorFormat)
            }
        },
        PageColor::Other => Err(LoadError::UnsupportedColorFormat),
    }
}

/// Every plane has the given width and height.
pub open spec fn all_sized(slices: Seq<ImageInfo>, width: int, height: int) -> bool {
    forall|k: int|
        0 <= k < slices.len() ==> (#[trigger] slices[k]).width == width && slices[k].height
            == height
}

/// A walk over the pages of a file: the planes of the pages read so far,
/// and the width and height that every plane carries. The page to read
/// next is the one of the number of planes had.
pub struct PageWalk {
    pub slices: Vec<ImageInfo>,
    pub width: usize,
    pub height: usize,
}

/// How a walk stands after an answer of the decoder.
pub enum Walked {
    /// The reading has ended, with these planes or this error.
    Finished(Result<Vec<ImageInfo>, LoadError>),
    /// The reading goes on.
    Onward(PageWalk),
}

/// How a walk stands after a page was read.
pub enum PageStep {
    /// The page is one of bytes: what they stand for rests on the colour
    /// layout of the page, which is to be asked for.
    Color(PageWalk, Vec<u8>),
    /// The page is dealt with.
    Walked(Walked),
}

/// The outcome of a reading that ends with these planes: the planes, or an
/// error where there are none.
pub open spec fn spec_finish(slices: Seq<ImageInfo>, r: Result<Vec<ImageInfo>, LoadError>)
    -> bool {
    if slices.len() == 0 {
        r == Err::<Vec<ImageInfo>, LoadError>(LoadError::NoImageData)
    } else {
        r matches Ok(all) && all@ == slices
    }
}

/// The walk after a plane was put behind the planes `before`: ended where
/// `MAX_SLICES` planes are had, else going on with one plane more.
pub open spec fn spec_taken(
    before: Seq<ImageInfo>,
    samples: Seq<u16>,
    width: usize,
    height: usize,
    walked: Walked,
) -> bool {
    if before.len() + 1 >= MAX_SLICES {
        walked matches Walked::Finished(Ok(all)) && is_one_more(
            all@,
            before,
            samples,
            width,
            height,
        )
    } else {
        walked matches Walked::Onward(next) && next.wf() && next.width == width && next.height
            == height && is_one_more(next.slices@, before, samples, width, height)
    }
}

/// The planes are those of `before`, in their order, and behind them one
/// plane of the given samples, width and height.
pub open spec fn is_one_more(
    all: Seq<ImageInfo>,
    before: Seq<ImageInfo>,
    samples: Seq<u16>,
    width: usize,
    height: usize,
) -> bool {
    &&& all.len() == before.len() + 1
    &&& all.drop_last() == before
    &&& all.last().data@ == samples
    &&& all.last().width == width
    &&& all.last().height == height
}

impl PageWalk {
    /// Fewer than `MAX_SLICES` planes are had, all of the width and height
    /// of the walk, neither above `MAX_PLANE_SIDE`.
    pub open spec fn wf(self) -> bool {
        &&& self.slices@.len() < MAX_SLICES
        &&& self.width <= MAX_PLANE_SIDE
        &&& self.height <= MAX_PLANE_SIDE
        &&& all_sized(self.slices@, self.width as int, self.height as int)
    }

    /// Begins the walk with what the decoder says of the file once it is
    /// opened: the width and height of its first page, or the error with
    /// which it refused to open the file or to tell them. The width and
    /// height are taken for every plane, and refused above
    /// `MAX_PLANE_SIDE`.
    pub fn start(opened: Result<(u32, u32), String>) -> (r: Result<PageWalk, LoadError>)
        ensures
            match opened {
                Err(text) => r == Err::<PageWalk, LoadError>(LoadError::Decode(text)),
                Ok((w, h)) => if w > MAX_PLANE_SIDE || h > MAX_PLANE_SIDE {
                    r == Err::<PageWalk, LoadError>(LoadError::DimensionsTooLarge)
                } else {
                    r matches Ok(walk) && walk.wf() && walk.slices@.len() == 0 && walk.width == w
                        && walk.height == h
                },
            },
    {
        match opened {
            Err(text) => Err(LoadError::Decode(text)),
            Ok((w, h)) => {
                let width: usize = w as usize;
                let height: usize = h as usize;
                if width > MAX_PLANE_SIDE || height > MAX_PLANE_SIDE {
                    return Err(LoadError::DimensionsTooLarge);
                }
                Ok(PageWalk { slices: Vec::new(), width, height })
            },
        }
    }

    /// Ends the reading with the planes had.
    fn finish(self) -> (r: Result<Vec<ImageInfo>, LoadError>)
        ensures
            spec_finish(self.slices@, r),
    {
        if self.slices.len() == 0 {
            Err(LoadError::NoImageData)
        } else {
            Ok(self.slices)
        }
    }

    /// Puts a plane behind the planes had.
    fn take(self, plane: ImageInfo) -> (walked: Walked)
        requires
            self.wf(),
            plane.width == self.width,
            plane.height == self.height,
        ensures
            spec_taken(self.slices@, plane.data@, self.width, self.height, walked),
    {
        let ghost before = self.slices@;
        let width: usize = self.width;
        let height: usize = self.height;
        let mut slices: Vec<ImageInfo> = self.slices;
        slices.push(plane);
        proof {
            assert(slices@.drop_last() =~= before);
        }
        if slices.len() >= MAX_SLICES {
            Walked::Finished(Ok(slices))
        } else {
            Walked::Onward(PageWalk { slices, width, height })
        }
    }

    /// Takes what the decoder answered when it was asked to read the page:
    /// its samples, or the text of its error.
    ///
    /// An error refuses the file. A page of 16-bit samples is a plane as it
    /// is. For a page of bytes the colour layout is to be asked for. A page
    /// of any other samples ends the reading with the planes had, and is an
    /// error where there are none.
    pub fn page(self, page: Result<PageSamples, String>) -> (step: PageStep)
        requires
            self.wf(),
        ensures
            match page {
                Err(text) => step matches PageStep::Walked(Walked::Finished(r)) && r == Err::<
                    Vec<ImageInfo>,
                    LoadError,
                >(LoadError::Decode(text)),
                Ok(PageSamples::Other) => step matches PageStep::Walked(Walked::Finished(r))
                    && spec_finish(self.slices@, r),
                Ok(PageSamples::Words(samples)) => step matches PageStep::Walked(walked)
                    && spec_taken(self.slices@, samples@, self.width, self.height, walked),
                Ok(PageSamples::Bytes(bytes)) => step matches PageStep::Color(walk, kept) && walk
                    == self && kept == bytes,
            },
    {
        match page {
            Err(text) => PageStep::Walked(Walked::Finished(Err(LoadError::Decode(text)))),
            Ok(PageSamples::Other) => PageStep::Walked(Walked::Finished(self.finish())),
            Ok(PageSamples::Words(samples)) => {
                let width: usize = self.width;
                let height: usize = self.height;
                PageStep::Walked(self.take(ImageInfo { data: samples, width, height }))
            },
            Ok(PageSamples::Bytes(bytes)) => PageStep::Color(self, bytes),
        }
    }

    /// Takes what the decoder answered when it was asked for the colour
    /// layout of a page of bytes: the layout, or the text of its error.
    ///
    /// An error refuses the file, and so do bytes that are neither 8-bit
    /// grey nor 8-bit RGB. Else the plane is the one that `plane_of_bytes`
    /// makes of the bytes.
    pub fn color(self, bytes: Vec<u8>, color: Result<PageColor, String>) -> (walked: Walked)
        requires
            self.wf(),
        ensures
            match color {
                Err(text) => walked == Walked::Finished(
                    Err::<Vec<ImageInfo>, LoadError>(LoadError::Decode(text)),
                ),
                Ok(layout) => match plane_of_bytes(
                    bytes@,
                    layout,
                    self.width as int,
                    self.height as int,
                ) {
                    None => walked == Walked::Finished(
                        Err::<Vec<ImageInfo>, LoadError>(LoadError::UnsupportedColorFormat),
                    ),
                    Some(samples) => spec_taken(
                        self.slices@,
                        samples,
                        self.width,
                        self.height,
                        walked,
                    ),
                },
            },
    {
        match color {
            Err(text) => Walked::Finished(Err(LoadError::Decode(text))),
            Ok(layout) => {
                assert(self.width * self.height <= usize::MAX) by (nonlinear_arith)
                    requires
                        0 <= self.width <= 8192,
                        0 <= self.height <= 8192,
                        usize::MAX >= 0xffff_ffff,
                ;
                match plane_from_bytes(bytes, layout, self.width, self.height) {
                    Ok(plane) => self.take(plane),
                    Err(e) => Walked::Finished(Err(e)),
                }
            },
        }
    }

    /// Takes what the decoder answered when it was asked whether a page
    /// follows: where none does, the reading ends with the planes had.
    pub fn follow(self, more: bool) -> (walked: Walked)
        requires
            self.wf(),
        ensures
            if more {
                walked == Walked::Onward(self)
            } else {
                walked matches Walked::Finished(r) && spec_finish(self.slices@, r)
            },
    {
        if more {
            Walked::Onward(self)
        } else {
            Walked::Finished(self.finish())
        }
    }

    /// Takes what the decoder answered when it was asked to move to the
    /// next page: an error refuses the file.
    pub fn moved(self, moved: Result<(), String>) -> (r: Result<PageWalk, LoadError>)
        ensures
            match moved {
                Err(text) => r == Err::<PageWalk, LoadError>(LoadError::Decode(text)),
                Ok(_) => r == Ok::<PageWalk, LoadError>(self),
            },
    {
        match moved {
            Err(text) => Err(LoadError::Decode(text)),
            Ok(_) => Ok(self),
        }
    }
}

} // verus!
