//! The viewer: one volume, one camera, one transfer function and one
//! renderer, behind the operations that a host calls.

use vstd::prelude::*;
use crate::camera::{pan_shift, spec_camera_axes, wrap_once, zoomed, Camera, TWO_PI};
use crate::fixed::{clamp, clamp_int};
use crate::geometry::{Mat4, Pose};
use crate::renderer::{pixel_at, spec_pixel, VolumeRenderer, RAY_STEP};
use crate::transfer_function::{table_in_range, TransferFunction};
use crate::volume::{planes_verdict, ImageInfo, LoadError, VolumeData};

verus! {

/// The largest width and height of the image.
pub const MAX_DIMENSION: usize = 16384;

/// The largest change of an angle by one orbit: 1 radian.
pub const ORBIT_LIMIT: i64 = 65_535_000;

/// The largest zoom delta of one call: 1.
pub const ZOOM_LIMIT: i64 = 65_535_000;

/// The largest pan delta of one call: 10.
pub const PAN_LIMIT: i64 = 655_350_000;

/// Why an operation of the viewer was refused.
#[derive(Debug, PartialEq, Eq)]
pub enum ViewerError {
    /// A viewer of width or height 0 was asked for.
    InvalidViewerDimensions,
    /// A viewer wider or taller than `MAX_DIMENSION` was asked for.
    ViewerDimensionsTooLarge,
    /// A resize to width or height 0 was asked for.
    InvalidResizeDimensions,
    /// A resize beyond `MAX_DIMENSION` was asked for.
    ResizeDimensionsTooLarge,
    /// The camera was moved before a volume was loaded.
    NoVolume,
    /// The loaded volume has a dimension of 0.
    InvalidVolumeDimensions,
    /// The angles after the orbit cannot be represented.
    InvalidOrbit,
    /// The distance after the zoom cannot be represented.
    InvalidZoom,
    /// The camera has no axes of its own in the pose given for the pan, or
    /// the target after the pan cannot be represented.
    InvalidPan,
    /// The pan delta does not hold two numbers.
    PanArity,
    /// The volume was not accepted.
    Load(LoadError),
}

impl ViewerError {
    /// The text of the error: that of the loading error for a volume that
    /// was not accepted, a fixed sentence for every other.
    pub open spec fn spec_message(self) -> Seq<char> {
        match self {
            ViewerError::InvalidViewerDimensions => "Invalid viewer dimensions"@,
            ViewerError::ViewerDimensionsTooLarge => "Viewer dimensions too large"@,
            ViewerError::InvalidResizeDimensions => "Invalid resize dimensions"@,
            ViewerError::ResizeDimensionsTooLarge => "Resize dimensions too large"@,
            ViewerError::NoVolume => "No volume data loaded"@,
            ViewerError::InvalidVolumeDimensions => "Invalid volume dimensions"@,
            ViewerError::InvalidOrbit => "Invalid orbit parameters"@,
            ViewerError::InvalidZoom => "Invalid zoom delta"@,
            ViewerError::InvalidPan => "Invalid pan parameters"@,
            ViewerError::PanArity => "Pan delta must be an array of 2 numbers"@,
            ViewerError::Load(e) => e.spec_message(),
        }
    }

    /// The text of the error, as a caller shows it.
    pub fn message(&self) -> (s: String)
        ensures
            s@ == self.spec_message(),
    {
        match self {
            ViewerError::InvalidViewerDimensions => "Invalid viewer dimensions".to_owned(),
            ViewerError::ViewerDimensionsTooLarge => "Viewer dimensions too large".to_owned(),
            ViewerError::InvalidResizeDimensions => "Invalid resize dimensions".to_owned(),
            ViewerError::ResizeDimensionsTooLarge => "Resize dimensions too large".to_owned(),
            ViewerError::NoVolume => "No volume data loaded".to_owned(),
            ViewerError::InvalidVolumeDimensions => "Invalid volume dimensions".to_owned(),
            ViewerError::InvalidOrbit => "Invalid orbit parameters".to_owned(),
            ViewerError::InvalidZoom => "Invalid zoom delta".to_owned(),
            ViewerError::InvalidPan => "Invalid pan parameters".to_owned(),
            ViewerError::PanArity => "Pan delta must be an array of 2 numbers".to_owned(),
            ViewerError::Load(e) => e.message(),
        }
    }
}

/// Why an image of `width` by `height` pixels is refused, if it is: `zero`
/// for a side of 0, else `large` for a side above `MAX_DIMENSION`.
pub open spec fn size_verdict(width: usize, height: usize, zero: ViewerError, large: ViewerError)
    -> Option<ViewerError> {
    if width == 0 || height == 0 {
        Some(zero)
    } else if width > MAX_DIMENSION || height > MAX_DIMENSION {
        Some(large)
    } else {
        None
    }
}

/// Why the camera of a viewer with this volume may not be moved, if it may
/// not: no volume is loaded, or the loaded one has a dimension of 0.
pub open spec fn volume_verdict(volume: Option<VolumeData>) -> Option<ViewerError> {
    match volume {
        None => Some(ViewerError::NoVolume),
        Some(v) => if v.dimensions.0 == 0 || v.dimensions.1 == 0 || v.dimensions.2 == 0 {
            Some(ViewerError::InvalidVolumeDimensions)
        } else {
            None
        },
    }
}

/// The viewer.
pub struct VolumeViewer {
    volume_data: Option<VolumeData>,
    camera: Camera,
    renderer: VolumeRenderer,
    transfer_func: TransferFunction,
}

impl VolumeViewer {
    /// The loaded volume, if there is one.
    pub closed spec fn volume(&self) -> Option<VolumeData> {
        self.volume_data
    }

    /// The camera.
    pub closed spec fn spec_camera(&self) -> Camera {
        self.camera
    }

    /// The renderer with its framebuffer.
    pub closed spec fn renderer(&self) -> VolumeRenderer {
        self.renderer
    }

    /// The transfer function.
    pub closed spec fn transfer_func(&self) -> TransferFunction {
        self.transfer_func
    }

    /// The parts are well-formed, the image has between 1 and
    /// `MAX_DIMENSION` pixels a side and is marched by `RAY_STEP`, the
    /// colour table lies in the unit range, and the yaw of the camera lies
    /// from 0 up to a full turn.
    pub open spec fn wf(&self) -> bool {
        &&& self.renderer().wf()
        &&& 1 <= self.renderer().width <= MAX_DIMENSION
        &&& 1 <= self.renderer().height <= MAX_DIMENSION
        &&& self.renderer().ray_step == RAY_STEP
        &&& self.transfer_func().wf()
        &&& table_in_range(self.transfer_func()@)
        &&& self.spec_camera().wf()
        &&& 0 <= self.spec_camera().orbit_angles.0 < TWO_PI
    }

    /// A viewer of `width` by `height` pixels without a volume: the camera
    /// and the transfer function are the default ones and the framebuffer is
    /// all zero. A side of 0 is refused, and so is one above
    /// `MAX_DIMENSION`.
    pub fn new(width: usize, height: usize) -> (r: Result<VolumeViewer, ViewerError>)
        ensures
            match size_verdict(
                width,
                height,
                ViewerError::InvalidViewerDimensions,
                ViewerError::ViewerDimensionsTooLarge,
            ) {
                Some(e) => r == Err::<VolumeViewer, ViewerError>(e),
                None => r matches Ok(v) && {
                    &&& v.wf()
                    &&& v.volume() is None
                    &&& v.spec_camera().is_default()
                    &&& v.transfer_func()@ == TransferFunction::default_points()
                    &&& v.renderer().width == width
                    &&& v.renderer().height == height
                    &&& forall|i: int|
                        0 <= i < v.renderer().framebuffer@.len() ==> v.renderer().framebuffer@[i]
                            == 0
                },
            },
    {
        if width == 0 || height == 0 {
            return Err(ViewerError::InvalidViewerDimensions);
        }
        if width > MAX_DIMENSION || height > MAX_DIMENSION {
            return Err(ViewerError::ViewerDimensionsTooLarge);
        }
        proof {
            lemma_frame_fits(width, height);
        }
        Ok(
            VolumeViewer {
                volume_data: None,
                camera: Camera::default(),
                renderer: VolumeRenderer::new(width, height),
                transfer_func: TransferFunction::default(),
            },
        )
    }

    /// Takes a stack of decoded planes as the volume. A stack that
    /// `planes_verdict` rejects leaves the viewer as it was. Else the
    /// dimensions of the new volume are returned; camera, transfer function
    /// and framebuffer stay.
    pub fn load_planes(&mut self, slices: Vec<ImageInfo>) -> (r: Result<
        (usize, usize, usize),
        ViewerError,
    >)
        requires
            old(self).wf(),
        ensures
            final(self).wf(),
            final(self).spec_camera() == old(self).spec_camera(),
            final(self).renderer() == old(self).renderer(),
            final(self).transfer_func() == old(self).transfer_func(),
            match planes_verdict(slices@) {
                Some(e) => r == Err::<(usize, usize, usize), ViewerError>(ViewerError::Load(e))
                    && final(self).volume() == old(self).volume(),
                None => {
                    &&& r == Ok::<(usize, usize, usize), ViewerError>(
                        (slices@[0].width, slices@[0].height, slices@.len() as usize),
                    )
                    &&& final(self).volume() matches Some(v) && {
                        &&& v.raw_data@ == crate::volume::flatten(slices@)
                        &&& v.dimensions == (
                            slices@[0].width,
                            slices@[0].height,
                            slices@.len() as usize,
                        )
                        &&& v.value_range.0 == 0
                        &&& v.value_range.1 == if crate::volume::has_wide_sample(slices@) {
                            65535u16
                        } else {
                            255u16
                        }
                    }
                },
            },
    {
        let mut volume: VolumeData = VolumeData::default();
        match volume.load_planes(slices) {
            Ok(_) => {
                let dimensions: (usize, usize, usize) = volume.dimensions;
                self.volume_data = Some(volume);
                Ok(dimensions)
            },
            Err(e) => Err(ViewerError::Load(e)),
        }
    }

    /// Renders the volume and returns the frame: `width * height` pixels of
    /// four bytes. Without a volume the frame is all zero, and the
    /// framebuffer is left as it was.
    pub fn render(&mut self, inv_view_proj: &Mat4) -> (frame: Vec<u8>)
        requires
            old(self).wf(),
            inv_view_proj.wf(),
        ensures
            final(self).wf(),
            final(self).volume() == old(self).volume(),
            final(self).spec_camera() == old(self).spec_camera(),
            final(self).transfer_func() == old(self).transfer_func(),
            final(self).renderer().width == old(self).renderer().width,
            final(self).renderer().height == old(self).renderer().height,
            frame@.len() == old(self).renderer().width * old(self).renderer().height * 4,
            match old(self).volume() {
                Some(volume) => frame@ == final(self).renderer().framebuffer@ && forall|
                    x: int,
                    y: int,
                |
                    0 <= x < old(self).renderer().width && 0 <= y < old(self).renderer().height
                        ==> #[trigger] pixel_at(frame@, old(self).renderer().width as int, x, y)
                        == spec_pixel(
                        volume,
                        old(self).transfer_func()@,
                        RAY_STEP as int,
                        *inv_view_proj,
                        old(self).renderer().width as int,
                        old(self).renderer().height as int,
                        x,
                        y,
                    ),
                None => final(self).renderer() == old(self).renderer() && forall|i: int|
                    0 <= i < frame@.len() ==> frame@[i] == 0,
            },
    {
        match &self.volume_data {
            Some(volume) => {
                self.renderer.render(volume, inv_view_proj, &self.transfer_func);
                let frame: Vec<u8> = self.renderer.framebuffer.clone();
                frame
            },
            None => {
                proof {
                    lemma_frame_fits(self.renderer.width, self.renderer.height);
                }
                vec![0u8; self.renderer.width * self.renderer.height * 4]
            },
        }
    }

    /// Turns the camera about its target. Each change is limited to
    /// `ORBIT_LIMIT` in magnitude before it is applied.
    ///
    /// The call is refused, and the viewer left as it was, as
    /// `volume_verdict` says, and where the pitch would leave the range of
    /// the machine.
    pub fn orbit(&mut self, delta_theta: i64, delta_phi: i64) -> (r: Result<(), ViewerError>)
        requires
            old(self).wf(),
        ensures
            final(self).wf(),
            final(self).volume() == old(self).volume(),
            final(self).renderer() == old(self).renderer(),
            final(self).transfer_func() == old(self).transfer_func(),
            match orbit_verdict(*old(self), delta_theta, delta_phi) {
                Some(e) => r == Err::<(), ViewerError>(e) && final(self).spec_camera()
                    == old(self).spec_camera(),
                None => {
                    let c0 = old(self).spec_camera();
                    let c1 = final(self).spec_camera();
                    &&& r is Ok
                    &&& c1.orbit_angles.0 == wrap_once(
                        c0.orbit_angles.0 + clamp_int(
                            delta_theta as int,
                            -ORBIT_LIMIT as int,
                            ORBIT_LIMIT as int,
                        ),
                    )
                    &&& c1.orbit_angles.1 == c0.orbit_angles.1 + clamp_int(
                        delta_phi as int,
                        -ORBIT_LIMIT as int,
                        ORBIT_LIMIT as int,
                    )
                    &&& c1.target == c0.target
                    &&& c1.distance == c0.distance
                    &&& c1.fov == c0.fov
                    &&& c1.near == c0.near
                    &&& c1.far == c0.far
                },
            },
    {
        match self.check_volume() {
            Some(e) => {
                return Err(e);
            },
            None => {},
        }
        let theta: i64 = clamp(delta_theta, -ORBIT_LIMIT, ORBIT_LIMIT);
        let phi: i64 = clamp(delta_phi, -ORBIT_LIMIT, ORBIT_LIMIT);
        if !self.camera.can_orbit(theta, phi) {
            return Err(ViewerError::InvalidOrbit);
        }
        self.camera.orbit(theta, phi);
        Ok(())
    }

    /// Moves the camera towards its target or away from it. The delta is
    /// limited to `ZOOM_LIMIT` in magnitude before it is applied.
    ///
    /// The call is refused, and the viewer left as it was, as
    /// `volume_verdict` says, and where the distance would leave the range
    /// of the machine.
    pub fn zoom(&mut self, delta: i64) -> (r: Result<(), ViewerError>)
        requires
            old(self).wf(),
        ensures
            final(self).wf(),
            final(self).volume() == old(self).volume(),
            final(self).renderer() == old(self).renderer(),
            final(self).transfer_func() == old(self).transfer_func(),
            match zoom_verdict(*old(self), delta) {
                Some(e) => r == Err::<(), ViewerError>(e) && final(self).spec_camera()
                    == old(self).spec_camera(),
                None => {
                    let c0 = old(self).spec_camera();
                    let c1 = final(self).spec_camera();
                    &&& r is Ok
                    &&& c1.distance == zoomed(
                        c0.distance as int,
                        c0.near as int,
                        clamp_int(delta as int, -ZOOM_LIMIT as int, ZOOM_LIMIT as int),
                    )
                    &&& c1.distance >= 2 * c1.near
                    &&& c1.orbit_angles == c0.orbit_angles
                    &&& c1.target == c0.target
                    &&& c1.fov == c0.fov
                    &&& c1.near == c0.near
                    &&& c1.far == c0.far
                },
            },
    {
        match self.check_volume() {
            Some(e) => {
                return Err(e);
            },
            None => {},
        }
        let clamped: i64 = clamp(delta, -ZOOM_LIMIT, ZOOM_LIMIT);
        if !self.camera.can_zoom(clamped) {
            return Err(ViewerError::InvalidZoom);
        }
        self.camera.zoom(clamped);
        Ok(())
    }

    /// Changes the size of the image: the framebuffer is replaced by one of
    /// `width * height` pixels, all zero, and nothing of the old one is
    /// kept. A side of 0 is refused, and so is one above `MAX_DIMENSION`;
    /// the viewer is then left as it was.
    pub fn resize(&mut self, width: usize, height: usize) -> (r: Result<(), ViewerError>)
        requires
            old(self).wf(),
        ensures
            final(self).wf(),
            final(self).volume() == old(self).volume(),
            final(self).spec_camera() == old(self).spec_camera(),
            final(self).transfer_func() == old(self).transfer_func(),
            match size_verdict(
                width,
                height,
                ViewerError::InvalidResizeDimensions,
                ViewerError::ResizeDimensionsTooLarge,
            ) {
                Some(e) => r == Err::<(), ViewerError>(e) && final(self).renderer()
                    == old(self).renderer(),
                None => {
                    &&& r is Ok
                    &&& final(self).renderer().width == width
                    &&& final(self).renderer().height == height
                    &&& final(self).renderer().framebuffer@.len() == width * height * 4
                    &&& forall|i: int|
                        0 <= i < width * height * 4 ==> final(self).renderer().framebuffer@[i] == 0
                },
            },
    {
        if width == 0 || height == 0 {
            return Err(ViewerError::InvalidResizeDimensions);
        }
        if width > MAX_DIMENSION || height > MAX_DIMENSION {
            return Err(ViewerError::ResizeDimensionsTooLarge);
        }
        proof {
            lemma_frame_fits(width, height);
        }
        self.renderer = VolumeRenderer::new(width, height);
        Ok(())
    }

    /// Moves the target across the view. `delta` holds the two deltas,
    /// each limited to `PAN_LIMIT` in magnitude before it is applied; `pose`
    /// is where the eye stands and which way is up for it.
    ///
    /// The call is refused, and the viewer left as it was, where `delta`
    /// does not hold two numbers, as `volume_verdict` says, where the camera
    /// has no axes of its own in the pose, and where the target would leave
    /// the range of the machine.
    pub fn pan(&mut self, delta: &[i64], pose: &Pose) -> (r: Result<(), ViewerError>)
        requires
            old(self).wf(),
        ensures
            final(self).wf(),
            final(self).volume() == old(self).volume(),
            final(self).renderer() == old(self).renderer(),
            final(self).transfer_func() == old(self).transfer_func(),
            match pan_verdict(*old(self), delta@, *pose) {
                Some(e) => r == Err::<(), ViewerError>(e) && final(self).spec_camera()
                    == old(self).spec_camera(),
                None => {
                    let c0 = old(self).spec_camera();
                    let c1 = final(self).spec_camera();
                    &&& r is Ok
                    &&& spec_camera_axes(c0.target, *pose) matches Some((right, up)) && (
                        c1.target.x - c0.target.x,
                        c1.target.y - c0.target.y,
                        c1.target.z - c0.target.z,
                    ) == pan_shift(clamped_pan(delta@), c0.distance as int, right, up)
                    &&& c1.orbit_angles == c0.orbit_angles
                    &&& c1.distance == c0.distance
                    &&& c1.fov == c0.fov
                    &&& c1.near == c0.near
                    &&& c1.far == c0.far
                },
            },
    {
        if delta.len() != 2 {
            return Err(ViewerError::PanArity);
        }
        match self.check_volume() {
            Some(e) => {
                return Err(e);
            },
            None => {},
        }
        let dx: i64 = clamp(delta[0], -PAN_LIMIT, PAN_LIMIT);
        let dy: i64 = clamp(delta[1], -PAN_LIMIT, PAN_LIMIT);
        if !self.camera.can_pan((dx, dy), pose) {
            return Err(ViewerError::InvalidPan);
        }
        self.camera.pan((dx, dy), pose);
        Ok(())
    }

    /// Why the camera may not be moved, if it may not.
    fn check_volume(&self) -> (r: Option<ViewerError>)
        ensures
            r == volume_verdict(self.volume()),
    {
        match &self.volume_data {
            None => Some(ViewerError::NoVolume),
            Some(v) => {
                if v.dimensions.0 == 0 || v.dimensions.1 == 0 || v.dimensions.2 == 0 {
                    Some(ViewerError::InvalidVolumeDimensions)
                } else {
                    None
                }
            },
        }
    }

    /// The camera.
    pub fn camera(&self) -> (c: &Camera)
        ensures
            *c == self.spec_camera(),
    {
        &self.camera
    }

    /// The width and height of the image.
    pub fn size(&self) -> (s: (usize, usize))
        ensures
            s == (self.renderer().width, self.renderer().height),
    {
        (self.renderer.width, self.renderer.height)
    }

    /// The dimensions of the loaded volume, if there is one.
    pub fn volume_dimensions(&self) -> (d: Option<(usize, usize, usize)>)
        ensures
            d == match self.volume() {
                Some(v) => Some(v.dimensions),
                None => None,
            },
    {
        match &self.volume_data {
            Some(v) => Some(v.dimensions),
            None => None,
        }
    }

    /// The framebuffer, as the last rendering or resizing left it.
    pub fn framebuffer(&self) -> (f: &Vec<u8>)
        ensures
            f@ == self.renderer().framebuffer@,
    {
        &self.renderer.framebuffer
    }
}

/// The two deltas of a pan, each limited to `PAN_LIMIT` in magnitude.
pub open spec fn clamped_pan(delta: Seq<i64>) -> (i64, i64) {
    (
        clamp_int(delta[0] as int, -PAN_LIMIT as int, PAN_LIMIT as int) as i64,
        clamp_int(delta[1] as int, -PAN_LIMIT as int, PAN_LIMIT as int) as i64,
    )
}

/// Why an orbit is refused, if it is.
pub open spec fn orbit_verdict(viewer: VolumeViewer, delta_theta: i64, delta_phi: i64) -> Option<
    ViewerError,
> {
    if volume_verdict(viewer.volume()) is Some {
        volume_verdict(viewer.volume())
    } else if !viewer.spec_camera().orbit_fits(
        clamp_int(delta_theta as int, -ORBIT_LIMIT as int, ORBIT_LIMIT as int) as i64,
        clamp_int(delta_phi as int, -ORBIT_LIMIT as int, ORBIT_LIMIT as int) as i64,
    ) {
        Some(ViewerError::InvalidOrbit)
    } else {
        None
    }
}

/// Why a zoom is refused, if it is.
pub open spec fn zoom_verdict(viewer: VolumeViewer, delta: i64) -> Option<ViewerError> {
    if volume_verdict(viewer.volume()) is Some {
        volume_verdict(viewer.volume())
    } else if !viewer.spec_camera().zoom_fits(
        clamp_int(delta as int, -ZOOM_LIMIT as int, ZOOM_LIMIT as int) as i64,
    ) {
        Some(ViewerError::InvalidZoom)
    } else {
        None
    }
}

/// Why a pan is refused, if it is.
pub open spec fn pan_verdict(viewer: VolumeViewer, delta: Seq<i64>, pose: Pose) -> Option<
    ViewerError,
> {
    if delta.len() != 2 {
        Some(ViewerError::PanArity)
    } else if volume_verdict(viewer.volume()) is Some {
        volume_verdict(viewer.volume())
    } else if !viewer.spec_camera().pan_fits(clamped_pan(delta), pose) {
        Some(ViewerError::InvalidPan)
    } else {
        None
    }
}

/// The framebuffer of an image of at most `MAX_DIMENSION` a side fits the
/// machine.
proof fn lemma_frame_fits(width: usize, height: usize)
    requires
        width <= MAX_DIMENSION,
        height <= MAX_DIMENSION,
    ensures
        width * height * 4 <= usize::MAX,
        width * height * 4 <= 0x4000_0000,
{
    assert(width * height <= 16384 * 16384) by (nonlinear_arith)
        requires
            0 <= width <= 16384,
            0 <= height <= 16384,
    ;
}

} // verus!
