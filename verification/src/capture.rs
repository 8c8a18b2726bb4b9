//! Captured RGBA frames: cropping, conversion to egui images, and the steps of
//! grabbing the primary monitor.

use vstd::prelude::*;

use crate::shade::{darken_rgba, dimmed};
use vstd::arithmetic::div_mod::lemma_fundamental_div_mod;
use vstd::arithmetic::mul::lemma_mul_nonnegative;

verus! {

/// A captured frame: `width` x `height` pixels, stored row by row as RGBA bytes.
#[derive(Debug)]
pub struct CaptureResult {
    pub width: u32,
    pub height: u32,
    pub data: Vec<u8>,
}

/// A pixel rectangle inside a frame: top-left corner and size.
#[derive(Clone, Copy, Debug)]
pub struct CropRect {
    pub x: u32,
    pub y: u32,
    pub width: u32,
    pub height: u32,
}

/// Number of bytes of a `width` x `height` RGBA frame.
pub open spec fn rgba_len(width: int, height: int) -> int {
    4 * width * height
}

/// Whether `len` bytes hold a `width` x `height` RGBA frame, the frame's byte
/// count being computed as `4 * width`, then times `height`, without overflow.
pub open spec fn rgba_buffer_fits(width: u32, height: u32, len: nat) -> bool {
    &&& 4 * width <= usize::MAX
    &&& rgba_len(width as int, height as int) <= usize::MAX
    &&& rgba_len(width as int, height as int) <= len
}

/// A start coordinate moved inside `0..=bound`.
pub open spec fn clamped_start(start: u32, bound: u32) -> u32 {
    if start < bound {
        start
    } else {
        bound
    }
}

/// The extent of `start..start + extent` once the range is cut to `0..bound`.
pub open spec fn clamped_extent(start: u32, extent: u32, bound: u32) -> u32 {
    let s: u32 = clamped_start(start, bound);
    if extent < bound - s {
        extent
    } else {
        (bound - s) as u32
    }
}

/// Byte `k` of the `cw` x `ch` block whose top-left pixel is `(x0, y0)` in a
/// frame of row length `width`.
pub open spec fn cropped_byte(width: u32, data: Seq<u8>, x0: u32, y0: u32, cw: u32, k: int) -> u8 {
    let p: int = k / 4;
    let c: int = cw as int;
    data[4 * ((y0 + p / c) * width + x0 + p % c) + k % 4]
}

/// The RGBA bytes of the `cw` x `ch` block whose top-left pixel is `(x0, y0)`,
/// row by row.
pub open spec fn cropped_rgba(width: u32, data: Seq<u8>, x0: u32, y0: u32, cw: u32, ch: u32) -> Seq<u8> {
    Seq::new(
        rgba_len(cw as int, ch as int) as nat,
        |k: int| cropped_byte(width, data, x0, y0, cw, k),
    )
}

/// Crops a raw RGBA frame with `image`: `RgbaImage::from_raw` wraps the bytes
/// (it refuses a buffer shorter than the frame, or a frame whose byte count
/// overflows), `DynamicImage::crop_imm` cuts the rectangle (clamped to the frame
/// first, as `imageops::crop_dimms` does) and copies its pixels into a new
/// buffer, whose size and bytes `width`, `height` and `into_bytes` hand back.
/// The contract states the refusal condition, the clamped size and every byte.
#[verifier::external_body]
fn crop_rgba(width: u32, height: u32, data: &[u8], x: u32, y: u32, w: u32, h: u32) -> (res: Option<(u32, u32, Vec<u8>)>)
    ensures
        res is Some <==> rgba_buffer_fits(width, height, data@.len()),
        res matches Some(c) ==> {
            &&& c.0 == clamped_extent(x, w, width)
            &&& c.1 == clamped_extent(y, h, height)
            &&& c.2@ == cropped_rgba(width, data@, clamped_start(x, width), clamped_start(y, height), c.0, c.1)
        },
{
    match image::RgbaImage::from_raw(width, height, data.to_vec()) {
        Some(img) => {
            let cropped = image::DynamicImage::ImageRgba8(img).crop_imm(x, y, w, h);
            Some((cropped.width(), cropped.height(), cropped.into_bytes()))
        },
        None => None,
    }
}

#[verifier::external_type_specification]
#[verifier::external_body]
pub struct ExColorImage(egui::ColorImage);

/// The pixels of an `egui::ColorImage` (its field `pixels`), row by row, each
/// `Color32` taken as its four premultiplied RGBA bytes.
pub uninterp spec fn color_image_rgba(img: egui::ColorImage) -> Seq<u8>;

/// The size of an `egui::ColorImage` (its field `size`): width, then height.
pub uninterp spec fn color_image_size(img: egui::ColorImage) -> (usize, usize);

/// What premultiplying pixel `p` of `src` into `dst` keeps, as
/// `Color32::from_rgba_unmultiplied` shows it: the alpha byte; the colour bytes
/// of an opaque pixel; and zero colour bytes for a fully transparent one.
pub open spec fn premultiplied_pixel(src: Seq<u8>, dst: Seq<u8>, p: int) -> bool {
    let a: u8 = src[4 * p + 3];
    &&& dst[4 * p + 3] == a
    &&& a == 255 ==> (dst[4 * p] == src[4 * p] && dst[4 * p + 1] == src[4 * p + 1] && dst[4 * p + 2] == src[4 * p + 2])
    &&& a == 0 ==> (dst[4 * p] == 0 && dst[4 * p + 1] == 0 && dst[4 * p + 2] == 0)
}

/// Whether `img` holds exactly the pixels its size calls for.
pub open spec fn color_image_is_exact(img: egui::ColorImage) -> bool {
    color_image_rgba(img).len() == rgba_len(color_image_size(img).0 as int, color_image_size(img).1 as int)
}

/// Builds an `egui::ColorImage` of unmultiplied RGBA bytes with
/// `ColorImage::from_rgba_unmultiplied`, which asserts that the byte count is
/// `4 * width * height`, sets `size` to `[width, height]` and premultiplies each
/// pixel with `Color32::from_rgba_unmultiplied`. That premultiplication goes
/// through `f32::powf` for a partly transparent pixel, whose result the
/// standard library does not fix, so the contract states only what holds of
/// every outcome: the length, and per pixel what `premultiplied_pixel` lists.
#[verifier::external_body]
fn color_image_from_unmultiplied(width: usize, height: usize, rgba: &[u8]) -> (img: egui::ColorImage)
    requires
        rgba@.len() == rgba_len(width as int, height as int),
    ensures
        color_image_size(img) == (width, height),
        color_image_rgba(img).len() == rgba@.len(),
        forall|p: int| 0 <= p < width * height ==> #[trigger] premultiplied_pixel(rgba@, color_image_rgba(img), p),
{
    egui::ColorImage::from_rgba_unmultiplied([width, height], rgba)
}

/// Builds an `egui::ColorImage` of premultiplied RGBA bytes with
/// `ColorImage::from_rgba_premultiplied`, which asserts that the byte count is
/// `4 * width * height`, sets `size` to `[width, height]` and makes pixel `i`
/// of bytes `4 * i .. 4 * i + 4` as they are (`Color32::from_rgba_premultiplied`).
#[verifier::external_body]
fn color_image_from_premultiplied(width: usize, height: usize, rgba: &[u8]) -> (img: egui::ColorImage)
    requires
        rgba@.len() == rgba_len(width as int, height as int),
    ensures
        color_image_size(img) == (width, height),
        color_image_rgba(img) == rgba@,
{
    egui::ColorImage::from_rgba_premultiplied([width, height], rgba)
}

/// Reads the pixels of an `egui::ColorImage` (its field `pixels`) as RGBA
/// bytes, each `Color32` through `Color32::to_array`.
#[verifier::external_body]
fn color_image_bytes(img: &egui::ColorImage) -> (rgba: Vec<u8>)
    ensures
        rgba@ == color_image_rgba(*img),
{
    img.pixels.iter().flat_map(|c| c.to_array()).collect()
}

/// Reads the size of an `egui::ColorImage` (its field `size`).
#[verifier::external_body]
fn color_image_dims(img: &egui::ColorImage) -> (size: (usize, usize))
    ensures
        size == color_image_size(*img),
{
    (img.size[0], img.size[1])
}

/// The egui image `img` dimmed to 40%, as shown around a selection: same size,
/// every colour byte scaled by `dimmed`, every alpha byte kept.
pub fn dim_color_image(img: &egui::ColorImage) -> (out: egui::ColorImage)
    requires
        color_image_is_exact(*img),
    ensures
        color_image_size(out) == color_image_size(*img),
        color_image_rgba(out) == dimmed(color_image_rgba(*img)),
{
    let size: (usize, usize) = color_image_dims(img);
    let w: usize = size.0;
    let h: usize = size.1;
    let px = color_image_bytes(img);
    let dark = darken_rgba(px.as_slice());
    color_image_from_premultiplied(w, h, dark.as_slice())
}

impl CaptureResult {
    /// Whether `data` holds exactly the frame's bytes.
    pub open spec fn is_exact(&self) -> bool {
        self.data@.len() == rgba_len(self.width as int, self.height as int)
    }

    /// Converts the frame into an egui image, premultiplying its alpha. Only
    /// what holds of every outcome of egui's floating-point premultiplication is
    /// stated: the size, the byte count, and per pixel what `premultiplied_pixel`
    /// lists.
    pub fn to_egui_color_image(&self) -> (img: egui::ColorImage)
        requires
            self.is_exact(),
        ensures
            color_image_size(img) == (self.width as usize, self.height as usize),
            color_image_is_exact(img),
            forall|p: int| 0 <= p < self.width * self.height
                ==> #[trigger] premultiplied_pixel(self.data@, color_image_rgba(img), p),
    {
        let w: usize = self.width as usize;
        let h: usize = self.height as usize;
        color_image_from_unmultiplied(w, h, self.data.as_slice())
    }

    /// Cuts `rect` out of the frame. The rectangle is first clamped to the
    /// frame, so the result may be smaller than asked, or empty. Returns `None`
    /// when `data` is too short for `width` x `height` pixels.
    pub fn crop(&self, rect: CropRect) -> (res: Option<CaptureResult>)
        ensures
            res is Some <==> rgba_buffer_fits(self.width, self.height, self.data@.len()),
            res matches Some(c) ==> {
                &&& c.is_exact()
                &&& c.width <= self.width
                &&& c.height <= self.height
                &&& c.width == clamped_extent(rect.x, rect.width, self.width)
                &&& c.height == clamped_extent(rect.y, rect.height, self.height)
                &&& c.data@ == cropped_rgba(
                    self.width,
                    self.data@,
                    clamped_start(rect.x, self.width),
                    clamped_start(rect.y, self.height),
                    c.width,
                    c.height,
                )
            },
    {
        match crop_rgba(self.width, self.height, self.data.as_slice(), rect.x, rect.y, rect.width, rect.height) {
            Some((w, h, data)) => {
                proof {
                    lemma_mul_nonnegative(4 * w, h as int);
                }
                Some(CaptureResult { width: w, height: h, data })
            },
            None => None,
        }
    }
}

/// Why the screen could not be captured.
#[derive(Debug)]
pub enum CaptureError {
    /// The system reported no monitor at all.
    NoPrimaryMonitor,
    /// The capture backend failed, with its message.
    Platform(String),
}

impl CaptureError {
    /// The message shown for this error.
    pub open spec fn spec_message(&self) -> Seq<char> {
        match self {
            CaptureError::NoPrimaryMonitor => "无法获取主显示器"@,
            CaptureError::Platform(m) => m@,
        }
    }

    /// The message shown for this error.
    pub fn message(&self) -> (m: String)
        ensures
            m@ == self.spec_message(),
    {
        match self {
            CaptureError::NoPrimaryMonitor => "无法获取主显示器".to_owned(),
            CaptureError::Platform(m) => m.clone(),
        }
    }
}

/// What the host reports to the capture procedure: that it starts, how many
/// monitors the system listed (or why listing failed), or the RGBA frame grabbed
/// from the monitor it was asked for (or why grabbing failed).
pub enum CaptureEvent {
    Start,
    MonitorsListed(Result<usize, String>),
    MonitorCaptured(Result<(u32, u32, Vec<u8>), String>),
}

/// What the capture procedure asks of its host next: list the monitors, grab
/// the frame of monitor `index` (in listing order), or stop with the outcome.
pub enum CaptureAction {
    ListMonitors,
    CaptureMonitor { index: usize },
    Finished(Result<CaptureResult, CaptureError>),
}

/// Whether `action` is the step that follows `event` when grabbing the primary monitor.
pub open spec fn is_capture_step(event: CaptureEvent, action: CaptureAction) -> bool {
    match event {
        CaptureEvent::Start => action is ListMonitors,
        CaptureEvent::MonitorsListed(Err(e)) => action matches CaptureAction::Finished(Err(CaptureError::Platform(m))) && m@ == e@,
        CaptureEvent::MonitorsListed(Ok(n)) => if n == 0 {
            action matches CaptureAction::Finished(Err(CaptureError::NoPrimaryMonitor))
        } else {
            action matches CaptureAction::CaptureMonitor { index } && index == 0
        },
        CaptureEvent::MonitorCaptured(Err(e)) => action matches CaptureAction::Finished(Err(CaptureError::Platform(m))) && m@ == e@,
        CaptureEvent::MonitorCaptured(Ok((w, h, d))) => action matches CaptureAction::Finished(Ok(r))
            && r.width == w && r.height == h && r.data@ == d@,
    }
}

/// One step of grabbing the primary monitor (the first one listed): list the
/// monitors, fail when there is none, grab the first, and wrap its frame.
pub fn capture_screen(event: CaptureEvent) -> (action: CaptureAction)
    ensures
        is_capture_step(event, action),
        event is Start ==> action is ListMonitors,
        event matches CaptureEvent::MonitorsListed(Ok(n)) ==> (
            if n == 0 {
                action matches CaptureAction::Finished(Err(CaptureError::NoPrimaryMonitor))
            } else {
                action matches CaptureAction::CaptureMonitor { index } && index == 0
            }),
        event matches CaptureEvent::MonitorsListed(Err(e)) ==> (
            action matches CaptureAction::Finished(Err(CaptureError::Platform(m))) && m@ == e@),
        event matches CaptureEvent::MonitorCaptured(Err(e)) ==> (
            action matches CaptureAction::Finished(Err(CaptureError::Platform(m))) && m@ == e@),
        event matches CaptureEvent::MonitorCaptured(Ok(frame)) ==> (
            action matches CaptureAction::Finished(Ok(r))
                && r.width == frame.0 && r.height == frame.1 && r.data@ == frame.2@),
{
    match event {
        CaptureEvent::Start => CaptureAction::ListMonitors,
        CaptureEvent::MonitorsListed(Err(e)) => CaptureAction::Finished(Err(CaptureError::Platform(e))),
        CaptureEvent::MonitorsListed(Ok(n)) => {
            if n == 0 {
                CaptureAction::Finished(Err(CaptureError::NoPrimaryMonitor))
            } else {
                CaptureAction::CaptureMonitor { index: 0 }
            }
        },
        CaptureEvent::MonitorCaptured(Err(e)) => CaptureAction::Finished(Err(CaptureError::Platform(e))),
        CaptureEvent::MonitorCaptured(Ok((w, h, d))) => {
            CaptureAction::Finished(Ok(CaptureResult { width: w, height: h, data: d }))
        },
    }
}

/// One step of capturing for a window. Windows are picked later, by selecting
/// their region on the full-screen frame, so this grabs the whole primary
/// monitor, exactly as `capture_screen` does.
pub fn capture_window(event: CaptureEvent) -> (action: CaptureAction)
    ensures
        is_capture_step(event, action),
        event is Start ==> action is ListMonitors,
        event matches CaptureEvent::MonitorsListed(Ok(n)) ==> (
            if n == 0 {
                action matches CaptureAction::Finished(Err(CaptureError::NoPrimaryMonitor))
            } else {
                action matches CaptureAction::CaptureMonitor { index } && index == 0
            }),
        event matches CaptureEvent::MonitorsListed(Err(e)) ==> (
            action matches CaptureAction::Finished(Err(CaptureError::Platform(m))) && m@ == e@),
        event matches CaptureEvent::MonitorCaptured(Err(e)) ==> (
            action matches CaptureAction::Finished(Err(CaptureError::Platform(m))) && m@ == e@),
        event matches CaptureEvent::MonitorCaptured(Ok(frame)) ==> (
            action matches CaptureAction::Finished(Ok(r))
                && r.width == frame.0 && r.height == frame.1 && r.data@ == frame.2@),
{
    capture_screen(event)
}

/// Cropping a whole frame out of itself gives back the frame: the clamped
/// rectangle is the frame, and every byte is where it was.
pub proof fn lemma_full_crop_is_identity(width: u32, height: u32, data: Seq<u8>)
    requires
        data.len() == rgba_len(width as int, height as int),
    ensures
        clamped_start(0, width) == 0,
        clamped_start(0, height) == 0,
        clamped_extent(0, width, width) == width,
        clamped_extent(0, height, height) == height,
        cropped_rgba(width, data, 0, 0, width, height) == data,
{
    let c = cropped_rgba(width, data, 0, 0, width, height);
    assert forall|k: int| 0 <= k < data.len() implies #[trigger] c[k] == data[k] by {
        let p: int = k / 4;
        let w: int = width as int;
        lemma_fundamental_div_mod(k, 4);
        assert(w > 0) by {
            if w == 0 {
                assert(rgba_len(w, height as int) == 0) by (nonlinear_arith)
                    requires w == 0;
            }
        }
        lemma_fundamental_div_mod(p, w);
        assert(4 * ((0 + p / w) * w + 0 + p % w) + k % 4 == k) by (nonlinear_arith)
            requires
                p == k / 4,
                k == 4 * (k / 4) + k % 4,
                p == w * (p / w) + p % w,
        ;
    }
    assert(c =~= data);
}

/// A crop reads only bytes of the frame: every byte of the result comes from
/// inside the first `4 * width * height` bytes.
pub proof fn lemma_crop_reads_inside(width: u32, height: u32, rect: CropRect, k: int)
    requires
        ({
            let cw: u32 = clamped_extent(rect.x, rect.width, width);
            let ch: u32 = clamped_extent(rect.y, rect.height, height);
            0 <= k < rgba_len(cw as int, ch as int)
        }),
    ensures
        ({
            let x0: int = clamped_start(rect.x, width) as int;
            let y0: int = clamped_start(rect.y, height) as int;
            let cw: int = clamped_extent(rect.x, rect.width, width) as int;
            let p: int = k / 4;
            let i: int = 4 * ((y0 + p / cw) * width + x0 + p % cw) + k % 4;
            0 <= i < rgba_len(width as int, height as int)
        }),
{
    let x0: int = clamped_start(rect.x, width) as int;
    let y0: int = clamped_start(rect.y, height) as int;
    let cw: int = clamped_extent(rect.x, rect.width, width) as int;
    let ch: int = clamped_extent(rect.y, rect.height, height) as int;
    let w: int = width as int;
    let h: int = height as int;
    let p: int = k / 4;
    lemma_fundamental_div_mod(k, 4);
    assert(cw > 0 && ch > 0) by {
        if cw == 0 || ch == 0 {
            assert(rgba_len(cw, ch) == 0) by (nonlinear_arith)
                requires cw == 0 || ch == 0;
        }
    }
    assert(p < cw * ch) by (nonlinear_arith)
        requires
            p == k / 4,
            0 <= k < 4 * cw * ch,
            k == 4 * (k / 4) + k % 4,
            0 <= k % 4 < 4,
    ;
    let r: int = p / cw;
    let c: int = p % cw;
    lemma_fundamental_div_mod(p, cw);
    assert(0 <= r < ch) by (nonlinear_arith)
        requires
            0 <= p < cw * ch,
            cw > 0,
            p == cw * (p / cw) + p % cw,
            0 <= p % cw < cw,
            r == p / cw,
    ;
    assert(0 <= 4 * ((y0 + r) * w + x0 + c) + k % 4 < 4 * w * h) by (nonlinear_arith)
        requires
            0 <= r < ch,
            0 <= c < cw,
            0 <= x0,
            0 <= y0,
            x0 + cw <= w,
            y0 + ch <= h,
            0 <= k % 4 < 4,
    ;
}

/// A crop never leaves the frame: the clamped corner and size stay inside it,
/// and a rectangle that fits in the frame is kept as asked.
pub proof fn lemma_crop_rect_inside(start: u32, extent: u32, bound: u32)
    ensures
        clamped_start(start, bound) <= bound,
        clamped_start(start, bound) + clamped_extent(start, extent, bound) <= bound,
        clamped_extent(start, extent, bound) <= extent,
        start + extent <= bound ==> clamped_start(start, bound) == start && clamped_extent(start, extent, bound) == extent,
        start >= bound ==> clamped_extent(start, extent, bound) == 0,
{
}

/// Cropping one pixel inside the frame gives that pixel's four bytes.
pub proof fn lemma_crop_single_pixel(width: u32, height: u32, data: Seq<u8>, x: u32, y: u32)
    requires
        x < width,
        y < height,
    ensures
        clamped_extent(x, 1, width) == 1,
        clamped_extent(y, 1, height) == 1,
        cropped_rgba(width, data, clamped_start(x, width), clamped_start(y, height), 1, 1) == seq![
            data[4 * (y * width + x)],
            data[4 * (y * width + x) + 1],
            data[4 * (y * width + x) + 2],
            data[4 * (y * width + x) + 3],
        ],
{
    let c: Seq<u8> = cropped_rgba(width, data, x, y, 1, 1);
    assert(rgba_len(1, 1) == 4);
    assert forall|k: int| 0 <= k < 4 implies c[k] == data[4 * (y * width + x) + k] by {
        assert(k / 4 == 0);
        assert(k % 4 == k);
    }
    assert(c =~= seq![
        data[4 * (y * width + x)],
        data[4 * (y * width + x) + 1],
        data[4 * (y * width + x) + 2],
        data[4 * (y * width + x) + 3],
    ]);
}

/// A frame holding exactly its bytes is accepted by `crop`, unless it has no
/// rows and `4 * width` itself overflows (possible only where `usize` has 32
/// bits).
pub proof fn lemma_exact_frame_fits(width: u32, height: u32, len: nat)
    requires
        len == rgba_len(width as int, height as int),
        len <= usize::MAX,
        height > 0 || 4 * width <= usize::MAX,
    ensures
        rgba_buffer_fits(width, height, len),
{
    if height > 0 {
        assert(4 * width <= rgba_len(width as int, height as int)) by (nonlinear_arith)
            requires height > 0;
    }
}

} // verus!
