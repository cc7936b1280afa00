//! Stereo camera capture behind a trait, the GStreamer pipelines of the two
//! CSI cameras, and a mock camera that returns a fixed frame.

use vstd::prelude::*;
use crate::error::AppError;
use crate::text::{append_decimal, decimal_text};

verus! {

/// A captured stereo frame (left + right stacked horizontally).
#[derive(Debug)]
pub struct StereoFrame {
    /// JPEG-encoded image data (left | right, side by side).
    pub jpeg_data: Vec<u8>,
    /// Width of the combined image.
    pub width: u32,
    /// Height of the combined image.
    pub height: u32,
}

impl Clone for StereoFrame {
    fn clone(&self) -> (r: Self)
        ensures
            r.jpeg_data@ == self.jpeg_data@,
            r.width == self.width,
            r.height == self.height,
    {
        let data = self.jpeg_data.clone();
        proof {
            assert(data@ =~= self.jpeg_data@);
        }
        StereoFrame { jpeg_data: data, width: self.width, height: self.height }
    }
}

/// A source of stereo frames.
pub trait CameraCapture {
    /// Whether `capture` may be called in this state.
    spec fn can_capture(&self) -> bool;

    /// Captures a stereo frame from both cameras, as JPEG data with the two
    /// views side by side.
    fn capture(&mut self) -> Result<StereoFrame, AppError>
        requires
            old(self).can_capture(),
    ;

    /// Releases the camera resources.
    fn release(&mut self);
}

/// Sensor ids of the left and right cameras.
pub open spec fn sensor_pair(swap_cameras: bool) -> (u32, u32) {
    if swap_cameras { (1, 0) } else { (0, 1) }
}

/// The sensor ids of the left and right cameras; swapping exchanges them.
pub fn sensor_ids(swap_cameras: bool) -> (ids: (u32, u32))
    ensures
        ids == sensor_pair(swap_cameras),
{
    if swap_cameras { (1, 0) } else { (0, 1) }
}

/// The `nvarguscamerasrc` pipeline of one CSI sensor, delivering BGR frames
/// of the given size through an appsink that keeps only the newest buffer.
pub open spec fn pipeline_text(sensor_id: u32, width: u32, height: u32) -> Seq<char> {
    "nvarguscamerasrc sensor-id="@ + decimal_text(sensor_id as nat)
        + " ! video/x-raw(memory:NVMM),width="@ + decimal_text(width as nat)
        + ",height="@ + decimal_text(height as nat)
        + ",framerate=30/1 ! nvvidconv ! video/x-raw,format=BGRx ! videoconvert ! video/x-raw,format=BGR ! queue max-size-buffers=1 leaky=downstream ! appsink max-buffers=1 drop=true sync=false"@
}

/// Builds the GStreamer pipeline string of one sensor.
pub fn gstreamer_pipeline(sensor_id: u32, width: u32, height: u32) -> (p: String)
    ensures
        p@ == pipeline_text(sensor_id, width, height),
{
    let mut p = String::from_str("nvarguscamerasrc sensor-id=");
    append_decimal(&mut p, sensor_id as u64);
    p.append(" ! video/x-raw(memory:NVMM),width=");
    append_decimal(&mut p, width as u64);
    p.append(",height=");
    append_decimal(&mut p, height as u64);
    p.append(
        ",framerate=30/1 ! nvvidconv ! video/x-raw,format=BGRx ! videoconvert ! video/x-raw,format=BGR ! queue max-size-buffers=1 leaky=downstream ! appsink max-buffers=1 drop=true sync=false",
    );
    p
}

/// GStreamer-based CSI camera capture for the Jetson Nano: one pipeline per
/// sensor, frames stacked horizontally.
pub struct GStreamerCapture {
    left_pipeline: String,
    right_pipeline: String,
    width: u32,
    height: u32,
}

/// Text of the error a build without camera support answers with.
pub open spec fn no_camera_text() -> Seq<char> {
    "camera capture requires the `camera` feature flag"@
}

impl GStreamerCapture {
    pub closed spec fn left_text(&self) -> Seq<char> {
        self.left_pipeline@
    }

    pub closed spec fn right_text(&self) -> Seq<char> {
        self.right_pipeline@
    }

    pub closed spec fn size(&self) -> (u32, u32) {
        (self.width, self.height)
    }

    /// A capture for the given resolution; cameras are opened on first use.
    pub fn new(width: u32, height: u32, swap_cameras: bool) -> (c: Self)
        ensures
            c.left_text() == pipeline_text(sensor_pair(swap_cameras).0, width, height),
            c.right_text() == pipeline_text(sensor_pair(swap_cameras).1, width, height),
            c.size() == (width, height),
    {
        let (left_sensor_id, right_sensor_id) = sensor_ids(swap_cameras);
        let left_pipeline = gstreamer_pipeline(left_sensor_id, width, height);
        let right_pipeline = gstreamer_pipeline(right_sensor_id, width, height);
        GStreamerCapture { left_pipeline, right_pipeline, width, height }
    }

    /// The pipeline of the left camera.
    pub fn left_pipeline(&self) -> (p: &str)
        ensures
            p@ == self.left_text(),
    {
        self.left_pipeline.as_str()
    }

    /// The pipeline of the right camera.
    pub fn right_pipeline(&self) -> (p: &str)
        ensures
            p@ == self.right_text(),
    {
        self.right_pipeline.as_str()
    }

    /// Width and height of one camera view.
    pub fn frame_size(&self) -> (s: (u32, u32))
        ensures
            s == self.size(),
    {
        (self.width, self.height)
    }
}

impl CameraCapture for GStreamerCapture {
    open spec fn can_capture(&self) -> bool {
        true
    }

    /// Without camera hardware support compiled in, every capture fails.
    fn capture(&mut self) -> (r: Result<StereoFrame, AppError>)
        ensures
            r matches Err(AppError::Camera(m)) && m@ == no_camera_text(),
    {
        Err(AppError::Camera(String::from_str("camera capture requires the `camera` feature flag")))
    }

    fn release(&mut self) {
    }
}

/// Mock camera that returns a pre-configured frame and counts captures.
pub struct MockCapture {
    frame: StereoFrame,
    capture_count: u32,
}

impl MockCapture {
    pub closed spec fn frame_data(&self) -> Seq<u8> {
        self.frame.jpeg_data@
    }

    pub closed spec fn frame_size(&self) -> (u32, u32) {
        (self.frame.width, self.frame.height)
    }

    pub closed spec fn count(&self) -> u32 {
        self.capture_count
    }

    /// A mock returning a minimal 1x1 JPEG as a 1280x480 stereo frame.
    pub fn new() -> (m: Self)
        ensures
            m.frame_data() == minimal_jpeg_bytes(),
            m.frame_size() == (1280u32, 480u32),
            m.count() == 0,
    {
        MockCapture {
            frame: StereoFrame { jpeg_data: minimal_jpeg(), width: 1280, height: 480 },
            capture_count: 0,
        }
    }

    /// A mock returning the given frame.
    pub fn with_frame(frame: StereoFrame) -> (m: Self)
        ensures
            m.frame_data() == frame.jpeg_data@,
            m.frame_size() == (frame.width, frame.height),
            m.count() == 0,
    {
        MockCapture { frame, capture_count: 0 }
    }

    /// How many frames were captured.
    pub fn capture_count(&self) -> (c: u32)
        ensures
            c == self.count(),
    {
        self.capture_count
    }
}

impl CameraCapture for MockCapture {
    open spec fn can_capture(&self) -> bool {
        self.count() < u32::MAX
    }

    fn capture(&mut self) -> (r: Result<StereoFrame, AppError>)
        ensures
            r matches Ok(f) && f.jpeg_data@ == old(self).frame_data() && (f.width, f.height) == old(self).frame_size(),
            final(self).count() == old(self).count() + 1,
            final(self).frame_data() == old(self).frame_data(),
            final(self).frame_size() == old(self).frame_size(),
    {
        self.capture_count = self.capture_count + 1;
        Ok(self.frame.clone())
    }

    fn release(&mut self) {
    }
}

/// A minimal valid 1x1 white JPEG.
pub open spec fn minimal_jpeg_bytes() -> Seq<u8> {
    seq![
        0xFFu8, 0xD8, 0xFF, 0xE0, 0x00, 0x10, 0x4A, 0x46, 0x49, 0x46, 0x00, 0x01, 0x01, 0x00,
        0x00, 0x01, 0x00, 0x01, 0x00, 0x00, 0xFF, 0xDB, 0x00, 0x43, 0x00, 0x08, 0x06, 0x06,
        0x07, 0x06, 0x05, 0x08, 0x07, 0x07, 0x07, 0x09, 0x09, 0x08, 0x0A, 0x0C, 0x14, 0x0D,
        0x0C, 0x0B, 0x0B, 0x0C, 0x19, 0x12, 0x13, 0x0F, 0x14, 0x1D, 0x1A, 0x1F, 0x1E, 0x1D,
        0x1A, 0x1C, 0x1C, 0x20, 0x24, 0x2E, 0x27, 0x20, 0x22, 0x2C, 0x23, 0x1C, 0x1C, 0x28,
        0x37, 0x29, 0x2C, 0x30, 0x31, 0x34, 0x34, 0x34, 0x1F, 0x27, 0x39, 0x3D, 0x38, 0x32,
        0x3C, 0x2E, 0x33, 0x34, 0x32, 0xFF, 0xC0, 0x00, 0x0B, 0x08, 0x00, 0x01, 0x00, 0x01,
        0x01, 0x01, 0x11, 0x00, 0xFF, 0xC4, 0x00, 0x1F, 0x00, 0x00, 0x01, 0x05, 0x01, 0x01,
        0x01, 0x01, 0x01, 0x01, 0x00, 0x00, 0x00, 0x00, 0x00, 0x00, 0x00, 0x00, 0x01, 0x02,
        0x03, 0x04, 0x05, 0x06, 0x07, 0x08, 0x09, 0x0A, 0x0B, 0xFF, 0xC4, 0x00, 0xB5, 0x10,
        0x00, 0x02, 0x01, 0x03, 0x03, 0x02, 0x04, 0x03, 0x05, 0x05, 0x04, 0x04, 0x00, 0x00,
        0x01, 0x7D, 0x01, 0x02, 0x03, 0x00, 0x04, 0x11, 0x05, 0x12, 0x21, 0x31, 0x41, 0x06,
        0x13, 0x51, 0x61, 0x07, 0x22, 0x71, 0x14, 0x32, 0x81, 0x91, 0xA1, 0x08, 0x23, 0x42,
        0xB1, 0xC1, 0x15, 0x52, 0xD1, 0xF0, 0x24, 0x33, 0x62, 0x72, 0x82, 0x09, 0x0A, 0x16,
        0x17, 0x18, 0x19, 0x1A, 0x25, 0x26, 0x27, 0x28, 0x29, 0x2A, 0x34, 0x35, 0x36, 0x37,
        0x38, 0x39, 0x3A, 0x43, 0x44, 0x45, 0x46, 0x47, 0x48, 0x49, 0x4A, 0x53, 0x54, 0x55,
        0x56, 0x57, 0x58, 0x59, 0x5A, 0x63, 0x64, 0x65, 0x66, 0x67, 0x68, 0x69, 0x6A, 0x73,
        0x74, 0x75, 0x76, 0x77, 0x78, 0x79, 0x7A, 0x83, 0x84, 0x85, 0x86, 0x87, 0x88, 0x89,
        0x8A, 0x92, 0x93, 0x94, 0x95, 0x96, 0x97, 0x98, 0x99, 0x9A, 0xA2, 0xA3, 0xA4, 0xA5,
        0xA6, 0xA7, 0xA8, 0xA9, 0xAA, 0xB2, 0xB3, 0xB4, 0xB5, 0xB6, 0xB7, 0xB8, 0xB9, 0xBA,
        0xC2, 0xC3, 0xC4, 0xC5, 0xC6, 0xC7, 0xC8, 0xC9, 0xCA, 0xD2, 0xD3, 0xD4, 0xD5, 0xD6,
        0xD7, 0xD8, 0xD9, 0xDA, 0xE1, 0xE2, 0xE3, 0xE4, 0xE5, 0xE6, 0xE7, 0xE8, 0xE9, 0xEA,
        0xF1, 0xF2, 0xF3, 0xF4, 0xF5, 0xF6, 0xF7, 0xF8, 0xF9, 0xFA, 0xFF, 0xDA, 0x00, 0x08,
        0x01, 0x01, 0x00, 0x00, 0x3F, 0x00, 0x7B, 0x94, 0x11, 0x00, 0x00, 0x00, 0x00, 0x00,
        0xFF, 0xD9,
    ]
}

/// The bytes of a minimal valid 1x1 white JPEG.
pub fn minimal_jpeg() -> (v: Vec<u8>)
    ensures
        v@ == minimal_jpeg_bytes(),
{
    let v: Vec<u8> = vec![
        0xFF, 0xD8, 0xFF, 0xE0, 0x00, 0x10, 0x4A, 0x46, 0x49, 0x46, 0x00, 0x01, 0x01, 0x00,
        0x00, 0x01, 0x00, 0x01, 0x00, 0x00, 0xFF, 0xDB, 0x00, 0x43, 0x00, 0x08, 0x06, 0x06,
        0x07, 0x06, 0x05, 0x08, 0x07, 0x07, 0x07, 0x09, 0x09, 0x08, 0x0A, 0x0C, 0x14, 0x0D,
        0x0C, 0x0B, 0x0B, 0x0C, 0x19, 0x12, 0x13, 0x0F, 0x14, 0x1D, 0x1A, 0x1F, 0x1E, 0x1D,
        0x1A, 0x1C, 0x1C, 0x20, 0x24, 0x2E, 0x27, 0x20, 0x22, 0x2C, 0x23, 0x1C, 0x1C, 0x28,
        0x37, 0x29, 0x2C, 0x30, 0x31, 0x34, 0x34, 0x34, 0x1F, 0x27, 0x39, 0x3D, 0x38, 0x32,
        0x3C, 0x2E, 0x33, 0x34, 0x32, 0xFF, 0xC0, 0x00, 0x0B, 0x08, 0x00, 0x01, 0x00, 0x01,
        0x01, 0x01, 0x11, 0x00, 0xFF, 0xC4, 0x00, 0x1F, 0x00, 0x00, 0x01, 0x05, 0x01, 0x01,
        0x01, 0x01, 0x01, 0x01, 0x00, 0x00, 0x00, 0x00, 0x00, 0x00, 0x00, 0x00, 0x01, 0x02,
        0x03, 0x04, 0x05, 0x06, 0x07, 0x08, 0x09, 0x0A, 0x0B, 0xFF, 0xC4, 0x00, 0xB5, 0x10,
        0x00, 0x02, 0x01, 0x03, 0x03, 0x02, 0x04, 0x03, 0x05, 0x05, 0x04, 0x04, 0x00, 0x00,
        0x01, 0x7D, 0x01, 0x02, 0x03, 0x00, 0x04, 0x11, 0x05, 0x12, 0x21, 0x31, 0x41, 0x06,
        0x13, 0x51, 0x61, 0x07, 0x22, 0x71, 0x14, 0x32, 0x81, 0x91, 0xA1, 0x08, 0x23, 0x42,
        0xB1, 0xC1, 0x15, 0x52, 0xD1, 0xF0, 0x24, 0x33, 0x62, 0x72, 0x82, 0x09, 0x0A, 0x16,
        0x17, 0x18, 0x19, 0x1A, 0x25, 0x26, 0x27, 0x28, 0x29, 0x2A, 0x34, 0x35, 0x36, 0x37,
        0x38, 0x39, 0x3A, 0x43, 0x44, 0x45, 0x46, 0x47, 0x48, 0x49, 0x4A, 0x53, 0x54, 0x55,
        0x56, 0x57, 0x58, 0x59, 0x5A, 0x63, 0x64, 0x65, 0x66, 0x67, 0x68, 0x69, 0x6A, 0x73,
        0x74, 0x75, 0x76, 0x77, 0x78, 0x79, 0x7A, 0x83, 0x84, 0x85, 0x86, 0x87, 0x88, 0x89,
        0x8A, 0x92, 0x93, 0x94, 0x95, 0x96, 0x97, 0x98, 0x99, 0x9A, 0xA2, 0xA3, 0xA4, 0xA5,
        0xA6, 0xA7, 0xA8, 0xA9, 0xAA, 0xB2, 0xB3, 0xB4, 0xB5, 0xB6, 0xB7, 0xB8, 0xB9, 0xBA,
        0xC2, 0xC3, 0xC4, 0xC5, 0xC6, 0xC7, 0xC8, 0xC9, 0xCA, 0xD2, 0xD3, 0xD4, 0xD5, 0xD6,
        0xD7, 0xD8, 0xD9, 0xDA, 0xE1, 0xE2, 0xE3, 0xE4, 0xE5, 0xE6, 0xE7, 0xE8, 0xE9, 0xEA,
        0xF1, 0xF2, 0xF3, 0xF4, 0xF5, 0xF6, 0xF7, 0xF8, 0xF9, 0xFA, 0xFF, 0xDA, 0x00, 0x08,
        0x01, 0x01, 0x00, 0x00, 0x3F, 0x00, 0x7B, 0x94, 0x11, 0x00, 0x00, 0x00, 0x00, 0x00,
        0xFF, 0xD9,
    ];
    proof {
        assert(v@ =~= minimal_jpeg_bytes());
    }
    v
}

/// Swapping the cameras exchanges the sensors of the two pipelines.
pub proof fn lemma_swap_exchanges_sensors(width: u32, height: u32)
    ensures
        pipeline_text(sensor_pair(true).0, width, height) == pipeline_text(sensor_pair(false).1, width, height),
        pipeline_text(sensor_pair(true).1, width, height) == pipeline_text(sensor_pair(false).0, width, height),
        sensor_pair(false).0 != sensor_pair(false).1,
{
}

} // verus!
