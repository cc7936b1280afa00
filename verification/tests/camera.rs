use agentic_robot::camera::{
    gstreamer_pipeline, minimal_jpeg, sensor_ids, CameraCapture, GStreamerCapture, MockCapture,
    StereoFrame,
};
use agentic_robot::error::AppError;

#[test]
fn mock_capture_returns_frame() {
    let mut cam = MockCapture::new();
    let frame = cam.capture().unwrap();
    assert_eq!(frame.width, 1280);
    assert_eq!(frame.height, 480);
    assert!(!frame.jpeg_data.is_empty());
    assert_eq!(cam.capture_count(), 1);
}

#[test]
fn mock_capture_increments_count() {
    let mut cam = MockCapture::new();
    cam.capture().unwrap();
    cam.capture().unwrap();
    cam.capture().unwrap();
    assert_eq!(cam.capture_count(), 3);
}

#[test]
fn gstreamer_pipeline_format() {
    let pipeline = gstreamer_pipeline(0, 640, 480);
    assert!(pipeline.contains("sensor-id=0"));
    assert!(pipeline.contains("width=640"));
    assert!(pipeline.contains("height=480"));
    assert!(pipeline.contains("nvarguscamerasrc"));
    assert!(pipeline.contains("appsink"));
    assert!(pipeline.contains("max-buffers=1"));
    assert!(pipeline.contains("drop=true"));
    assert!(pipeline.contains("leaky=downstream"));
}

#[test]
fn camera_swap_reverses_sensor_ids() {
    let default_capture = GStreamerCapture::new(640, 480, false);
    assert!(default_capture.left_pipeline().contains("sensor-id=0"));
    assert!(default_capture.right_pipeline().contains("sensor-id=1"));

    let swapped_capture = GStreamerCapture::new(640, 480, true);
    assert!(swapped_capture.left_pipeline().contains("sensor-id=1"));
    assert!(swapped_capture.right_pipeline().contains("sensor-id=0"));
}

#[test]
fn gstreamer_pipeline_exact_text() {
    let pipeline = gstreamer_pipeline(1, 1280, 720);
    assert_eq!(
        pipeline,
        "nvarguscamerasrc sensor-id=1 ! video/x-raw(memory:NVMM),width=1280,height=720,framerate=30/1 ! nvvidconv ! video/x-raw,format=BGRx ! videoconvert ! video/x-raw,format=BGR ! queue max-size-buffers=1 leaky=downstream ! appsink max-buffers=1 drop=true sync=false"
    );
}

#[test]
fn sensor_ids_swap() {
    assert_eq!(sensor_ids(false), (0, 1));
    assert_eq!(sensor_ids(true), (1, 0));
}

#[test]
fn gstreamer_capture_keeps_view_size() {
    let cap = GStreamerCapture::new(640, 480, false);
    assert_eq!(cap.frame_size(), (640, 480));
}

#[test]
fn gstreamer_capture_without_camera_support_fails() {
    let mut cap = GStreamerCapture::new(640, 480, false);
    match cap.capture() {
        Err(AppError::Camera(m)) => {
            assert_eq!(m, "camera capture requires the `camera` feature flag")
        }
        other => panic!("unexpected result: {other:?}"),
    }
    cap.release();
}

#[test]
fn minimal_jpeg_has_markers() {
    let jpeg = minimal_jpeg();
    assert_eq!(jpeg.len(), 338);
    assert_eq!(&jpeg[..2], &[0xFF, 0xD8]);
    assert_eq!(&jpeg[jpeg.len() - 2..], &[0xFF, 0xD9]);
}

#[test]
fn mock_with_frame_returns_that_frame() {
    let frame = StereoFrame { jpeg_data: vec![1, 2, 3], width: 10, height: 5 };
    let mut cam = MockCapture::with_frame(frame);
    let got = cam.capture().unwrap();
    assert_eq!(got.jpeg_data, vec![1, 2, 3]);
    assert_eq!((got.width, got.height), (10, 5));
    assert_eq!(cam.capture_count(), 1);
}
