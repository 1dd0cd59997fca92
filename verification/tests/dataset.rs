use brush::camera::{
    camera_file_format, camera_from_json, camera_from_text, CameraError, CameraFileError,
    CameraFileFormat, CameraParams,
};
use brush::dataset::{
    cameras_per_frame, check_layout, frame_image_path, frame_intrinsics, DatasetLayout, LayoutError,
};
use brush::json::{JsonNumber, JsonValue};
use brush::mask::{
    apply_mask_alpha, decoded_image, masked_image, masked_with, png_file, MaskError, PictureError,
};
use brush::w2c::{w2c_from_readings, W2cError};

fn integer(n: u64) -> JsonValue {
    JsonValue::Number(JsonNumber { as_u64: Some(n), as_f64_bits: Some((n as f64).to_bits()) })
}

fn float(x: f64) -> JsonValue {
    JsonValue::Number(JsonNumber { as_u64: None, as_f64_bits: Some(x.to_bits()) })
}

fn array(items: Vec<JsonValue>) -> JsonValue {
    JsonValue::Array(items)
}

fn object(members: Vec<(&str, JsonValue)>) -> JsonValue {
    JsonValue::Object(members.into_iter().map(|(k, v)| (k.to_string(), v)).collect())
}

fn matrix() -> JsonValue {
    array(vec![
        array(vec![float(500.0), float(0.0), float(320.0)]),
        array(vec![float(0.0), float(510.0), float(240.0)]),
        array(vec![float(0.0), float(0.0), float(1.0)]),
    ])
}

fn doc_with(image_size: JsonValue, camera_matrix: JsonValue, dist: JsonValue) -> JsonValue {
    object(vec![(
        "intrinsics",
        object(vec![
            ("image_size", image_size),
            ("camera_matrix", camera_matrix),
            ("dist_coeffs", dist),
        ]),
    )])
}

fn good_doc() -> JsonValue {
    doc_with(
        array(vec![integer(640), integer(480)]),
        matrix(),
        array(vec![float(0.1), float(-0.2), float(0.01), float(0.02), float(0.3), float(9.0)]),
    )
}

#[test]
fn camera_from_complete_document() {
    let cam = camera_from_json(&good_doc()).unwrap();
    assert_eq!(cam.width, 640);
    assert_eq!(cam.height, 480);
    assert_eq!(cam.camera_matrix[0][0], 500.0f64.to_bits());
    assert_eq!(cam.camera_matrix[1][1], 510.0f64.to_bits());
    assert_eq!(cam.camera_matrix[1][2], 240.0f64.to_bits());
    assert_eq!(cam.distortion_coeffs[4], 0.3f64.to_bits());
    let fi = frame_intrinsics(&cam);
    assert_eq!(fi.fl_x, 500.0f64.to_bits());
    assert_eq!(fi.fl_y, 510.0f64.to_bits());
    assert_eq!(fi.cx, 320.0f64.to_bits());
    assert_eq!(fi.cy, 240.0f64.to_bits());
    assert_eq!(fi.k1, 0.1f64.to_bits());
    assert_eq!(fi.k2, (-0.2f64).to_bits());
    assert_eq!(fi.p1, 0.01f64.to_bits());
    assert_eq!(fi.p2, 0.02f64.to_bits());
    assert_eq!((fi.w, fi.h), (640, 480));
}

#[test]
fn camera_short_dist_coeffs_default_to_zero() {
    let doc = doc_with(array(vec![integer(4), integer(3)]), matrix(), array(vec![float(0.5)]));
    let cam = camera_from_json(&doc).unwrap();
    assert_eq!(cam.distortion_coeffs, [0.5f64.to_bits(), 0, 0, 0, 0]);
}

#[test]
fn camera_width_is_truncated_to_u32() {
    let doc = doc_with(array(vec![integer((1u64 << 32) + 7), integer(3)]), matrix(), array(vec![]));
    let cam = camera_from_json(&doc).unwrap();
    assert_eq!(cam.width, 7);
}

#[test]
fn camera_errors() {
    assert_eq!(camera_from_json(&object(vec![])), Err(CameraError::MissingIntrinsics));
    assert_eq!(
        camera_from_json(&object(vec![("intrinsics", integer(3))])),
        Err(CameraError::InvalidImageSize)
    );
    let bad = |size: JsonValue, m: JsonValue, d: JsonValue| camera_from_json(&doc_with(size, m, d));
    assert_eq!(
        bad(array(vec![integer(1)]), matrix(), array(vec![])),
        Err(CameraError::ImageSizeLength)
    );
    assert_eq!(
        bad(array(vec![float(1.5), integer(2)]), matrix(), array(vec![])),
        Err(CameraError::InvalidWidth)
    );
    assert_eq!(
        bad(array(vec![integer(1), JsonValue::Null]), matrix(), array(vec![])),
        Err(CameraError::InvalidHeight)
    );
    assert_eq!(
        bad(array(vec![integer(1), integer(2)]), JsonValue::Text("m".to_string()), array(vec![])),
        Err(CameraError::InvalidCameraMatrix)
    );
    assert_eq!(
        bad(array(vec![integer(1), integer(2)]), array(vec![]), array(vec![])),
        Err(CameraError::CameraMatrixRows)
    );
    let m = array(vec![
        array(vec![float(1.0), float(0.0), float(0.0)]),
        JsonValue::Bool(true),
        array(vec![float(0.0)]),
    ]);
    assert_eq!(
        bad(array(vec![integer(1), integer(2)]), m, array(vec![])),
        Err(CameraError::RowNotSequence { row: 1 })
    );
    let m = array(vec![
        array(vec![float(1.0), float(0.0), float(0.0)]),
        array(vec![float(1.0), float(0.0)]),
        array(vec![float(0.0)]),
    ]);
    assert_eq!(
        bad(array(vec![integer(1), integer(2)]), m, array(vec![])),
        Err(CameraError::RowLength { row: 1 })
    );
    let m = array(vec![
        array(vec![float(1.0), float(0.0), float(0.0)]),
        array(vec![float(1.0), float(0.0), float(0.0)]),
        array(vec![float(0.0), JsonValue::Null, float(1.0)]),
    ]);
    assert_eq!(
        bad(array(vec![integer(1), integer(2)]), m, array(vec![])),
        Err(CameraError::InvalidMatrixValue { row: 2, col: 1 })
    );
    assert_eq!(
        bad(array(vec![integer(1), integer(2)]), matrix(), integer(0)),
        Err(CameraError::InvalidDistCoeffs)
    );
    assert_eq!(
        bad(array(vec![integer(1), integer(2)]), matrix(), array(vec![float(0.0), JsonValue::Null])),
        Err(CameraError::InvalidDistCoeff { index: 1 })
    );
    // only the first five coefficients are read
    let d = array(vec![float(0.0), float(0.0), float(0.0), float(0.0), float(0.0), JsonValue::Null]);
    assert!(bad(array(vec![integer(1), integer(2)]), matrix(), d).is_ok());
}

#[test]
fn camera_error_messages() {
    assert_eq!(CameraError::MissingIntrinsics.message(), "Missing 'intrinsics' section");
    assert_eq!(CameraError::InvalidImageSize.message(), "Missing or invalid 'image_size'");
    assert_eq!(CameraError::ImageSizeLength.message(), "image_size must have exactly 2 elements");
    assert_eq!(CameraError::InvalidWidth.message(), "Invalid width");
    assert_eq!(CameraError::InvalidHeight.message(), "Invalid height");
    assert_eq!(CameraError::InvalidCameraMatrix.message(), "Missing or invalid 'camera_matrix'");
    assert_eq!(CameraError::CameraMatrixRows.message(), "camera_matrix must have exactly 3 rows");
    assert_eq!(
        CameraError::RowNotSequence { row: 2 }.message(),
        "camera_matrix row 2 is not a sequence"
    );
    assert_eq!(
        CameraError::RowLength { row: 0 }.message(),
        "camera_matrix row 0 must have exactly 3 elements"
    );
    assert_eq!(
        CameraError::InvalidMatrixValue { row: 1, col: 2 }.message(),
        "Invalid camera_matrix value at [1,2]"
    );
    assert_eq!(CameraError::InvalidDistCoeffs.message(), "Missing or invalid 'dist_coeffs'");
    assert_eq!(
        CameraError::InvalidDistCoeff { index: 3 }.message(),
        "Invalid dist_coeffs value at index 3"
    );
}

#[test]
fn camera_file_formats() {
    assert_eq!(camera_file_format("cam.json"), Some(CameraFileFormat::Json));
    assert_eq!(camera_file_format("a/b/cam.yaml"), Some(CameraFileFormat::Yaml));
    assert_eq!(camera_file_format("cam.yml"), Some(CameraFileFormat::Yaml));
    assert_eq!(camera_file_format("cam.txt"), None);
    assert_eq!(camera_file_format("json"), None);
}

#[test]
fn json_member_lookup() {
    let doc = object(vec![("a", integer(1)), ("b", integer(2))]);
    assert_eq!(doc.get("b").and_then(|v| v.as_u64()), Some(2));
    assert!(doc.get("c").is_none());
    assert!(integer(3).get("a").is_none());
    assert_eq!(float(2.5).as_f64_bits(), Some(2.5f64.to_bits()));
    assert_eq!(JsonValue::Null.as_f64_bits(), None);
    assert_eq!(float(2.5).as_u64(), None);
    assert!(array(vec![integer(1)]).as_array().is_some());
}

#[test]
fn layout_checks() {
    assert_eq!(check_layout(3, 3, 1, 3), Ok(DatasetLayout { frames: 3, shared_camera: true }));
    assert_eq!(check_layout(3, 3, 3, 3), Ok(DatasetLayout { frames: 3, shared_camera: false }));
    assert_eq!(check_layout(0, 0, 0, 0), Err(LayoutError::NoImageFiles));
    assert_eq!(check_layout(2, 0, 0, 0), Err(LayoutError::NoMaskFiles));
    assert_eq!(check_layout(2, 2, 0, 0), Err(LayoutError::NoCameraFiles));
    assert_eq!(check_layout(2, 2, 1, 0), Err(LayoutError::NoW2cFiles));
    assert_eq!(check_layout(2, 3, 1, 2), Err(LayoutError::MaskCountMismatch));
    assert_eq!(check_layout(2, 2, 1, 3), Err(LayoutError::W2cCountMismatch));
    assert_eq!(check_layout(3, 3, 2, 3), Err(LayoutError::CameraCountMismatch));
    assert_eq!(
        LayoutError::CameraCountMismatch.message(),
        "Number of camera files must be 1 or equal to number of image files"
    );
    assert_eq!(LayoutError::NoW2cFiles.message(), "No w2c files found");
    assert_eq!(
        LayoutError::MaskCountMismatch.message(),
        "assertion failed: image_files.len() == mask_files.len()"
    );
}

fn camera(width: u32) -> CameraParams {
    CameraParams { width, height: 1, camera_matrix: [[0; 3]; 3], distortion_coeffs: [0; 5] }
}

#[test]
fn shared_camera_is_repeated() {
    let cams = cameras_per_frame(vec![camera(7)], 4);
    assert_eq!(cams, vec![camera(7); 4]);
    let cams = cameras_per_frame(vec![camera(1), camera(2)], 2);
    assert_eq!(cams, vec![camera(1), camera(2)]);
}

#[test]
fn image_paths() {
    assert_eq!(frame_image_path(0), "images/0_image.png");
    assert_eq!(frame_image_path(137), "images/137_image.png");
}

#[test]
fn w2c_readings() {
    let ok: Vec<Option<u32>> = (0..16u32).map(|i| Some((i as f32).to_bits())).collect();
    let m = w2c_from_readings(&ok).unwrap();
    assert_eq!(m[5], 5.0f32.to_bits());
    let mut bad = ok.clone();
    bad[3] = None;
    bad.push(None);
    assert_eq!(w2c_from_readings(&bad), Err(W2cError::InvalidValue { index: 3 }));
    let short: Vec<Option<u32>> = ok[..15].to_vec();
    assert_eq!(w2c_from_readings(&short), Err(W2cError::WrongCount { count: 15 }));
    assert_eq!(W2cError::WrongCount { count: 15 }.message(), "Expected 16 values, got 15");
    assert_eq!(W2cError::InvalidValue { index: 0 }.message(), "invalid float literal");
}

#[test]
fn mask_becomes_alpha() {
    let mut rgba = vec![1, 2, 3, 4, 5, 6, 7, 8];
    assert_eq!(apply_mask_alpha(&mut rgba, 2, 1, &vec![100, 200], 2, 1), Ok(()));
    assert_eq!(rgba, vec![1, 2, 3, 100, 5, 6, 7, 200]);
    let mut rgba2 = vec![1, 2, 3, 4, 5, 6, 7, 8];
    assert_eq!(
        apply_mask_alpha(&mut rgba2, 2, 1, &vec![9, 9], 1, 2),
        Err(MaskError::DimensionMismatch)
    );
    assert_eq!(rgba2, vec![1, 2, 3, 4, 5, 6, 7, 8]);
}

const JSON_CAMERA: &str = r#"{
  "intrinsics": {
    "image_size": [640, 480],
    "camera_matrix": [[500.0, 0, 320.5], [0, 510.0, 240.0], [0, 0, 1]],
    "dist_coeffs": [0.1, -0.2]
  }
}"#;

const YAML_CAMERA: &str = "intrinsics:
  image_size: [640, 480]
  camera_matrix:
    - [500.0, 0, 320.5]
    - [0, 510.0, 240.0]
    - [0, 0, 1]
  dist_coeffs: [0.1, -0.2, 0.0, 0.0, 0.0, 7.0]
";

#[test]
fn camera_from_json_text() {
    let cam = camera_from_text(CameraFileFormat::Json, JSON_CAMERA).unwrap();
    assert_eq!((cam.width, cam.height), (640, 480));
    assert_eq!(cam.camera_matrix[0][2], 320.5f64.to_bits());
    assert_eq!(cam.camera_matrix[2][2], 1.0f64.to_bits());
    assert_eq!(cam.distortion_coeffs, [0.1f64.to_bits(), (-0.2f64).to_bits(), 0, 0, 0]);
}

#[test]
fn camera_from_yaml_text() {
    let cam = camera_from_text(CameraFileFormat::Yaml, YAML_CAMERA).unwrap();
    assert_eq!((cam.width, cam.height), (640, 480));
    assert_eq!(cam.camera_matrix[1][1], 510.0f64.to_bits());
    assert_eq!(cam.distortion_coeffs[0], 0.1f64.to_bits());
    assert_eq!(cam.distortion_coeffs[4], 0.0f64.to_bits());
}

#[test]
fn camera_text_errors() {
    let r = camera_from_text(CameraFileFormat::Json, "{ not json");
    match r {
        Err(CameraFileError::Syntax { message }) => assert!(!message.is_empty()),
        other => panic!("unexpected {:?}", other),
    }
    let r = camera_from_text(CameraFileFormat::Yaml, "a: [1, 2");
    assert!(matches!(r, Err(CameraFileError::Syntax { .. })));
    let r = camera_from_text(CameraFileFormat::Json, r#"{"intrinsics": {"image_size": [1]}}"#);
    assert_eq!(r, Err(CameraFileError::Camera(CameraError::ImageSizeLength)));
    assert_eq!(
        CameraFileError::Camera(CameraError::InvalidWidth).message(),
        "Invalid width"
    );
    assert_eq!(
        CameraFileError::Syntax { message: "bad".to_string() }.message(),
        "bad"
    );
    // integers as matrix entries read as floats; text does not
    let r = camera_from_text(
        CameraFileFormat::Json,
        r#"{"intrinsics": {"image_size": [1, 2], "camera_matrix": [[1, 0, 0], [0, "x", 0], [0, 0, 1]]}}"#,
    );
    assert_eq!(r, Err(CameraFileError::Camera(CameraError::InvalidMatrixValue { row: 1, col: 1 })));
}

fn png_of(img: image::DynamicImage) -> Vec<u8> {
    let mut out = std::io::Cursor::new(Vec::new());
    img.write_to(&mut out, image::ImageFormat::Png).unwrap();
    out.into_inner()
}

fn rgb_png(width: u32, height: u32, bytes: Vec<u8>) -> Vec<u8> {
    png_of(image::DynamicImage::ImageRgb8(image::RgbImage::from_raw(width, height, bytes).unwrap()))
}

fn luma_png(width: u32, height: u32, bytes: Vec<u8>) -> Vec<u8> {
    png_of(image::DynamicImage::ImageLuma8(image::GrayImage::from_raw(width, height, bytes).unwrap()))
}

#[test]
fn masked_image_puts_mask_in_alpha() {
    let image = rgb_png(2, 1, vec![10, 20, 30, 40, 50, 60]);
    let mask = luma_png(2, 1, vec![0, 255]);
    let (w, h, pixels) = masked_image("dir/img_0.png", &image, "dir/mask_0.png", &mask).unwrap();
    assert_eq!((w, h), (2, 1));
    assert_eq!(pixels, vec![10, 20, 30, 0, 40, 50, 60, 255]);
}

#[test]
fn masked_image_errors() {
    let image = rgb_png(2, 1, vec![10, 20, 30, 40, 50, 60]);
    let mask = luma_png(2, 1, vec![0, 255]);
    let tall_mask = luma_png(1, 2, vec![0, 255]);
    let r = masked_image("img.png", b"not an image", "mask.png", &mask);
    assert!(matches!(r, Err(PictureError::ImageDecode { .. })));
    let r = masked_image("img.unknownformat", &image, "mask.png", &mask);
    assert!(matches!(r, Err(PictureError::ImageDecode { .. })));
    let r = masked_image("img.png", &image, "mask.png", b"garbage");
    assert!(matches!(r, Err(PictureError::MaskDecode { .. })));
    // the image is decoded before the mask
    let r = masked_image("img.png", b"garbage", "mask.png", b"garbage");
    assert!(matches!(r, Err(PictureError::ImageDecode { .. })));
    let r = masked_image("img.png", &image, "mask.png", &tall_mask);
    assert_eq!(r, Err(PictureError::DimensionMismatch));
    assert_eq!(
        PictureError::DimensionMismatch.message(),
        "Image and mask dimensions do not match"
    );
    assert_eq!(PictureError::MaskDecode { message: "m".to_string() }.message(), "m");
}

#[test]
fn png_file_round_trip() {
    let pixels = vec![1, 2, 3, 4, 5, 6, 7, 8];
    let bytes = png_file(2, 1, pixels.clone()).unwrap();
    assert_eq!(&bytes[1..4], b"PNG");
    let back = image::load_from_memory_with_format(&bytes, image::ImageFormat::Png).unwrap();
    assert_eq!(back.to_rgba8().into_raw(), pixels);
    assert_eq!((back.width(), back.height()), (2, 1));
}

#[test]
fn image_decoded_then_masked() {
    let image = rgb_png(1, 2, vec![1, 2, 3, 4, 5, 6]);
    let (w, h, pixels) = decoded_image("a/b.png", &image).unwrap();
    assert_eq!((w, h), (1, 2));
    assert_eq!(pixels, vec![1, 2, 3, 255, 4, 5, 6, 255]);
    assert!(matches!(decoded_image("a/b.png", b"xx"), Err(PictureError::ImageDecode { .. })));
    let mask = luma_png(1, 2, vec![7, 8]);
    let r = masked_with(w, h, pixels.clone(), "m.png", &mask).unwrap();
    assert_eq!(r, (1, 2, vec![1, 2, 3, 7, 4, 5, 6, 8]));
    let wide = luma_png(2, 1, vec![7, 8]);
    assert_eq!(
        masked_with(w, h, pixels.clone(), "m.png", &wide),
        Err(PictureError::DimensionMismatch)
    );
    assert!(matches!(
        masked_with(w, h, pixels, "m.png", b"xx"),
        Err(PictureError::MaskDecode { .. })
    ));
}
