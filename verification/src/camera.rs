//! Camera intrinsics of an underfolder dataset.
//!
//! A camera file is JSON or YAML with an `intrinsics` section that holds
//! `image_size` (width and height), a 3x3 `camera_matrix` and the
//! `dist_coeffs` distortion coefficients. Matrix entries and coefficients are
//! kept as the bit patterns of their `f64` readings.
use vstd::prelude::*;
use crate::json::{
    JsonValue, f64_bits_of, items, json_document, member, member_items, parse_json_document,
    parse_yaml_document, u64_of, yaml_document,
};
use crate::text::{decimal, ends_with_str, ends_with_text, push_decimal};

verus! {

/// The format of a camera file, told by its name.
#[derive(Clone, Copy, Debug, PartialEq, Eq, Structural)]
pub enum CameraFileFormat {
    Json,
    Yaml,
}

/// Camera intrinsics: image size, the 3x3 camera matrix (rows of `f64`
/// bit patterns) and five distortion coefficients (`f64` bit patterns;
/// coefficients the file does not give are zero).
#[derive(Clone, Copy, Debug, PartialEq, Eq)]
pub struct CameraParams {
    pub width: u32,
    pub height: u32,
    pub camera_matrix: [[u64; 3]; 3],
    pub distortion_coeffs: [u64; 5],
}

/// Why a camera file's contents were refused.
#[derive(Clone, Copy, Debug, PartialEq, Eq, Structural)]
pub enum CameraError {
    MissingIntrinsics,
    InvalidImageSize,
    ImageSizeLength,
    InvalidWidth,
    InvalidHeight,
    InvalidCameraMatrix,
    CameraMatrixRows,
    RowNotSequence { row: usize },
    RowLength { row: usize },
    InvalidMatrixValue { row: usize, col: usize },
    InvalidDistCoeffs,
    InvalidDistCoeff { index: usize },
}

/// The format that a camera file named `path` is read as: JSON for a
/// `.json` name, YAML for `.yaml` or `.yml`, none for any other name.
pub open spec fn format_of(path: Seq<char>) -> Option<CameraFileFormat> {
    if ends_with_text(path, ".json"@) {
        Some(CameraFileFormat::Json)
    } else if ends_with_text(path, ".yaml"@) || ends_with_text(path, ".yml"@) {
        Some(CameraFileFormat::Yaml)
    } else {
        None
    }
}

/// A name ending in `.json` is read as JSON, one ending in `.yaml` or
/// `.yml` as YAML, and any other name is refused.
pub proof fn law_format_follows_extension(path: Seq<char>)
    ensures
        ends_with_text(path, ".json"@) ==> format_of(path) == Some(CameraFileFormat::Json),
        ends_with_text(path, ".yaml"@) || ends_with_text(path, ".yml"@) ==> format_of(path) == Some(
            CameraFileFormat::Yaml,
        ),
        format_of(path) is None <==> !ends_with_text(path, ".json"@) && !ends_with_text(path, ".yaml"@)
            && !ends_with_text(path, ".yml"@),
{
    reveal_strlit(".json");
    reveal_strlit(".yaml");
    reveal_strlit(".yml");
    if ends_with_text(path, ".json"@) {
        let n = path.len();
        assert(path.subrange(n - 5, n as int)[4] == path[n - 1]);
        assert(path[n - 1] == 'n');
        if ends_with_text(path, ".yaml"@) {
            assert(path.subrange(n - 5, n as int)[4] == 'l');
        }
        if ends_with_text(path, ".yml"@) {
            assert(path.subrange(n - 4, n as int)[3] == path[n - 1]);
            assert(path.subrange(n - 4, n as int)[3] == 'l');
        }
    }
}

/// The format a camera file is read as, from its name.
pub fn camera_file_format(path: &str) -> (r: Option<CameraFileFormat>)
    ensures
        r == format_of(path@),
{
    let is_yaml = ends_with_str(path, ".yaml") || ends_with_str(path, ".yml");
    let is_json = ends_with_str(path, ".json");
    if is_json {
        Some(CameraFileFormat::Json)
    } else if is_yaml {
        Some(CameraFileFormat::Yaml)
    } else {
        None
    }
}

/// Width and height from `image_size`.
pub open spec fn image_size_of(intrinsics: JsonValue) -> Result<(u32, u32), CameraError> {
    match member_items(intrinsics, "image_size"@) {
        None => Err(CameraError::InvalidImageSize),
        Some(size) => if size.len() != 2 {
            Err(CameraError::ImageSizeLength)
        } else {
            match u64_of(size[0]) {
                None => Err(CameraError::InvalidWidth),
                Some(w) => match u64_of(size[1]) {
                    None => Err(CameraError::InvalidHeight),
                    Some(h) => Ok((w as u32, h as u32)),
                },
            }
        },
    }
}

/// One row of the camera matrix.
pub open spec fn matrix_row_of(v: JsonValue, row: usize) -> Result<[u64; 3], CameraError> {
    match v {
        JsonValue::Array(a) => if a@.len() != 3 {
            Err(CameraError::RowLength { row })
        } else {
            match f64_bits_of(a@[0]) {
                None => Err(CameraError::InvalidMatrixValue { row, col: 0 }),
                Some(x) => match f64_bits_of(a@[1]) {
                    None => Err(CameraError::InvalidMatrixValue { row, col: 1 }),
                    Some(y) => match f64_bits_of(a@[2]) {
                        None => Err(CameraError::InvalidMatrixValue { row, col: 2 }),
                        Some(z) => Ok([x, y, z]),
                    },
                },
            }
        },
        _ => Err(CameraError::RowNotSequence { row }),
    }
}

/// The camera matrix, rows checked in order.
pub open spec fn camera_matrix_of(intrinsics: JsonValue) -> Result<[[u64; 3]; 3], CameraError> {
    match member_items(intrinsics, "camera_matrix"@) {
        None => Err(CameraError::InvalidCameraMatrix),
        Some(rows) => if rows.len() != 3 {
            Err(CameraError::CameraMatrixRows)
        } else {
            match matrix_row_of(rows[0], 0) {
                Err(e) => Err(e),
                Ok(r0) => match matrix_row_of(rows[1], 1) {
                    Err(e) => Err(e),
                    Ok(r1) => match matrix_row_of(rows[2], 2) {
                        Err(e) => Err(e),
                        Ok(r2) => Ok([r0, r1, r2]),
                    },
                },
            }
        },
    }
}

/// The first of the (at most five) coefficients read, from index `i` on,
/// that is not a number.
pub open spec fn first_bad_coeff(coeffs: Seq<JsonValue>, i: nat) -> Option<nat>
    decreases 5 - i,
{
    if i >= 5 || i >= coeffs.len() {
        None
    } else if f64_bits_of(coeffs[i as int]) is None {
        Some(i)
    } else {
        first_bad_coeff(coeffs, i + 1)
    }
}

/// Coefficient `k`: the number given in the file, or zero.
pub open spec fn coeff_value(coeffs: Seq<JsonValue>, k: int) -> u64 {
    if k < coeffs.len() {
        f64_bits_of(coeffs[k])->0
    } else {
        0
    }
}

/// The distortion coefficients: the first five numbers of `dist_coeffs`
/// (any further ones are ignored), zero for those not given.
pub open spec fn dist_coeffs_of(intrinsics: JsonValue) -> Result<[u64; 5], CameraError> {
    match member_items(intrinsics, "dist_coeffs"@) {
        None => Err(CameraError::InvalidDistCoeffs),
        Some(coeffs) => match first_bad_coeff(coeffs, 0) {
            Some(i) => Err(CameraError::InvalidDistCoeff { index: i as usize }),
            None => Ok(
                [
                    coeff_value(coeffs, 0),
                    coeff_value(coeffs, 1),
                    coeff_value(coeffs, 2),
                    coeff_value(coeffs, 3),
                    coeff_value(coeffs, 4),
                ],
            ),
        },
    }
}

/// The camera parameters a camera document gives, or the first problem
/// found, checking the image size, then the camera matrix, then the
/// distortion coefficients.
pub open spec fn camera_of(doc: JsonValue) -> Result<CameraParams, CameraError> {
    match member(doc, "intrinsics"@) {
        None => Err(CameraError::MissingIntrinsics),
        Some(intrinsics) => match image_size_of(intrinsics) {
            Err(e) => Err(e),
            Ok((width, height)) => match camera_matrix_of(intrinsics) {
                Err(e) => Err(e),
                Ok(camera_matrix) => match dist_coeffs_of(intrinsics) {
                    Err(e) => Err(e),
                    Ok(distortion_coeffs) => Ok(
                        CameraParams { width, height, camera_matrix, distortion_coeffs },
                    ),
                },
            },
        },
    }
}

proof fn lemma_first_bad_coeff_prefix(coeffs: Seq<JsonValue>, i: nat)
    requires
        coeffs.len() >= 5,
        i <= 5,
    ensures
        first_bad_coeff(coeffs, i) == first_bad_coeff(coeffs.take(5), i),
    decreases 5 - i,
{
    if i < 5 {
        lemma_first_bad_coeff_prefix(coeffs, i + 1);
    }
}

/// Only the first five distortion coefficients are read: whatever follows
/// them does not change the result.
pub proof fn law_only_five_coefficients_read(coeffs: Seq<JsonValue>)
    requires
        coeffs.len() >= 5,
    ensures
        first_bad_coeff(coeffs, 0) == first_bad_coeff(coeffs.take(5), 0),
        forall|k: int| 0 <= k < 5 ==> #[trigger] coeff_value(coeffs, k) == coeff_value(coeffs.take(5), k),
{
    lemma_first_bad_coeff_prefix(coeffs, 0);
}

proof fn lemma_no_bad_coeff(coeffs: Seq<JsonValue>, i: nat)
    requires
        first_bad_coeff(coeffs, i) is None,
    ensures
        forall|k: int| i <= k < 5 && k < coeffs.len() ==> #[trigger] f64_bits_of(coeffs[k]) is Some,
    decreases 5 - i,
{
    if i < 5 && i < coeffs.len() {
        lemma_no_bad_coeff(coeffs, i + 1);
    }
}

proof fn lemma_row_read(v: JsonValue, row: usize)
    requires
        matrix_row_of(v, row) is Ok,
    ensures
        items(v) is Some,
        items(v)->0.len() == 3,
        forall|k: int|
            0 <= k < 3 ==> #[trigger] f64_bits_of(items(v)->0[k]) == Some(
                matrix_row_of(v, row)->Ok_0@[k],
            ),
{
    let r = matrix_row_of(v, row)->Ok_0;
    assert forall|k: int| 0 <= k < 3 implies #[trigger] f64_bits_of(items(v)->0[k]) == Some(r@[k]) by {
        if k == 0 {
        } else if k == 1 {
        } else {
        }
    }
}

proof fn lemma_u64_cut(x: u64)
    ensures
        (x as u32) as int == x as int % 0x1_0000_0000,
{
    assert((x as u32) as u64 == x % 0x1_0000_0000) by (bit_vector);
}

/// An accepted camera document is read as it stands: the width and height
/// are the two integers of `image_size` (cut to 32 bits), entry `(r, k)` of
/// the camera matrix is entry `k` of row `r` of `camera_matrix`, a number,
/// and coefficient `k` is entry `k` of `dist_coeffs`, a number, or zero
/// when the list is shorter.
pub proof fn law_camera_reads_document(doc: JsonValue)
    requires
        camera_of(doc) is Ok,
    ensures
        ({
            let c = camera_of(doc)->Ok_0;
            let intrinsics = member(doc, "intrinsics"@)->0;
            let size = member_items(intrinsics, "image_size"@)->0;
            let rows = member_items(intrinsics, "camera_matrix"@)->0;
            let coeffs = member_items(intrinsics, "dist_coeffs"@)->0;
            &&& member(doc, "intrinsics"@) is Some
            &&& member_items(intrinsics, "image_size"@) is Some
            &&& size.len() == 2
            &&& u64_of(size[0]) is Some
            &&& c.width as int == u64_of(size[0])->0 as int % 0x1_0000_0000
            &&& u64_of(size[1]) is Some
            &&& c.height as int == u64_of(size[1])->0 as int % 0x1_0000_0000
            &&& member_items(intrinsics, "camera_matrix"@) is Some
            &&& rows.len() == 3
            &&& forall|r: int| 0 <= r < 3 ==> #[trigger] items(rows[r]) is Some && items(rows[r])->0.len() == 3
            &&& forall|r: int, k: int|
                0 <= r < 3 && 0 <= k < 3 ==> #[trigger] f64_bits_of(items(rows[r])->0[k]) == Some(
                    c.camera_matrix@[r]@[k],
                )
            &&& member_items(intrinsics, "dist_coeffs"@) is Some
            &&& forall|k: int|
                0 <= k < 5 && k < coeffs.len() ==> #[trigger] f64_bits_of(coeffs[k]) == Some(
                    c.distortion_coeffs@[k],
                )
            &&& forall|k: int|
                0 <= k < 5 && k >= coeffs.len() ==> #[trigger] c.distortion_coeffs@[k] == 0
        }),
{
    let c = camera_of(doc)->Ok_0;
    let intrinsics = member(doc, "intrinsics"@)->0;
    let size = member_items(intrinsics, "image_size"@)->0;
    let rows = member_items(intrinsics, "camera_matrix"@)->0;
    let coeffs = member_items(intrinsics, "dist_coeffs"@)->0;
    lemma_u64_cut(u64_of(size[0])->0);
    lemma_u64_cut(u64_of(size[1])->0);
    lemma_row_read(rows[0], 0);
    lemma_row_read(rows[1], 1);
    lemma_row_read(rows[2], 2);
    lemma_no_bad_coeff(coeffs, 0);
    let m = camera_matrix_of(intrinsics)->Ok_0;
    assert(c.camera_matrix == m);
    assert(m@[0] == matrix_row_of(rows[0], 0)->Ok_0);
    assert(m@[1] == matrix_row_of(rows[1], 1)->Ok_0);
    assert(m@[2] == matrix_row_of(rows[2], 2)->Ok_0);
    assert forall|r: int| 0 <= r < 3 implies #[trigger] items(rows[r]) is Some && items(rows[r])->0.len() == 3 by {
        if r == 0 {
        } else if r == 1 {
        } else {
        }
    }
    assert forall|r: int, k: int|
        0 <= r < 3 && 0 <= k < 3 implies #[trigger] f64_bits_of(items(rows[r])->0[k]) == Some(
        c.camera_matrix@[r]@[k],
    ) by {
        if r == 0 {
        } else if r == 1 {
        } else {
        }
    }
    let d = dist_coeffs_of(intrinsics)->Ok_0;
    assert(c.distortion_coeffs == d);
    assert forall|k: int| 0 <= k < 5 && k < coeffs.len() implies #[trigger] f64_bits_of(coeffs[k])
        == Some(c.distortion_coeffs@[k]) by {
        assert(d@[k] == coeff_value(coeffs, k));
    }
    assert forall|k: int| 0 <= k < 5 && k >= coeffs.len() implies #[trigger] c.distortion_coeffs@[k]
        == 0 by {
        assert(d@[k] == coeff_value(coeffs, k));
    }
}

fn parse_matrix_row(v: &JsonValue, row: usize) -> (r: Result<[u64; 3], CameraError>)
    ensures
        r == matrix_row_of(*v, row),
{
    let a = match v.as_array() {
        Some(a) => a,
        None => {
            return Err(CameraError::RowNotSequence { row });
        },
    };
    if a.len() != 3 {
        return Err(CameraError::RowLength { row });
    }
    let x = match a[0].as_f64_bits() {
        Some(x) => x,
        None => {
            return Err(CameraError::InvalidMatrixValue { row, col: 0 });
        },
    };
    let y = match a[1].as_f64_bits() {
        Some(y) => y,
        None => {
            return Err(CameraError::InvalidMatrixValue { row, col: 1 });
        },
    };
    let z = match a[2].as_f64_bits() {
        Some(z) => z,
        None => {
            return Err(CameraError::InvalidMatrixValue { row, col: 2 });
        },
    };
    Ok([x, y, z])
}

fn parse_image_size(intrinsics: &JsonValue) -> (r: Result<(u32, u32), CameraError>)
    ensures
        r == image_size_of(*intrinsics),
{
    let size = match intrinsics.get("image_size") {
        Some(v) => match v.as_array() {
            Some(a) => a,
            None => {
                return Err(CameraError::InvalidImageSize);
            },
        },
        None => {
            return Err(CameraError::InvalidImageSize);
        },
    };
    if size.len() != 2 {
        return Err(CameraError::ImageSizeLength);
    }
    let w = match size[0].as_u64() {
        Some(w) => w,
        None => {
            return Err(CameraError::InvalidWidth);
        },
    };
    let h = match size[1].as_u64() {
        Some(h) => h,
        None => {
            return Err(CameraError::InvalidHeight);
        },
    };
    Ok((w as u32, h as u32))
}

fn parse_camera_matrix(intrinsics: &JsonValue) -> (r: Result<[[u64; 3]; 3], CameraError>)
    ensures
        r == camera_matrix_of(*intrinsics),
{
    let rows = match intrinsics.get("camera_matrix") {
        Some(v) => match v.as_array() {
            Some(a) => a,
            None => {
                return Err(CameraError::InvalidCameraMatrix);
            },
        },
        None => {
            return Err(CameraError::InvalidCameraMatrix);
        },
    };
    if rows.len() != 3 {
        return Err(CameraError::CameraMatrixRows);
    }
    let r0 = match parse_matrix_row(&rows[0], 0) {
        Ok(r) => r,
        Err(e) => {
            return Err(e);
        },
    };
    let r1 = match parse_matrix_row(&rows[1], 1) {
        Ok(r) => r,
        Err(e) => {
            return Err(e);
        },
    };
    let r2 = match parse_matrix_row(&rows[2], 2) {
        Ok(r) => r,
        Err(e) => {
            return Err(e);
        },
    };
    Ok([r0, r1, r2])
}

fn parse_dist_coeffs(intrinsics: &JsonValue) -> (r: Result<[u64; 5], CameraError>)
    ensures
        r == dist_coeffs_of(*intrinsics),
{
    let coeffs = match intrinsics.get("dist_coeffs") {
        Some(v) => match v.as_array() {
            Some(a) => a,
            None => {
                return Err(CameraError::InvalidDistCoeffs);
            },
        },
        None => {
            return Err(CameraError::InvalidDistCoeffs);
        },
    };
    let ghost cs = coeffs@;
    assert(member_items(*intrinsics, "dist_coeffs"@) == Some(cs));
    let mut out: [u64; 5] = [0u64; 5];
    let mut i: usize = 0;
    while i < coeffs.len() && i < 5
        invariant
            cs == coeffs@,
            member_items(*intrinsics, "dist_coeffs"@) == Some(cs),
            i <= 5,
            first_bad_coeff(cs, i as nat) == first_bad_coeff(cs, 0),
            forall|k: int| 0 <= k < i ==> out@[k] == coeff_value(cs, k),
            forall|k: int| i <= k < 5 ==> out@[k] == 0,
        decreases 5 - i,
    {
        match coeffs[i].as_f64_bits() {
            Some(bits) => {
                assert(first_bad_coeff(cs, i as nat) == first_bad_coeff(cs, (i + 1) as nat));
                out[i] = bits;
            },
            None => {
                assert(first_bad_coeff(cs, i as nat) == Some(i as nat));
                return Err(CameraError::InvalidDistCoeff { index: i });
            },
        }
        i = i + 1;
    }
    proof {
        assert(first_bad_coeff(cs, i as nat) is None);
        assert forall|k: int| i <= k < 5 implies out@[k] == coeff_value(cs, k) by {}
        assert(out =~= [
            coeff_value(cs, 0),
            coeff_value(cs, 1),
            coeff_value(cs, 2),
            coeff_value(cs, 3),
            coeff_value(cs, 4),
        ]);
    }
    Ok(out)
}

/// Reads the camera parameters out of a camera document.
pub fn camera_from_json(doc: &JsonValue) -> (r: Result<CameraParams, CameraError>)
    ensures
        r == camera_of(*doc),
{
    let intrinsics = match doc.get("intrinsics") {
        Some(v) => v,
        None => {
            return Err(CameraError::MissingIntrinsics);
        },
    };
    let (width, height) = match parse_image_size(intrinsics) {
        Ok(s) => s,
        Err(e) => {
            return Err(e);
        },
    };
    let camera_matrix = match parse_camera_matrix(intrinsics) {
        Ok(m) => m,
        Err(e) => {
            return Err(e);
        },
    };
    let distortion_coeffs = match parse_dist_coeffs(intrinsics) {
        Ok(d) => d,
        Err(e) => {
            return Err(e);
        },
    };
    Ok(CameraParams { width, height, camera_matrix, distortion_coeffs })
}

impl CameraError {
    /// The text of the refusal.
    pub open spec fn text(self) -> Seq<char> {
        match self {
            CameraError::MissingIntrinsics => "Missing 'intrinsics' section"@,
            CameraError::InvalidImageSize => "Missing or invalid 'image_size'"@,
            CameraError::ImageSizeLength => "image_size must have exactly 2 elements"@,
            CameraError::InvalidWidth => "Invalid width"@,
            CameraError::InvalidHeight => "Invalid height"@,
            CameraError::InvalidCameraMatrix => "Missing or invalid 'camera_matrix'"@,
            CameraError::CameraMatrixRows => "camera_matrix must have exactly 3 rows"@,
            CameraError::RowNotSequence { row } => "camera_matrix row "@ + decimal(row as nat)
                + " is not a sequence"@,
            CameraError::RowLength { row } => "camera_matrix row "@ + decimal(row as nat)
                + " must have exactly 3 elements"@,
            CameraError::InvalidMatrixValue { row, col } => "Invalid camera_matrix value at ["@
                + decimal(row as nat) + ","@ + decimal(col as nat) + "]"@,
            CameraError::InvalidDistCoeffs => "Missing or invalid 'dist_coeffs'"@,
            CameraError::InvalidDistCoeff { index } => "Invalid dist_coeffs value at index "@
                + decimal(index as nat),
        }
    }

    /// The text of the refusal.
    pub fn message(&self) -> (s: String)
        ensures
            s@ == self.text(),
    {
        match self {
            CameraError::MissingIntrinsics => String::from_str("Missing 'intrinsics' section"),
            CameraError::InvalidImageSize => String::from_str("Missing or invalid 'image_size'"),
            CameraError::ImageSizeLength => String::from_str(
                "image_size must have exactly 2 elements",
            ),
            CameraError::InvalidWidth => String::from_str("Invalid width"),
            CameraError::InvalidHeight => String::from_str("Invalid height"),
            CameraError::InvalidCameraMatrix => String::from_str(
                "Missing or invalid 'camera_matrix'",
            ),
            CameraError::CameraMatrixRows => String::from_str(
                "camera_matrix must have exactly 3 rows",
            ),
            CameraError::RowNotSequence { row } => {
                let mut s = String::from_str("camera_matrix row ");
                push_decimal(&mut s, *row as u64);
                s.append(" is not a sequence");
                s
            },
            CameraError::RowLength { row } => {
                let mut s = String::from_str("camera_matrix row ");
                push_decimal(&mut s, *row as u64);
                s.append(" must have exactly 3 elements");
                s
            },
            CameraError::InvalidMatrixValue { row, col } => {
                let mut s = String::from_str("Invalid camera_matrix value at [");
                push_decimal(&mut s, *row as u64);
                s.append(",");
                push_decimal(&mut s, *col as u64);
                s.append("]");
                s
            },
            CameraError::InvalidDistCoeffs => String::from_str("Missing or invalid 'dist_coeffs'"),
            CameraError::InvalidDistCoeff { index } => {
                let mut s = String::from_str("Invalid dist_coeffs value at index ");
                push_decimal(&mut s, *index as u64);
                s
            },
        }
    }
}

/// Why a camera file was refused: its text does not parse (with the
/// parser's message), or the parsed document is not a camera.
#[derive(Clone, Debug, PartialEq, Eq)]
pub enum CameraFileError {
    Syntax { message: String },
    Camera(CameraError),
}

/// The document a camera file of this format holds, if its text parses.
pub open spec fn document_of(format: CameraFileFormat, text: Seq<char>) -> Option<JsonValue> {
    match format {
        CameraFileFormat::Json => json_document(text),
        CameraFileFormat::Yaml => yaml_document(text),
    }
}

/// What reading a camera file's text gives: a syntax error when it does not
/// parse, otherwise the camera of the document or its first problem.
pub open spec fn camera_file_result(
    format: CameraFileFormat,
    text: Seq<char>,
    r: Result<CameraParams, CameraFileError>,
) -> bool {
    match document_of(format, text) {
        None => r is Err && r->Err_0 is Syntax,
        Some(doc) => match camera_of(doc) {
            Ok(c) => r == Ok::<CameraParams, CameraFileError>(c),
            Err(e) => r == Err::<CameraParams, CameraFileError>(CameraFileError::Camera(e)),
        },
    }
}

/// A JSON camera file is read with the JSON parser and a YAML one with the
/// YAML parser; the file is accepted exactly when its text parses and the
/// document is an accepted camera, which is then the result.
pub proof fn law_camera_file_by_format(text: Seq<char>, r: Result<CameraParams, CameraFileError>)
    ensures
        camera_file_result(CameraFileFormat::Json, text, r) ==> (r is Ok <==> (json_document(text) is Some
            && camera_of(json_document(text)->0) is Ok)) && (r is Ok ==> r->Ok_0 == camera_of(
            json_document(text)->0,
        )->Ok_0),
        camera_file_result(CameraFileFormat::Yaml, text, r) ==> (r is Ok <==> (yaml_document(text) is Some
            && camera_of(yaml_document(text)->0) is Ok)) && (r is Ok ==> r->Ok_0 == camera_of(
            yaml_document(text)->0,
        )->Ok_0),
{
}

/// Reads the camera parameters out of the text of a camera file of the given
/// format.
pub fn camera_from_text(format: CameraFileFormat, text: &str) -> (r: Result<
    CameraParams,
    CameraFileError,
>)
    ensures
        camera_file_result(format, text@, r),
{
    let parsed = match format {
        CameraFileFormat::Json => parse_json_document(text),
        CameraFileFormat::Yaml => parse_yaml_document(text),
    };
    let doc = match parsed {
        Ok(doc) => doc,
        Err(message) => {
            return Err(CameraFileError::Syntax { message });
        },
    };
    match camera_from_json(&doc) {
        Ok(c) => Ok(c),
        Err(e) => Err(CameraFileError::Camera(e)),
    }
}

impl CameraFileError {
    /// The text of the refusal: the parser's message, or the camera
    /// problem's text.
    pub fn message(&self) -> (s: String)
        ensures
            s@ == match self {
                CameraFileError::Syntax { message } => message@,
                CameraFileError::Camera(e) => e.text(),
            },
    {
        match self {
            CameraFileError::Syntax { message } => message.clone(),
            CameraFileError::Camera(e) => e.message(),
        }
    }
}

} // verus!
