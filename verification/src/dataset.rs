//! Planning the conversion of an underfolder dataset (one image, mask,
//! camera and world-to-camera file per frame, or one camera file shared by
//! all frames) into a NeRF dataset.
use vstd::prelude::*;
use crate::camera::CameraParams;
use crate::text::{decimal, law_decimal_injective, push_decimal};

verus! {

/// How the files of a dataset map to frames.
#[derive(Clone, Copy, Debug, PartialEq, Eq, Structural)]
pub struct DatasetLayout {
    /// Number of frames: one per image file.
    pub frames: usize,
    /// One camera file serves every frame.
    pub shared_camera: bool,
}

/// Why the files found do not form a dataset.
#[derive(Clone, Copy, Debug, PartialEq, Eq, Structural)]
pub enum LayoutError {
    NoImageFiles,
    NoMaskFiles,
    NoCameraFiles,
    NoW2cFiles,
    MaskCountMismatch,
    W2cCountMismatch,
    CameraCountMismatch,
}

/// The layout of a dataset with the given numbers of image, mask, camera and
/// world-to-camera files, or the first problem with them: a kind of file
/// missing (checked in that order), then masks or world-to-camera files that
/// do not match the images one for one, then a number of camera files other
/// than one or the number of images.
pub open spec fn layout_of(images: nat, masks: nat, cameras: nat, w2cs: nat) -> Result<
    DatasetLayout,
    LayoutError,
> {
    if images == 0 {
        Err(LayoutError::NoImageFiles)
    } else if masks == 0 {
        Err(LayoutError::NoMaskFiles)
    } else if cameras == 0 {
        Err(LayoutError::NoCameraFiles)
    } else if w2cs == 0 {
        Err(LayoutError::NoW2cFiles)
    } else if images != masks {
        Err(LayoutError::MaskCountMismatch)
    } else if images != w2cs {
        Err(LayoutError::W2cCountMismatch)
    } else if cameras != 1 && cameras != images {
        Err(LayoutError::CameraCountMismatch)
    } else {
        Ok(DatasetLayout { frames: images as usize, shared_camera: cameras == 1 })
    }
}

/// Checks the numbers of files found against each other.
pub fn check_layout(images: usize, masks: usize, cameras: usize, w2cs: usize) -> (r: Result<
    DatasetLayout,
    LayoutError,
>)
    ensures
        r == layout_of(images as nat, masks as nat, cameras as nat, w2cs as nat),
{
    if images == 0 {
        Err(LayoutError::NoImageFiles)
    } else if masks == 0 {
        Err(LayoutError::NoMaskFiles)
    } else if cameras == 0 {
        Err(LayoutError::NoCameraFiles)
    } else if w2cs == 0 {
        Err(LayoutError::NoW2cFiles)
    } else if images != masks {
        Err(LayoutError::MaskCountMismatch)
    } else if images != w2cs {
        Err(LayoutError::W2cCountMismatch)
    } else if cameras != 1 && cameras != images {
        Err(LayoutError::CameraCountMismatch)
    } else {
        Ok(DatasetLayout { frames: images, shared_camera: cameras == 1 })
    }
}

impl LayoutError {
    /// The text of the refusal.
    pub open spec fn text(self) -> Seq<char> {
        match self {
            LayoutError::NoImageFiles => "No image files found"@,
            LayoutError::NoMaskFiles => "No mask files found"@,
            LayoutError::NoCameraFiles => "No camera files found"@,
            LayoutError::NoW2cFiles => "No w2c files found"@,
            LayoutError::MaskCountMismatch => "assertion failed: image_files.len() == mask_files.len()"@,
            LayoutError::W2cCountMismatch => "assertion failed: image_files.len() == w2c_files.len()"@,
            LayoutError::CameraCountMismatch => "Number of camera files must be 1 or equal to number of image files"@,
        }
    }

    /// The text of the refusal.
    pub fn message(&self) -> (s: String)
        ensures
            s@ == self.text(),
    {
        match self {
            LayoutError::NoImageFiles => String::from_str("No image files found"),
            LayoutError::NoMaskFiles => String::from_str("No mask files found"),
            LayoutError::NoCameraFiles => String::from_str("No camera files found"),
            LayoutError::NoW2cFiles => String::from_str("No w2c files found"),
            LayoutError::MaskCountMismatch => String::from_str(
                "assertion failed: image_files.len() == mask_files.len()",
            ),
            LayoutError::W2cCountMismatch => String::from_str(
                "assertion failed: image_files.len() == w2c_files.len()",
            ),
            LayoutError::CameraCountMismatch => String::from_str(
                "Number of camera files must be 1 or equal to number of image files",
            ),
        }
    }
}

/// The cameras of the frames: a single camera is repeated for every frame
/// (at least once); otherwise the cameras are kept as they are.
pub open spec fn per_frame(cameras: Seq<CameraParams>, frames: nat) -> Seq<CameraParams> {
    if cameras.len() == 1 {
        Seq::new(if frames == 0 { 1 } else { frames }, |k: int| cameras[0])
    } else {
        cameras
    }
}

/// Gives every frame its camera.
pub fn cameras_per_frame(cameras: Vec<CameraParams>, frames: usize) -> (r: Vec<CameraParams>)
    ensures
        r@ == per_frame(cameras@, frames as nat),
{
    let mut cameras = cameras;
    let ghost orig = cameras@;
    if cameras.len() == 1 {
        let first = cameras[0];
        let mut k: usize = 1;
        while k < frames
            invariant
                cameras@.len() == k,
                1 <= k,
                k <= frames || k == 1,
                forall|j: int| 0 <= j < k ==> cameras@[j] == first,
            decreases frames - k,
        {
            cameras.push(first);
            k = k + 1;
        }
        assert(cameras@ =~= per_frame(orig, frames as nat));
    }
    cameras
}

/// The intrinsics written for one frame: focal lengths and principal point
/// from the camera matrix, the first four distortion coefficients, and the
/// image size. Values are the bit patterns of the `f64` readings.
#[derive(Clone, Copy, Debug, PartialEq, Eq)]
pub struct FrameIntrinsics {
    pub fl_x: u64,
    pub fl_y: u64,
    pub cx: u64,
    pub cy: u64,
    pub k1: u64,
    pub k2: u64,
    pub p1: u64,
    pub p2: u64,
    pub w: u32,
    pub h: u32,
}

/// The intrinsics of a frame shot with `camera`.
pub open spec fn intrinsics_of(camera: CameraParams) -> FrameIntrinsics {
    FrameIntrinsics {
        fl_x: camera.camera_matrix[0][0],
        fl_y: camera.camera_matrix[1][1],
        cx: camera.camera_matrix[0][2],
        cy: camera.camera_matrix[1][2],
        k1: camera.distortion_coeffs[0],
        k2: camera.distortion_coeffs[1],
        p1: camera.distortion_coeffs[2],
        p2: camera.distortion_coeffs[3],
        w: camera.width,
        h: camera.height,
    }
}

/// Picks a frame's intrinsics out of its camera.
pub fn frame_intrinsics(camera: &CameraParams) -> (r: FrameIntrinsics)
    ensures
        r == intrinsics_of(*camera),
{
    FrameIntrinsics {
        fl_x: camera.camera_matrix[0][0],
        fl_y: camera.camera_matrix[1][1],
        cx: camera.camera_matrix[0][2],
        cy: camera.camera_matrix[1][2],
        k1: camera.distortion_coeffs[0],
        k2: camera.distortion_coeffs[1],
        p1: camera.distortion_coeffs[2],
        p2: camera.distortion_coeffs[3],
        w: camera.width,
        h: camera.height,
    }
}

/// The path of frame `i`'s image, relative to the output folder.
pub open spec fn image_path_text(i: nat) -> Seq<char> {
    "images/"@ + decimal(i) + "_image.png"@
}

/// The path of frame `i`'s image, relative to the output folder.
pub fn frame_image_path(i: usize) -> (s: String)
    ensures
        s@ == image_path_text(i as nat),
{
    let mut s = String::from_str("images/");
    push_decimal(&mut s, i as u64);
    s.append("_image.png");
    s
}

/// On an accepted layout every frame gets a camera: one per frame, the
/// shared camera repeated when there is only one.
pub proof fn law_every_frame_has_a_camera(cameras: Seq<CameraParams>, images: nat, masks: nat, w2cs: nat)
    requires
        layout_of(images, masks, cameras.len(), w2cs) is Ok,
    ensures
        per_frame(cameras, images).len() == images,
        cameras.len() == 1 ==> forall|k: int|
            0 <= k < images ==> #[trigger] per_frame(cameras, images)[k] == cameras[0],
        cameras.len() != 1 ==> per_frame(cameras, images) == cameras,
{
}

/// A layout is accepted exactly when there are images, one mask and one
/// world-to-camera file per image, and one camera file in all or one per
/// image; it then has one frame per image, sharing the camera when there is
/// only one camera file.
pub proof fn law_layout_accepts_matching_files(images: usize, masks: usize, cameras: usize, w2cs: usize)
    ensures
        layout_of(images as nat, masks as nat, cameras as nat, w2cs as nat) is Ok <==> (images > 0
            && masks == images && w2cs == images && (cameras == 1 || cameras == images)),
        layout_of(images as nat, masks as nat, cameras as nat, w2cs as nat) is Ok ==> layout_of(
            images as nat,
            masks as nat,
            cameras as nat,
            w2cs as nat,
        )->Ok_0 == (DatasetLayout { frames: images, shared_camera: cameras == 1 }),
{
}

/// Which problem a refused layout reports: a missing kind of file first
/// (images, masks, cameras, world-to-camera files, in that order), then a
/// mask count other than the image count, then a world-to-camera count
/// other than the image count, then a camera count that is neither one nor
/// the image count.
pub proof fn law_layout_first_problem(images: nat, masks: nat, cameras: nat, w2cs: nat)
    ensures
        images == 0 ==> layout_of(images, masks, cameras, w2cs) == Err::<DatasetLayout, LayoutError>(
            LayoutError::NoImageFiles,
        ),
        images > 0 && masks == 0 ==> layout_of(images, masks, cameras, w2cs) == Err::<
            DatasetLayout,
            LayoutError,
        >(LayoutError::NoMaskFiles),
        images > 0 && masks > 0 && cameras == 0 ==> layout_of(images, masks, cameras, w2cs) == Err::<
            DatasetLayout,
            LayoutError,
        >(LayoutError::NoCameraFiles),
        images > 0 && masks > 0 && cameras > 0 && w2cs == 0 ==> layout_of(images, masks, cameras, w2cs)
            == Err::<DatasetLayout, LayoutError>(LayoutError::NoW2cFiles),
        images > 0 && masks > 0 && cameras > 0 && w2cs > 0 && masks != images ==> layout_of(
            images,
            masks,
            cameras,
            w2cs,
        ) == Err::<DatasetLayout, LayoutError>(LayoutError::MaskCountMismatch),
        images > 0 && masks == images && cameras > 0 && w2cs > 0 && w2cs != images ==> layout_of(
            images,
            masks,
            cameras,
            w2cs,
        ) == Err::<DatasetLayout, LayoutError>(LayoutError::W2cCountMismatch),
        images > 0 && masks == images && w2cs == images && cameras > 0 && cameras != 1 && cameras
            != images ==> layout_of(images, masks, cameras, w2cs) == Err::<DatasetLayout, LayoutError>(
            LayoutError::CameraCountMismatch,
        ),
{
}

/// Every frame's image lies in `images/`, is named after the frame's
/// number and ends in `_image.png`; different frames get different paths.
pub proof fn law_frame_paths_distinct(i: nat, j: nat)
    ensures
        image_path_text(i).subrange(0, 7) == "images/"@,
        image_path_text(i).subrange(7, image_path_text(i).len() - 10) == decimal(i),
        image_path_text(i).subrange(image_path_text(i).len() - 10, image_path_text(i).len() as int)
            == "_image.png"@,
        i != j ==> image_path_text(i) != image_path_text(j),
{
    reveal_strlit("images/");
    reveal_strlit("_image.png");
    let a = image_path_text(i);
    let b = image_path_text(j);
    assert(a.subrange(0, 7) =~= "images/"@);
    assert(a.subrange(7, a.len() - 10) =~= decimal(i));
    assert(a.subrange(a.len() - 10, a.len() as int) =~= "_image.png"@);
    assert(b.subrange(7, b.len() - 10) =~= decimal(j));
    if a == b {
        law_decimal_injective(i, j);
    }
}

} // verus!
