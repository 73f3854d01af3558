//! The integer side of the pinhole camera: where each pixel of the viewport
//! lands in normalized device coordinates, and what a tick of user input
//! asks the camera to do.
use vstd::prelude::*;
use vstd::arithmetic::div_mod::lemma_fundamental_div_mod_converse;

verus! {

/// The normalized device coordinates of pixel `index` of a `width`-wide
/// viewport, as numerators: the x coordinate is `.0 / width` and the y
/// coordinate `.1 / height`. Pixels are sampled at their far corner
/// (columns and rows counted from one), x grows to the right and y grows
/// upwards, so row 0 is the top of the view.
pub open spec fn pixel_ndc_spec(index: int, width: int, height: int) -> (int, int) {
    let x = index % width + 1;
    let y = index / width + 1;
    (2 * x - width, height - 2 * y)
}

/// The numerators of pixel `index`'s normalized device coordinates in a
/// `width` by `height` viewport (row-major, top-left first); each lies in
/// `-size..=size` for its axis.
pub fn pixel_ndc(index: usize, width: u32, height: u32) -> (r: (i64, i64))
    requires
        width > 0,
        index < width * height,
    ensures
        r.0 == pixel_ndc_spec(index as int, width as int, height as int).0,
        r.1 == pixel_ndc_spec(index as int, width as int, height as int).1,
        -(width as int) < r.0 <= width,
        -(height as int) <= r.1 < height,
{
    let w = width as usize;
    assert(index / w < height) by (nonlinear_arith)
        requires
            index < w * height,
            w > 0,
    ;
    let x = index % w + 1;
    let y = index / w + 1;
    (2 * x as i64 - width as i64, height as i64 - 2 * y as i64)
}

/// In a viewport of even width and height, the pixel just above and to the
/// left of the centre is sampled at its corner on the centre itself, so its
/// ray runs along the camera's line of sight.
pub proof fn lemma_center_pixel_on_axis(width: int, height: int)
    requires
        width >= 2,
        height >= 2,
        width % 2 == 0,
        height % 2 == 0,
    ensures
        pixel_ndc_spec((height / 2 - 1) * width + (width / 2 - 1), width, height) == (0int, 0int),
{
    let index = (height / 2 - 1) * width + (width / 2 - 1);
    lemma_fundamental_div_mod_converse(index, width, height / 2 - 1, width / 2 - 1);
}

/// The movement keys held during a tick.
#[derive(Clone, Copy, Debug, PartialEq, Eq, Structural)]
pub struct MoveKeys {
    pub forward: bool,
    pub backward: bool,
    pub left: bool,
    pub right: bool,
    pub down: bool,
    pub up: bool,
}

/// What one tick of input asks of the camera: a step of -1, 0 or 1 along
/// each of its forward, right and up axes, and whether to turn by the
/// pointer's motion.
#[derive(Clone, Copy, Debug, PartialEq, Eq, Structural)]
pub struct CameraPlan {
    pub forward: i8,
    pub right: i8,
    pub up: i8,
    pub rotate: bool,
}

/// The step along one axis when `plus` and `minus` are its two keys; `plus`
/// wins when both are held.
pub open spec fn axis_step_spec(plus: bool, minus: bool) -> i8 {
    if plus {
        1i8
    } else if minus {
        -1i8
    } else {
        0i8
    }
}

fn axis_step(plus: bool, minus: bool) -> (r: i8)
    ensures
        r == axis_step_spec(plus, minus),
{
    if plus {
        1
    } else if minus {
        -1
    } else {
        0
    }
}

/// Decides a tick of camera control. Nothing happens unless the look button
/// is held (`None`: the pointer is released). Otherwise each axis steps by
/// its keys (forward before backward, right before left, up before down)
/// and the camera turns when the pointer moved.
pub fn plan_camera_update(look_held: bool, keys: MoveKeys, pointer_moved: bool) -> (r: Option<
    CameraPlan,
>)
    ensures
        !look_held ==> r is None,
        look_held ==> r == Some(
            CameraPlan {
                forward: axis_step_spec(keys.forward, keys.backward),
                right: axis_step_spec(keys.right, keys.left),
                up: axis_step_spec(keys.up, keys.down),
                rotate: pointer_moved,
            },
        ),
{
    if !look_held {
        return None;
    }
    Some(
        CameraPlan {
            forward: axis_step(keys.forward, keys.backward),
            right: axis_step(keys.right, keys.left),
            up: axis_step(keys.up, keys.down),
            rotate: pointer_moved,
        },
    )
}

impl CameraPlan {
    /// Whether the plan moves or turns the camera at all.
    pub open spec fn moves_spec(&self) -> bool {
        self.forward != 0 || self.right != 0 || self.up != 0 || self.rotate
    }

    /// Whether carrying out the plan changes the view, so that the view,
    /// the per-pixel rays and the renderer's accumulation must all be
    /// refreshed.
    pub fn moves(&self) -> (r: bool)
        ensures
            r == self.moves_spec(),
    {
        self.forward != 0 || self.right != 0 || self.up != 0 || self.rotate
    }
}

} // verus!
