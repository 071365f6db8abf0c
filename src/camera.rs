use vstd::prelude::*;

verus! {

/// Largest pitch magnitude, in micro-radians: 89.9 degrees, short of
/// looking straight up or down.
pub const PITCH_LIMIT: i64 = 1_569_051;

/// First-person view orientation.
#[derive(Clone, Copy, Debug, PartialEq, Eq, Structural)]
pub struct FpsCamera {
    /// Turn per pixel of motion in thousandths of the base rate of 0.002
    /// radians per pixel.
    pub sensitivity: u16,
    /// Angles in micro-radians.
    pub pitch: i64,
    pub yaw: i64,
}

impl Default for FpsCamera {
    fn default() -> (r: Self)
        ensures
            r == (FpsCamera { sensitivity: 100, pitch: 0, yaw: 0 }),
    {
        FpsCamera { sensitivity: 100, pitch: 0, yaw: 0 }
    }
}

/// Sum of the horizontal (`.0`) or vertical (`.1`) parts of the motions.
pub open spec fn motion_sum(motions: Seq<(i32, i32)>, vertical: bool) -> int
    decreases motions.len(),
{
    if motions.len() == 0 {
        0
    } else {
        let m = motions.last();
        motion_sum(motions.drop_last(), vertical) + if vertical { m.1 as int } else { m.0 as int }
    }
}

pub open spec fn clamp_pitch(p: int) -> int {
    if p < -PITCH_LIMIT { -PITCH_LIMIT as int } else if p > PITCH_LIMIT { PITCH_LIMIT as int } else { p }
}

/// Turns the view by this frame's mouse motions (pixels), only while the
/// cursor is captured: right and down turn yaw and pitch down by
/// `2 * sensitivity` micro-radians per pixel, and the pitch stays within
/// the limit. Returns whether the view turned.
pub fn update_camera(camera: &mut FpsCamera, cursor_captured: bool, motions: &Vec<(i32, i32)>) -> (r: bool)
    requires
        i64::MIN <= old(camera).yaw - 2 * old(camera).sensitivity * motion_sum(motions@, false) <= i64::MAX,
    ensures
        r == (cursor_captured && (motion_sum(motions@, false) != 0 || motion_sum(motions@, true) != 0)),
        !r ==> *final(camera) == *old(camera),
        r ==> *final(camera) == (FpsCamera {
            yaw: (old(camera).yaw - 2 * old(camera).sensitivity * motion_sum(motions@, false)) as i64,
            pitch: clamp_pitch(old(camera).pitch - 2 * old(camera).sensitivity * motion_sum(motions@, true)) as i64,
            ..*old(camera)
        }),
        r ==> -PITCH_LIMIT <= final(camera).pitch <= PITCH_LIMIT,
{
    if !cursor_captured {
        return false;
    }
    let mut dx: i128 = 0;
    let mut dy: i128 = 0;
    let mut k: usize = 0;
    while k < motions.len()
        invariant
            k <= motions@.len(),
            dx == motion_sum(motions@.subrange(0, k as int), false),
            dy == motion_sum(motions@.subrange(0, k as int), true),
            -(k * 0x8000_0000) <= dx <= k * 0x8000_0000,
            -(k * 0x8000_0000) <= dy <= k * 0x8000_0000,
        decreases motions@.len() - k,
    {
        proof {
            assert(motions@.subrange(0, k + 1).drop_last() == motions@.subrange(0, k as int));
        }
        let (mx, my) = motions[k];
        dx = dx + mx as i128;
        dy = dy + my as i128;
        k = k + 1;
    }
    assert(motions@.subrange(0, k as int) == motions@);
    if dx == 0 && dy == 0 {
        return false;
    }
    let rate: i128 = 2 * camera.sensitivity as i128;
    proof {
        crate::geometry::lemma_mul_abs(rate as int, dy as int, 0x2_0000, k * 0x8000_0000);
        crate::geometry::lemma_mul_abs(rate as int, dx as int, 0x2_0000, k * 0x8000_0000);
        assert(0x2_0000 * (k * 0x8000_0000) <= 0x2_0000 * (0xffff_ffff_ffff_ffff * 0x8000_0000)) by (nonlinear_arith)
            requires k <= 0xffff_ffff_ffff_ffff;
    }
    camera.yaw = (camera.yaw as i128 - rate * dx) as i64;
    let p: i128 = camera.pitch as i128 - rate * dy;
    camera.pitch = if p < -PITCH_LIMIT as i128 {
        -PITCH_LIMIT
    } else if p > PITCH_LIMIT as i128 {
        PITCH_LIMIT
    } else {
        p as i64
    };
    true
}

/// How the cursor and the player's input are set.
#[derive(Clone, Copy, Debug, PartialEq, Eq, Structural)]
pub struct CursorState {
    pub grab_locked: bool,
    pub visible: bool,
    pub input_enabled: bool,
}

pub open spec fn set_cursor_state_spec(gameplay_active: bool) -> CursorState {
    CursorState { grab_locked: gameplay_active, visible: !gameplay_active, input_enabled: gameplay_active }
}

/// Gameplay takes the cursor (locked, hidden, input on); otherwise the cursor
/// is free and shown and input is off.
pub fn set_cursor_state(gameplay_active: bool) -> (r: CursorState)
    ensures
        r == set_cursor_state_spec(gameplay_active),
{
    CursorState { grab_locked: gameplay_active, visible: !gameplay_active, input_enabled: gameplay_active }
}

/// A click captures the cursor for gameplay, else Escape releases it;
/// nothing changes otherwise.
pub fn manage_cursor(click: bool, escape: bool) -> (r: Option<CursorState>)
    ensures
        click ==> r == Some(set_cursor_state_spec(true)),
        !click && escape ==> r == Some(set_cursor_state_spec(false)),
        !click && !escape ==> r is None,
{
    if click {
        Some(set_cursor_state(true))
    } else if escape {
        Some(set_cursor_state(false))
    } else {
        None
    }
}

} // verus!
