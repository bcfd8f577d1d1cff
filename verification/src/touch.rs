//! Multi-touch protocol decoder.
//!
//! The device hands out fixed 24-byte event records; the fields of interest
//! are a 2-byte event type, a 2-byte event code and a 4-byte signed value at
//! fixed offsets, little-endian — the byte order and the offsets are a stated
//! portability contract of the wire format. The decoder tracks up to ten
//! slots and turns absolute-axis records into logical touch events.
//!
//! Logical coordinates are raw device coordinates divided by the fixed
//! display scale (2), held in milli-pixels, so the division is exact.

use vstd::prelude::*;
use crate::fixed::fx_ok;

verus! {

/// Absolute-axis event type of the wire format.
pub const EV_ABS: u16 = 3;

/// Slot-select event code.
pub const ABS_MT_SLOT: u16 = 0x2f;

/// Tracking-id event code (-1 marks the slot untouched).
pub const ABS_MT_TRACKING_ID: u16 = 0x39;

/// X-position event code.
pub const ABS_MT_POSITION_X: u16 = 0x35;

/// Y-position event code.
pub const ABS_MT_POSITION_Y: u16 = 0x36;

/// Number of tracked slots.
pub const SLOT_COUNT: usize = 10;

/// Length of one wire record in bytes.
pub const RECORD_LEN: usize = 24;

/// The display-scale divisor taking raw device coordinates to logical
/// pixels. A deployment constant of the targeted HiDPI convention, not
/// derived at runtime.
pub const DISPLAY_SCALE: i64 = 2;

/// Milli-pixels per raw coordinate unit: one thousandth of a pixel times
/// one over the display scale.
pub const MILLI_PER_RAW: i64 = 500;

/// A raw coordinate taken to logical milli-pixels.
pub open spec fn normal_milli(raw: int) -> int {
    raw * MILLI_PER_RAW as int
}

/// A decoded logical touch gesture event, coordinates in milli-pixels of
/// logical screen space.
#[derive(Clone, Copy)]
pub enum TouchEvent {
    Start(i64, i64),
    Move(i64, i64),
    End(i64, i64),
}

/// Per-slot touch-tracking state: the protocol's tracking id (-1 when the
/// slot is untouched) and the last raw coordinates reported for the slot.
#[derive(Clone, Copy)]
pub struct TouchSlot {
    pub tracking_id: i32,
    pub x: i32,
    pub y: i32,
}

/// Decoder state: axis calibration plus the slot table and the currently
/// selected slot.
pub struct TouchDecoder {
    pub axis_max_x: i32,
    pub axis_max_y: i32,
    pub current_slot: usize,
    pub slots: Vec<TouchSlot>,
}

/// Little-endian 16-bit field at offset `i`.
pub open spec fn le16(s: Seq<u8>, i: int) -> int {
    s[i] + 256 * s[i + 1]
}

/// Little-endian unsigned 32-bit field at offset `i`.
pub open spec fn le32(s: Seq<u8>, i: int) -> int {
    s[i] + 256 * s[i + 1] + 65536 * s[i + 2] + 16777216 * s[i + 3]
}

/// Little-endian two's-complement 32-bit field at offset `i`.
pub open spec fn le32_signed(s: Seq<u8>, i: int) -> int {
    if le32(s, i) < 0x8000_0000 {
        le32(s, i)
    } else {
        le32(s, i) - 0x1_0000_0000
    }
}

/// The clamp applied to a slot-select value.
pub open spec fn clamp_slot(v: int) -> int {
    if v < 0 {
        0
    } else if v > 9 {
        9
    } else {
        v
    }
}

/// What one wire record does to the decoder: relates the state before, the
/// decoded fields, the state after and the emitted event.
pub open spec fn decoder_step(
    pre: TouchDecoder,
    ev_type: u16,
    code: u16,
    value: i32,
    post: TouchDecoder,
    ev: Option<TouchEvent>,
) -> bool {
    let cs = pre.current_slot as int;
    let s = pre.slots@[cs];
    &&& post.axis_max_x == pre.axis_max_x
    &&& post.axis_max_y == pre.axis_max_y
    &&& (ev_type != EV_ABS ==> post.slots@ == pre.slots@ && post.current_slot == pre.current_slot
        && ev is None)
    &&& (ev_type == EV_ABS ==> {
        if code == ABS_MT_SLOT {
            &&& post.slots@ == pre.slots@
            &&& post.current_slot == clamp_slot(value as int)
            &&& ev is None
        } else if code == ABS_MT_TRACKING_ID {
            &&& post.current_slot == pre.current_slot
            &&& (if value == -1 {
                if s.tracking_id != -1 {
                    &&& post.slots@ == pre.slots@.update(
                        cs,
                        TouchSlot { tracking_id: -1i32, x: s.x, y: s.y },
                    )
                    &&& ev == Some(
                        TouchEvent::End(
                            normal_milli(s.x as int) as i64,
                            normal_milli(s.y as int) as i64,
                        ),
                    )
                } else {
                    &&& post.slots@ == pre.slots@
                    &&& ev is None
                }
            } else {
                &&& post.slots@ == pre.slots@.update(
                    cs,
                    TouchSlot { tracking_id: value, x: s.x, y: s.y },
                )
                &&& ev == Some(
                    TouchEvent::Start(
                        normal_milli(s.x as int) as i64,
                        normal_milli(s.y as int) as i64,
                    ),
                )
            })
        } else if code == ABS_MT_POSITION_X {
            &&& post.current_slot == pre.current_slot
            &&& post.slots@ == pre.slots@.update(
                cs,
                TouchSlot { tracking_id: s.tracking_id, x: value, y: s.y },
            )
            &&& ev == (if s.tracking_id != -1 {
                Some(
                    TouchEvent::Move(
                        normal_milli(value as int) as i64,
                        normal_milli(s.y as int) as i64,
                    ),
                )
            } else {
                None
            })
        } else if code == ABS_MT_POSITION_Y {
            &&& post.current_slot == pre.current_slot
            &&& post.slots@ == pre.slots@.update(
                cs,
                TouchSlot { tracking_id: s.tracking_id, x: s.x, y: value },
            )
            &&& ev == (if s.tracking_id != -1 {
                Some(
                    TouchEvent::Move(
                        normal_milli(s.x as int) as i64,
                        normal_milli(value as int) as i64,
                    ),
                )
            } else {
                None
            })
        } else {
            &&& post.slots@ == pre.slots@
            &&& post.current_slot == pre.current_slot
            &&& ev is None
        }
    })
}

impl TouchDecoder {
    /// Well-formed decoder: a full slot table and a selected slot inside it.
    pub open spec fn wf(self) -> bool {
        &&& self.slots@.len() == SLOT_COUNT
        &&& self.current_slot < SLOT_COUNT
    }

    /// A fresh decoder for the given raw axis maxima: slot 0 selected, every
    /// slot untouched at raw position (0, 0).
    pub fn new(axis_max_x: i32, axis_max_y: i32) -> (r: TouchDecoder)
        ensures
            r.wf(),
            r.axis_max_x == axis_max_x,
            r.axis_max_y == axis_max_y,
            r.current_slot == 0,
            forall|i: int|
                0 <= i < SLOT_COUNT ==> r.slots@[i] == (TouchSlot {
                    tracking_id: -1i32,
                    x: 0i32,
                    y: 0i32,
                }),
    {
        let mut slots: Vec<TouchSlot> = Vec::new();
        let mut i: usize = 0;
        while i < SLOT_COUNT
            invariant
                i <= SLOT_COUNT,
                slots@.len() == i,
                forall|j: int|
                    0 <= j < i ==> slots@[j] == (TouchSlot { tracking_id: -1i32, x: 0i32, y: 0i32 }),
            decreases SLOT_COUNT - i,
        {
            slots.push(TouchSlot { tracking_id: -1, x: 0, y: 0 });
            i = i + 1;
        }
        TouchDecoder { axis_max_x, axis_max_y, current_slot: 0, slots }
    }

    /// Logical screen width in milli-pixels: the raw X maximum divided by
    /// the display scale.
    pub fn logical_width_milli(&self) -> (r: i64)
        ensures
            r == normal_milli(self.axis_max_x as int),
    {
        (self.axis_max_x as i64) * MILLI_PER_RAW
    }

    /// Logical screen height in milli-pixels: the raw Y maximum divided by
    /// the display scale.
    pub fn logical_height_milli(&self) -> (r: i64)
        ensures
            r == normal_milli(self.axis_max_y as int),
    {
        (self.axis_max_y as i64) * MILLI_PER_RAW
    }

    /// Apply one decoded record to the slot table; non-axis event types and
    /// unknown codes are ignored.
    pub fn handle_event(&mut self, ev_type: u16, code: u16, value: i32) -> (ev: Option<TouchEvent>)
        requires
            old(self).wf(),
        ensures
            final(self).wf(),
            decoder_step(*old(self), ev_type, code, value, *final(self), ev),
            match ev {
                Some(e) => !(e is Start) ==> old(self).slots@[old(self).current_slot as int]
                    .tracking_id != -1,
                None => true,
            },
    {
        if ev_type != EV_ABS {
            return None;
        }
        if code == ABS_MT_SLOT {
            let clamped: i32 = if value < 0 {
                0
            } else if value > 9 {
                9
            } else {
                value
            };
            self.current_slot = clamped as usize;
            None
        } else if code == ABS_MT_TRACKING_ID {
            let cs = self.current_slot;
            let s = self.slots[cs];
            if value == -1 {
                if s.tracking_id != -1 {
                    self.slots[cs] = TouchSlot { tracking_id: -1, x: s.x, y: s.y };
                    Some(
                        TouchEvent::End(
                            (s.x as i64) * MILLI_PER_RAW,
                            (s.y as i64) * MILLI_PER_RAW,
                        ),
                    )
                } else {
                    None
                }
            } else {
                self.slots[cs] = TouchSlot { tracking_id: value, x: s.x, y: s.y };
                Some(
                    TouchEvent::Start(
                        (s.x as i64) * MILLI_PER_RAW,
                        (s.y as i64) * MILLI_PER_RAW,
                    ),
                )
            }
        } else if code == ABS_MT_POSITION_X {
            let cs = self.current_slot;
            let s = self.slots[cs];
            self.slots[cs] = TouchSlot { tracking_id: s.tracking_id, x: value, y: s.y };
            if s.tracking_id != -1 {
                Some(
                    TouchEvent::Move(
                        (value as i64) * MILLI_PER_RAW,
                        (s.y as i64) * MILLI_PER_RAW,
                    ),
                )
            } else {
                None
            }
        } else if code == ABS_MT_POSITION_Y {
            let cs = self.current_slot;
            let s = self.slots[cs];
            self.slots[cs] = TouchSlot { tracking_id: s.tracking_id, x: s.x, y: value };
            if s.tracking_id != -1 {
                Some(
                    TouchEvent::Move(
                        (s.x as i64) * MILLI_PER_RAW,
                        (value as i64) * MILLI_PER_RAW,
                    ),
                )
            } else {
                None
            }
        } else {
            None
        }
    }

    /// Decode one 24-byte wire record and apply it.
    pub fn handle_record(&mut self, buf: &Vec<u8>) -> (ev: Option<TouchEvent>)
        requires
            old(self).wf(),
            buf@.len() == RECORD_LEN,
        ensures
            final(self).wf(),
            decoder_step(
                *old(self),
                le16(buf@, 16) as u16,
                le16(buf@, 18) as u16,
                le32_signed(buf@, 20) as i32,
                *final(self),
                ev,
            ),
    {
        let (ev_type, code, value) = parse_event_record(buf);
        self.handle_event(ev_type, code, value)
    }
}

/// Pull the event-type, event-code and signed value fields out of one
/// 24-byte wire record (offsets 16, 18 and 20, little-endian).
pub fn parse_event_record(buf: &Vec<u8>) -> (r: (u16, u16, i32))
    requires
        buf@.len() == RECORD_LEN,
    ensures
        r.0 == le16(buf@, 16),
        r.1 == le16(buf@, 18),
        r.2 == le32_signed(buf@, 20),
{
    let ev_type: u16 = buf[16] as u16 + (buf[17] as u16) * 256;
    let code: u16 = buf[18] as u16 + (buf[19] as u16) * 256;
    let vu: u32 = buf[20] as u32 + (buf[21] as u32) * 256 + (buf[22] as u32) * 65536 + (
    buf[23] as u32) * 16777216;
    let value: i32 = if vu >= 0x8000_0000 {
        let mag: i64 = 0x1_0000_0000i64 - vu as i64;
        (-mag) as i32
    } else {
        vu as i32
    };
    (ev_type, code, value)
}

/// ASCII lowercase of one byte.
pub open spec fn ascii_lower(b: u8) -> u8 {
    if 65 <= b <= 90 {
        (b + 32) as u8
    } else {
        b
    }
}

/// A byte string lowercased, ASCII letter by ASCII letter.
pub open spec fn lower_bytes(s: Seq<u8>) -> Seq<u8> {
    Seq::new(s.len(), |i: int| ascii_lower(s[i]))
}

/// `pat` occurs somewhere in `s`.
pub open spec fn contains_bytes(s: Seq<u8>, pat: Seq<u8>) -> bool {
    exists|i: int| 0 <= i && i + pat.len() <= s.len() && #[trigger] s.subrange(i, i + pat.len())
        == pat
}

/// The device-name heuristic of touchscreen discovery: the lowercased
/// name holds one of the touch-indicative substrings "touch", "ts" or
/// "fts".
pub open spec fn touch_name_spec(s: Seq<u8>) -> bool {
    ||| contains_bytes(lower_bytes(s), seq![116u8, 111u8, 117u8, 99u8, 104u8])
    ||| contains_bytes(lower_bytes(s), seq![116u8, 115u8])
    ||| contains_bytes(lower_bytes(s), seq![102u8, 116u8, 115u8])
}

/// Lowercase a name's bytes.
#[verifier::loop_isolation(false)]
fn to_lower_ascii(name: &Vec<u8>) -> (r: Vec<u8>)
    ensures
        r@ == lower_bytes(name@),
{
    let mut out: Vec<u8> = Vec::new();
    let mut i: usize = 0;
    let n = name.len();
    while i < n
        invariant
            i <= n,
            n == name@.len(),
            out@.len() == i,
            forall|k: int| 0 <= k < i ==> out@[k] == ascii_lower(name@[k]),
        decreases n - i,
    {
        let b = name[i];
        let lb: u8 = if b >= 65 && b <= 90 {
            b + 32
        } else {
            b
        };
        out.push(lb);
        i = i + 1;
    }
    proof {
        assert(out@ =~= lower_bytes(name@));
    }
    out
}

/// Whether `pat` occurs in `hay`, by a direct scan.
#[verifier::loop_isolation(false)]
fn find_sub(hay: &Vec<u8>, pat: &Vec<u8>) -> (r: bool)
    ensures
        r == contains_bytes(hay@, pat@),
{
    let n = hay.len();
    let m = pat.len();
    if m > n {
        return false;
    }
    let mut i: usize = 0;
    while i <= n - m
        invariant
            m <= n,
            i <= n - m + 1,
            forall|k: int| 0 <= k < i ==> #[trigger] hay@.subrange(k, k + pat@.len()) != pat@,
        decreases n - m + 1 - i,
    {
        let mut j: usize = 0;
        while j < m && hay[i + j] == pat[j]
            invariant
                j <= m,
                i + m <= n,
                forall|t: int| 0 <= t < j ==> hay@[i + t] == pat@[t],
            decreases m - j,
        {
            j = j + 1;
        }
        if j == m {
            proof {
                assert(hay@.subrange(i as int, i as int + pat@.len()) =~= pat@);
            }
            return true;
        }
        proof {
            assert(hay@.subrange(i as int, i as int + pat@.len())[j as int] == hay@[i + j]);
            assert(hay@.subrange(i as int, i as int + pat@.len()) != pat@);
        }
        i = i + 1;
    }
    false
}

/// The touchscreen-discovery name test: best-effort, case-insensitive.
pub fn is_touch_device_name(name: &Vec<u8>) -> (r: bool)
    ensures
        r == touch_name_spec(name@),
{
    let lowered = to_lower_ascii(name);
    let mut pat_touch: Vec<u8> = Vec::new();
    pat_touch.push(116);
    pat_touch.push(111);
    pat_touch.push(117);
    pat_touch.push(99);
    pat_touch.push(104);
    let mut pat_ts: Vec<u8> = Vec::new();
    pat_ts.push(116);
    pat_ts.push(115);
    let mut pat_fts: Vec<u8> = Vec::new();
    pat_fts.push(102);
    pat_fts.push(116);
    pat_fts.push(115);
    proof {
        assert(pat_touch@ =~= seq![116u8, 111u8, 117u8, 99u8, 104u8]);
        assert(pat_ts@ =~= seq![116u8, 115u8]);
        assert(pat_fts@ =~= seq![102u8, 116u8, 115u8]);
    }
    find_sub(&lowered, &pat_touch) || find_sub(&lowered, &pat_ts) || find_sub(&lowered, &pat_fts)
}

/// Every coordinate a decoder event carries is a fixed-point value in
/// range: raw device coordinates scaled by `MILLI_PER_RAW` stay well inside
/// the representable band.
pub proof fn lemma_event_coords_fx_ok(raw: i32)
    ensures
        fx_ok(normal_milli(raw as int) as i64),
{
}

/// A `Move` or `End` event is emitted only for a slot whose tracking id is
/// currently active (not -1) at the time of the update.
pub proof fn lemma_move_end_needs_tracking(
    pre: TouchDecoder,
    ev_type: u16,
    code: u16,
    value: i32,
    post: TouchDecoder,
    ev: Option<TouchEvent>,
)
    requires
        decoder_step(pre, ev_type, code, value, post, ev),
        ev matches Some(e) && !(e is Start),
    ensures
        pre.slots@[pre.current_slot as int].tracking_id != -1,
{
}

} // verus!
