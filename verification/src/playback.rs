//! Drawing a run of packets, the part of a `.cdg` file that belongs to a track,
//! and the tile channels that playback starts with.

use crate::cdg::{
    channel_of, scan, slot_view, slots_view, AnyPacket, Instruction, PacketIter,
    PacketView,
};
use crate::renderer::{CdegScreen, Composite, Plane};
use crate::renderer_laws::lemma_stays_wf;
use vstd::prelude::*;

verus! {

// ── Drawing ─────────────────────────────────────────────────────────────────

/// The screen after one slot of a scan; an empty slot changes nothing.
pub open spec fn step(c: Composite, slot: Option<PacketView>) -> Composite {
    match slot {
        Some(packet) => c.after(packet),
        None => c,
    }
}

/// The screen after the slots from `from` up to `to`.
pub open spec fn drawn(
    c: Composite,
    slots: Seq<(u32, Option<PacketView>)>,
    from: int,
    to: int,
) -> Composite
    decreases to - from,
{
    if from >= to {
        c
    } else {
        step(drawn(c, slots, from, to - 1), slots[to - 1].1)
    }
}

/// A blank screen on which the given channels are active.
pub open spec fn start_screen(cdeg_enabled: bool, channels: Seq<bool>) -> Composite {
    Composite { active_channels: channels, ..Composite::blank(cdeg_enabled) }
}

/// Drawing in two runs is drawing in one.
pub proof fn lemma_drawn_in_two(
    c: Composite,
    slots: Seq<(u32, Option<PacketView>)>,
    from: int,
    mid: int,
    to: int,
)
    requires
        from <= mid <= to,
    ensures
        drawn(drawn(c, slots, from, mid), slots, mid, to) == drawn(c, slots, from, to),
    decreases to - mid,
{
    if mid < to {
        lemma_drawn_in_two(c, slots, from, mid, to - 1);
    }
}

/// Whatever is drawn, the screen stays well-formed, so that it can always be
/// rendered.
pub proof fn lemma_drawn_wf(
    c: Composite,
    slots: Seq<(u32, Option<PacketView>)>,
    from: int,
    to: int,
)
    requires
        c.wf(),
    ensures
        drawn(c, slots, from, to).wf(),
    decreases to - from,
{
    if from < to {
        lemma_drawn_wf(c, slots, from, to - 1);
        let before = drawn(c, slots, from, to - 1);
        if let Some(packet) = slots[to - 1].1 {
            lemma_stays_wf(before, packet);
        }
    }
}

/// Drawing never changes which channels are active, nor whether CD+EG is on.
pub proof fn lemma_drawn_keeps_settings(
    c: Composite,
    slots: Seq<(u32, Option<PacketView>)>,
    from: int,
    to: int,
)
    ensures
        drawn(c, slots, from, to).active_channels == c.active_channels,
        drawn(c, slots, from, to).cdeg_enabled == c.cdeg_enabled,
    decreases to - from,
{
    if from < to {
        lemma_drawn_keeps_settings(c, slots, from, to - 1);
    }
}

/// A standard CD+G decoder with one plane, after the first `n` slots: it knows
/// item 1 packets only, and paints no tile on an inactive channel.
pub open spec fn cdg_drawn(
    slots: Seq<(u32, Option<PacketView>)>,
    channels: Seq<bool>,
    n: int,
) -> Plane
    decreases n,
{
    if n <= 0 {
        Plane::blank()
    } else {
        let before = cdg_drawn(slots, channels, n - 1);
        match slots[n - 1].1 {
            Some(PacketView::Item1(instruction, data)) => {
                let tile = instruction == Instruction::TileBlock || instruction
                    == Instruction::TileBlockXor;
                if tile && !channels[channel_of(data)] {
                    before
                } else {
                    before.after(instruction, data)
                }
            },
            _ => before,
        }
    }
}

/// With CD+EG off, a screen shows what a standard CD+G decoder shows, whatever
/// CD+EG packets there are.
pub proof fn lemma_cdeg_off_is_cdg(
    slots: Seq<(u32, Option<PacketView>)>,
    channels: Seq<bool>,
    n: int,
)
    requires
        0 <= n <= slots.len(),
    ensures
        drawn(start_screen(false, channels), slots, 0, n) == (Composite {
            primary: cdg_drawn(slots, channels, n),
            ..start_screen(false, channels)
        }),
        drawn(start_screen(false, channels), slots, 0, n).frame() == cdg_drawn(
            slots,
            channels,
            n,
        ).frame(),
    decreases n,
{
    if n > 0 {
        lemma_cdeg_off_is_cdg(slots, channels, n - 1);
    }
    assert(drawn(start_screen(false, channels), slots, 0, n).frame() =~= cdg_drawn(
        slots,
        channels,
        n,
    ).frame());
}

/// Without CD+EG packets, a screen shows the same whether CD+EG is on or off.
pub proof fn lemma_cdeg_idle_without_cdeg(
    slots: Seq<(u32, Option<PacketView>)>,
    channels: Seq<bool>,
    n: int,
)
    requires
        0 <= n <= slots.len(),
        !holds_cdeg(slots),
    ensures
        drawn(start_screen(true, channels), slots, 0, n) == (Composite {
            cdeg_enabled: true,
            ..drawn(start_screen(false, channels), slots, 0, n)
        }),
    decreases n,
{
    if n > 0 {
        lemma_cdeg_idle_without_cdeg(slots, channels, n - 1);
        assert(!(slots[n - 1].1 matches Some(PacketView::Item2(..))));
    }
}

/// A blank screen with the given channels active.
fn blank_screen(cdeg_enabled: bool, channels: [bool; 16]) -> (r: CdegScreen)
    ensures
        r@ == start_screen(cdeg_enabled, channels@),
        r@.wf(),
{
    let mut r = CdegScreen::new(cdeg_enabled);
    r.active_channels = channels;
    r
}

/// Applies the packets of the slots from `from` up to `to`.
pub fn draw(
    screen: &mut CdegScreen,
    slots: &Vec<(u32, Option<AnyPacket>)>,
    from: usize,
    to: usize,
)
    requires
        from <= to <= slots@.len(),
    ensures
        final(screen)@ == drawn(old(screen)@, slots_view(slots@), from as int, to as int),
{
    let mut i: usize = from;
    while i < to
        invariant
            from <= i <= to <= slots@.len(),
            screen@ == drawn(old(screen)@, slots_view(slots@), from as int, i as int),
        decreases to - i,
    {
        assert(slots_view(slots@)[i as int].1 == slot_view(slots@[i as int].1));
        if let Some(packet) = &slots[i].1 {
            screen.apply(packet);
        }
        i += 1;
    }
}

/// The screen after the first `count` slots, drawn from the start.
pub fn replay(
    cdeg_enabled: bool,
    channels: [bool; 16],
    slots: &Vec<(u32, Option<AnyPacket>)>,
    count: usize,
) -> (screen: CdegScreen)
    requires
        count <= slots@.len(),
    ensures
        screen@ == drawn(
            start_screen(cdeg_enabled, channels@),
            slots_view(slots@),
            0,
            count as int,
        ),
        screen@.wf(),
{
    let mut screen = blank_screen(cdeg_enabled, channels);
    draw(&mut screen, slots, 0, count);
    proof {
        lemma_drawn_wf(
            start_screen(cdeg_enabled, channels@),
            slots_view(slots@),
            0,
            count as int,
        );
    }
    screen
}

// ── A track's packets ───────────────────────────────────────────────────────

/// Bytes of a `.cdg` file in one sector, which holds four packets.
pub const CDG_BYTES_PER_SECTOR: usize = 96;

/// The bytes of a track: those of its sectors, as far as the file has them.
pub open spec fn track_bytes(raw: Seq<u8>, offset: int, sectors: int) -> Seq<u8> {
    let start = if offset < raw.len() {
        offset
    } else {
        raw.len() as int
    };
    let end = if offset + sectors * CDG_BYTES_PER_SECTOR < raw.len() {
        offset + sectors * CDG_BYTES_PER_SECTOR
    } else {
        raw.len() as int
    };
    raw.subrange(start, end)
}

/// Slices out the bytes of a track that starts at byte `offset`.
pub fn track_slice(raw: &[u8], offset: usize, sectors: usize) -> (r: &[u8])
    requires
        offset + sectors * CDG_BYTES_PER_SECTOR <= usize::MAX,
    ensures
        r@ == track_bytes(raw@, offset as int, sectors as int),
{
    let size: usize = sectors * CDG_BYTES_PER_SECTOR;
    let end: usize = if offset + size < raw.len() {
        offset + size
    } else {
        raw.len()
    };
    let start: usize = if offset < raw.len() {
        offset
    } else {
        raw.len()
    };
    vstd::slice::slice_subrange(raw, start, end)
}

/// Whether one of the slots holds a CD+EG packet.
pub open spec fn holds_cdeg(slots: Seq<(u32, Option<PacketView>)>) -> bool {
    exists|k: int| 0 <= k < slots.len() && (#[trigger] slots[k]).1 matches Some(PacketView::Item2(
        ..,
    ))
}

/// Whether any of the packets is a CD+EG packet.
pub fn has_cdeg(slots: &Vec<(u32, Option<AnyPacket>)>) -> (r: bool)
    ensures
        r == holds_cdeg(slots_view(slots@)),
{
    let ghost view = slots_view(slots@);
    let mut i: usize = 0;
    while i < slots.len()
        invariant
            i <= slots@.len(),
            view == slots_view(slots@),
            forall|k: int|
                0 <= k < i ==> !((#[trigger] view[k]).1 matches Some(PacketView::Item2(..))),
        decreases slots@.len() - i,
    {
        assert(view[i as int].1 == slot_view(slots@[i as int].1));
        if let Some(AnyPacket::Item2(_)) = &slots[i].1 {
            return true;
        }
        i += 1;
    }
    false
}

/// The packets of a track that starts at byte `offset` of a `.cdg` file.
pub fn track_packets(raw: &[u8], offset: usize, sectors: usize) -> (r: Vec<
    (u32, Option<AnyPacket>),
>)
    requires
        offset + sectors * CDG_BYTES_PER_SECTOR <= usize::MAX,
    ensures
        slots_view(r@) == scan(track_bytes(raw@, offset as int, sectors as int)),
{
    PacketIter::new(track_slice(raw, offset, sectors)).collect()
}

// ── Channels ────────────────────────────────────────────────────────────────

/// The channels that are enabled when a disc is opened: channel 0, and channel 1
/// if the disc uses both.
pub open spec fn default_channels_of(present: Seq<bool>) -> Seq<bool> {
    Seq::new(16, |ch: int| ch == 0 || ch == 1 && present[0] && present[1])
}

/// Picks the channels to enable on a disc that uses the channels `present`.
pub fn default_channels(present: &[bool; 16]) -> (active: [bool; 16])
    ensures
        active@ == default_channels_of(present@),
{
    let mut active: [bool; 16] = [false; 16];
    active[0] = true;
    if present[0] && present[1] {
        active[1] = true;
    }
    assert(active@ =~= default_channels_of(present@));
    active
}

// ── Tracks ──────────────────────────────────────────────────────────────────

/// Where a track number stands in a list of track numbers; 0 if nowhere.
pub fn track_position(numbers: &Vec<u32>, number: u32) -> (r: usize)
    ensures
        if numbers@.contains(number) {
            &&& r < numbers@.len()
            &&& numbers@[r as int] == number
            &&& forall|k: int| 0 <= k < r ==> numbers@[k] != number
        } else {
            r == 0
        },
{
    let mut i: usize = 0;
    while i < numbers.len()
        invariant
            i <= numbers@.len(),
            forall|k: int| 0 <= k < i ==> numbers@[k] != number,
        decreases numbers@.len() - i,
    {
        if numbers[i] == number {
            return i;
        }
        i += 1;
    }
    0
}

/// The track to play when track `idx` of `count` has ended, if there is one.
pub fn following_track(idx: usize, count: usize) -> (r: Option<usize>)
    ensures
        r == if idx + 1 < count {
            Some((idx + 1) as usize)
        } else {
            None
        },
{
    if idx < count && idx + 1 < count {
        Some(idx + 1)
    } else {
        None
    }
}

/// The track before track `idx`, if there is one.
pub fn preceding_track(idx: usize) -> (r: Option<usize>)
    ensures
        r == if idx > 0 {
            Some((idx - 1) as usize)
        } else {
            None
        },
{
    if idx > 0 {
        Some(idx - 1)
    } else {
        None
    }
}

} // verus!
