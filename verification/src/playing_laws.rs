//! What playing a track comes to: which packets are drawn when, how the clock runs,
//! and which bytes and channels a track has.

use crate::cdg::{channels_of, scan, uses_cdeg, PacketView};
use crate::decoding_laws::{lemma_scan_empty, lemma_scan_in_order, undefined_item2};
use crate::playback::{default_channels_of, drawn, holds_cdeg, start_screen, track_bytes};
use crate::player::{clock, PlayState, Player};
use crate::renderer::{Composite, DisplayMode, Plane, WriteMode};
use crate::text::decimal2;
use crate::text_laws::{digits_value, lemma_decimal_value};
use vstd::prelude::*;

verus! {

// ── Drawing ─────────────────────────────────────────────────────────────────

/// Drawing one slot more applies the packet of that slot, and nothing where the slot
/// is empty. Drawing no slot leaves the screen as it is.
pub proof fn lemma_one_slot_more(
    c: Composite,
    slots: Seq<(u32, Option<PacketView>)>,
    from: int,
    to: int,
)
    requires
        0 <= from <= to < slots.len(),
    ensures
        drawn(c, slots, from, from) == c,
        slots[to].1 is None ==> drawn(c, slots, from, to + 1) == drawn(c, slots, from, to),
        slots[to].1 matches Some(packet) ==> drawn(c, slots, from, to + 1) == drawn(
            c,
            slots,
            from,
            to,
        ).after(packet),
{
}

/// The screen after some slots depends on those slots alone.
pub proof fn lemma_drawn_by_its_slots(
    c: Composite,
    a: Seq<(u32, Option<PacketView>)>,
    b: Seq<(u32, Option<PacketView>)>,
    from: int,
    to: int,
)
    requires
        0 <= from <= to,
        forall|i: int| from <= i < to ==> (#[trigger] a[i]).1 == b[i].1,
    ensures
        drawn(c, a, from, to) == drawn(c, b, from, to),
    decreases to - from,
{
    if from < to {
        lemma_drawn_by_its_slots(c, a, b, from, to - 1);
        assert(a[to - 1].1 == b[to - 1].1);
    }
}

/// A track starts on a blank screen, with the channels that were asked for: both
/// planes blank, the first of them written and shown, and a black CLUT.
pub proof fn lemma_start_screen(cdeg_enabled: bool, channels: Seq<bool>, i: int)
    requires
        0 <= i < 256,
    ensures
        ({
            let c = start_screen(cdeg_enabled, channels);
            &&& c.active_channels == channels
            &&& c.cdeg_enabled == cdeg_enabled
            &&& c.primary == Plane::blank() && c.secondary == Plane::blank()
            &&& c.write_mode == WriteMode::Primary && c.display_mode == DisplayMode::Primary
            &&& c.clut.len() == 256
            &&& c.clut[i].r == 0 && c.clut[i].g == 0 && c.clut[i].b == 0
        }),
{
}

// ── A track's packets ───────────────────────────────────────────────────────

/// A sector of a track has 96 bytes, and byte `i` of a track is byte `offset + i` of
/// the file. A track has the bytes of all its sectors, unless the file ends before.
pub proof fn lemma_track_bytes(raw: Seq<u8>, offset: int, sectors: int, i: int)
    requires
        0 <= offset,
        0 <= sectors,
    ensures
        offset + 96 * sectors <= raw.len() ==> track_bytes(raw, offset, sectors).len() == 96
            * sectors,
        offset <= raw.len() < offset + 96 * sectors ==> track_bytes(raw, offset, sectors).len()
            == raw.len() - offset,
        offset > raw.len() ==> track_bytes(raw, offset, sectors).len() == 0,
        0 <= i < track_bytes(raw, offset, sectors).len() ==> track_bytes(raw, offset, sectors)[i]
            == raw[offset + i],
{
}

/// The bytes of two tracks, one behind the other, are those of one long track.
pub proof fn lemma_tracks_in_a_row(raw: Seq<u8>, offset: int, a: int, b: int)
    requires
        0 <= offset,
        0 <= a,
        0 <= b,
    ensures
        track_bytes(raw, offset, a) + track_bytes(raw, offset + 96 * a, b) == track_bytes(
            raw,
            offset,
            a + b,
        ),
{
    assert(track_bytes(raw, offset, a) + track_bytes(raw, offset + 96 * a, b) =~= track_bytes(
        raw,
        offset,
        a + b,
    ));
}

/// A run of packets holds a CD+EG packet exactly if its last one is such a packet or
/// the run before it holds one.
pub proof fn lemma_holds_cdeg(
    slots: Seq<(u32, Option<PacketView>)>,
    slot: (u32, Option<PacketView>),
)
    ensures
        !holds_cdeg(seq![]),
        holds_cdeg(slots.push(slot)) <==> holds_cdeg(slots) || (slot.1 matches Some(packet)
            && packet is Item2),
{
    let more = slots.push(slot);
    if holds_cdeg(slots) {
        let k = choose|k: int|
            0 <= k < slots.len() && (#[trigger] slots[k]).1 matches Some(PacketView::Item2(..));
        assert(more[k] == slots[k]);
    }
    if slot.1 matches Some(PacketView::Item2(..)) {
        assert(more[slots.len() as int] == slot);
    }
    if holds_cdeg(more) {
        let k = choose|k: int|
            0 <= k < more.len() && (#[trigger] more[k]).1 matches Some(PacketView::Item2(..));
        if k < slots.len() {
            assert(slots[k] == more[k]);
        }
    }
}

/// Of the sixteen channels, the first is on when a disc is opened, the second exactly
/// if the disc uses both, and no other.
pub proof fn lemma_default_channels(present: Seq<bool>, ch: int)
    requires
        0 <= ch < 16,
    ensures
        default_channels_of(present).len() == 16,
        default_channels_of(present)[0],
        default_channels_of(present)[1] <==> present[0] && present[1],
        ch >= 2 ==> !default_channels_of(present)[ch],
{
}

// ── The clock ───────────────────────────────────────────────────────────────

/// The clock of a playing track runs with the time; that of any other stands. It
/// never shows less than nothing.
pub proof fn lemma_clock_runs(p: Player, now: u64, later: u64)
    requires
        p.wf(),
        now <= later,
    ensures
        p.state == PlayState::Playing && p.epoch <= now ==> p.running_at(now) == now - p.epoch
            && p.running_at(later) - p.running_at(now) == later - now,
        p.state != PlayState::Playing ==> p.running_at(later) == p.running_at(now),
        p.state != PlayState::Playing && p.epoch <= p.paused_at->Some_0 ==> p.running_at(now)
            == p.paused_at->Some_0 - p.epoch,
        p.state == PlayState::Playing && now <= p.epoch ==> p.running_at(now) == 0,
        0 <= p.running_at(now) <= p.running_at(later),
{
}

// ── Players ─────────────────────────────────────────────────────────────────

/// A player shows exactly what the packets up to its place draw on a blank screen, with
/// its settings. Its clock runs exactly while it plays.
pub proof fn lemma_player_shows(p: Player)
    requires
        p.wf(),
    ensures
        p.packet_idx <= p.slots().len(),
        p.screen@ == drawn(
            start_screen(p.screen@.cdeg_enabled, p.screen@.active_channels),
            p.slots(),
            0,
            p.packet_idx as int,
        ),
        p.state == PlayState::Playing <==> p.paused_at is None,
{
}

/// A track with graphics begins at its first packet, playing, on a blank screen, with
/// the clock at nothing. Its packets are read from its own bytes, but whether CD+EG
/// graphics are decoded, and which channels there are, follows from the whole disc.
pub proof fn lemma_begun(
    p: Player,
    raw: Seq<u8>,
    offset: int,
    sectors: int,
    cdeg_enabled: bool,
    channels: Seq<bool>,
    now: u64,
)
    requires
        p.begun(raw, offset, sectors, cdeg_enabled, channels, now),
    ensures
        p.state == PlayState::Playing && p.packet_idx == 0 && p.running_at(now) == 0,
        p.slots() == scan(track_bytes(raw, offset, sectors)),
        p.total_packets == p.slots().len(),
        p.screen@ == start_screen(cdeg_enabled && uses_cdeg(raw), channels),
        p.is_cdeg == uses_cdeg(raw),
        p.channels_present@ == channels_of(raw),
{
}

/// A track without an undefined CD+EG packet has four packets for each sector that the
/// file has in full.
pub proof fn lemma_track_length(raw: Seq<u8>, offset: int, sectors: int)
    requires
        0 <= offset,
        0 <= sectors,
        offset + 96 * sectors <= raw.len(),
        forall|k: int|
            0 <= k < 4 * sectors ==> !#[trigger] undefined_item2(
                track_bytes(raw, offset, sectors),
                k,
            ),
    ensures
        scan(track_bytes(raw, offset, sectors)).len() == 4 * sectors,
{
    let data = track_bytes(raw, offset, sectors);
    let n = scan(data).len() as int;
    if n == 0 {
        lemma_scan_empty(data);
        if sectors > 0 {
            assert(!undefined_item2(data, 0));
        }
    } else {
        lemma_scan_in_order(data, n - 1);
        if n < 4 * sectors {
            assert(!undefined_item2(data, n));
        }
    }
}

/// A track without graphics begins playing on a blank screen, with the clock at
/// nothing and no packets to draw.
pub proof fn lemma_begun_audio(
    p: Player,
    total_packets: usize,
    cdeg_enabled: bool,
    channels: Seq<bool>,
    now: u64,
    ch: int,
)
    requires
        p.begun_audio(total_packets, cdeg_enabled, channels, now),
        0 <= ch < 16,
    ensures
        p.state == PlayState::Playing && p.packet_idx == 0 && p.running_at(now) == 0,
        p.slots().len() == 0 && p.total_packets == total_packets,
        p.screen@ == start_screen(cdeg_enabled, channels),
        !p.is_cdeg && !p.channels_present@[ch],
{
}

/// When `due` packets are due, a playing track with graphics has drawn all of them and
/// no other, but for those that it had drawn already; it never goes back. It ends
/// exactly when its last packet is drawn, and its clock then stands at the track's
/// duration. A track that does not play does not move.
pub proof fn lemma_tick(before: Player, p: Player, due: int, total_duration: u64, ended: bool)
    requires
        before.wf(),
        before.packets@.len() == before.total_packets,
        before.epoch + total_duration <= u64::MAX,
        p.ticked(before, due, total_duration, ended),
    ensures
        before.state != PlayState::Playing ==> !ended && p == before,
        before.packet_idx <= p.packet_idx <= p.packets@.len(),
        p.packet_idx > before.packet_idx ==> p.packet_idx <= due,
        before.state == PlayState::Playing ==> p.packet_idx >= due || p.packet_idx
            == p.total_packets,
        before.state == PlayState::Playing ==> (ended <==> p.packet_idx == p.total_packets),
        ended ==> p.state == PlayState::Stopped && forall|now: u64| #[trigger]
            p.running_at(now) == total_duration,
        before.state == PlayState::Playing && !ended ==> p.state == PlayState::Playing && forall|
            now: u64,
        | #[trigger] p.running_at(now) == before.running_at(now),
        p.screen@.active_channels == before.screen@.active_channels,
        p.screen@.cdeg_enabled == before.screen@.cdeg_enabled,
{
}

/// How often the clock is looked at does not matter: two steps lead to where one
/// leads.
pub proof fn lemma_two_ticks(
    before: Player,
    mid: Player,
    end: Player,
    at_once: Player,
    first: int,
    second: int,
    total_duration: u64,
    ended: bool,
    ended_at_once: bool,
)
    requires
        before.wf(),
        first <= second,
        mid.ticked(before, first, total_duration, false),
        end.ticked(mid, second, total_duration, ended),
        at_once.ticked(before, second, total_duration, ended_at_once),
    ensures
        ended == ended_at_once,
        end.packet_idx == at_once.packet_idx,
        end.screen@ == at_once.screen@,
        end.state == at_once.state,
        end.paused_at == at_once.paused_at,
{
}

// ── Times as text ───────────────────────────────────────────────────────────

/// A time is written as minutes, a colon, and less than sixty seconds, which together
/// make up the time. Each has two digits at least, the seconds exactly two.
pub proof fn lemma_clock(minutes: nat, seconds: nat)
    requires
        seconds < 60,
    ensures
        clock(60 * minutes + seconds) == decimal2(minutes) + seq![':'] + decimal2(seconds),
        digits_value(decimal2(minutes)) == minutes,
        digits_value(decimal2(seconds)) == seconds,
        decimal2(minutes).len() >= 2,
        decimal2(seconds).len() == 2,
{
    reveal_strlit(":");
    assert(":"@ =~= seq![':']);
    let t = (60 * minutes + seconds) as nat;
    assert(t / 60 == minutes && t % 60 == seconds);
    lemma_decimal_value(minutes);
    lemma_decimal_value(seconds);
    lemma_decimal_value(seconds / 10);
}

} // verus!
