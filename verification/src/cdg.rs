//! CD+G / CD+EG subchannel packets and the scanner that reads them from a raw
//! `.cdg` byte slice.

use vstd::prelude::*;

verus! {

/// Size of one raw packet, of which 16 bytes are usable data. A disc carries
/// 300 of them per second (75 sectors per second, 4 packets per sector).
pub const PACKET_SIZE: usize = 24;

pub const PACKETS_PER_SECOND: u32 = 300;

/// Low six bits of the command byte of a standard CD+G packet.
pub const CDG_ITEM1: u8 = 0x09;

/// Low six bits of the command byte of a CD+EG extension packet.
pub const CDG_ITEM2: u8 = 0x0A;

// ── Instructions ────────────────────────────────────────────────────────────

/// Standard CD+G (item 1) instructions.
#[derive(Debug, Clone, Copy, PartialEq, Eq, Structural)]
pub enum Instruction {
    /// 1: fill the screen with a color index.
    MemoryPreset,
    /// 2: fill the border with a color index.
    BorderPreset,
    /// 6: paint a 6x12 tile.
    TileBlock,
    /// 20: scroll and fill with a color.
    ScrollPreset,
    /// 24: scroll and wrap.
    ScrollCopy,
    /// 28: define the transparent color (rarely used).
    DefineTransparent,
    /// 30: load palette entries 0-7.
    LoadColorTableLow,
    /// 31: load palette entries 8-15.
    LoadColorTableHigh,
    /// 38: paint a 6x12 tile in XOR mode.
    TileBlockXor,
}

/// CD+EG (item 2) instructions.
#[derive(Debug, Clone, Copy, PartialEq, Eq, Structural)]
pub enum CdegInstruction {
    /// 3: set the write and display mode registers.
    MemoryControl,
    /// 6: write a tile to the secondary plane.
    SetFont,
    /// 14: write a tile to the secondary plane in XOR mode.
    XorFont,
    /// 16-47: load the high 4 bits of 8 entries of the 256-entry CLUT.
    /// `start` is the first entry (a multiple of 8, 0-248).
    LoadClut256High { start: u8 },
    /// 48-63: load the low 2 bits of 16 entries of the 256-entry CLUT.
    /// `start` is the first entry (a multiple of 16, 0-240).
    LoadClut256Low { start: u8 },
}

/// The six data bits of a raw byte; the two parity bits above them are dropped.
pub open spec fn six_bits(b: u8) -> u8 {
    b % 64
}

/// The item 1 instruction that an instruction byte selects, if any.
pub open spec fn instruction_of(b: u8) -> Option<Instruction> {
    match six_bits(b) {
        1 => Some(Instruction::MemoryPreset),
        2 => Some(Instruction::BorderPreset),
        6 => Some(Instruction::TileBlock),
        20 => Some(Instruction::ScrollPreset),
        24 => Some(Instruction::ScrollCopy),
        28 => Some(Instruction::DefineTransparent),
        30 => Some(Instruction::LoadColorTableLow),
        31 => Some(Instruction::LoadColorTableHigh),
        38 => Some(Instruction::TileBlockXor),
        _ => None,
    }
}

/// The item 2 instruction that an instruction byte selects, if any.
pub open spec fn cdeg_instruction_of(b: u8) -> Option<CdegInstruction> {
    let code = six_bits(b);
    if code == 3 {
        Some(CdegInstruction::MemoryControl)
    } else if code == 6 {
        Some(CdegInstruction::SetFont)
    } else if code == 14 {
        Some(CdegInstruction::XorFont)
    } else if 16 <= code <= 47 {
        Some(CdegInstruction::LoadClut256High { start: ((code - 16) * 8) as u8 })
    } else if 48 <= code {
        Some(CdegInstruction::LoadClut256Low { start: ((code - 48) * 16) as u8 })
    } else {
        None
    }
}

proof fn lemma_six_bits(b: u8)
    ensures
        b & 0x3F == six_bits(b),
{
    assert(b & 0x3F == b % 64) by (bit_vector);
}

impl Instruction {
    /// The instruction selected by the low six bits of `b`.
    pub fn from_byte(b: u8) -> (r: Option<Self>)
        ensures
            r == instruction_of(b),
    {
        proof {
            lemma_six_bits(b);
        }
        match b & 0x3F {
            1 => Some(Self::MemoryPreset),
            2 => Some(Self::BorderPreset),
            6 => Some(Self::TileBlock),
            20 => Some(Self::ScrollPreset),
            24 => Some(Self::ScrollCopy),
            28 => Some(Self::DefineTransparent),
            30 => Some(Self::LoadColorTableLow),
            31 => Some(Self::LoadColorTableHigh),
            38 => Some(Self::TileBlockXor),
            _ => None,
        }
    }
}

impl CdegInstruction {
    /// The instruction selected by the low six bits of `b`.
    pub fn from_byte(b: u8) -> (r: Option<Self>)
        ensures
            r == cdeg_instruction_of(b),
    {
        proof {
            lemma_six_bits(b);
        }
        let code: u8 = b & 0x3F;
        if code == 3 {
            Some(Self::MemoryControl)
        } else if code == 6 {
            Some(Self::SetFont)
        } else if code == 14 {
            Some(Self::XorFont)
        } else if 16 <= code && code <= 47 {
            Some(Self::LoadClut256High { start: (code - 16) * 8 })
        } else if 48 <= code {
            Some(Self::LoadClut256Low { start: (code - 48) * 16 })
        } else {
            None
        }
    }
}

// ── Packets ─────────────────────────────────────────────────────────────────

/// A parsed CD+G (item 1) packet.
#[derive(Debug, Clone)]
pub struct Packet {
    pub instruction: Instruction,
    /// The 16 data bytes, parity bits stripped.
    pub data: [u8; 16],
}

/// A parsed CD+EG (item 2) packet.
#[derive(Debug, Clone)]
pub struct CdegPacket {
    pub instruction: CdegInstruction,
    /// The 16 data bytes, parity bits stripped.
    pub data: [u8; 16],
}

/// Either a standard CD+G packet or a CD+EG extension packet.
#[derive(Debug, Clone)]
pub enum AnyPacket {
    Item1(Packet),
    Item2(CdegPacket),
}

/// Mathematical content of an [`AnyPacket`].
#[verifier::ext_equal]
pub enum PacketView {
    Item1(Instruction, Seq<u8>),
    Item2(CdegInstruction, Seq<u8>),
}

impl View for AnyPacket {
    type V = PacketView;

    open spec fn view(&self) -> PacketView {
        match self {
            AnyPacket::Item1(p) => PacketView::Item1(p.instruction, p.data@),
            AnyPacket::Item2(p) => PacketView::Item2(p.instruction, p.data@),
        }
    }
}

/// The contents of an optional packet.
pub open spec fn slot_view(p: Option<AnyPacket>) -> Option<PacketView> {
    match p {
        Some(p) => Some(p@),
        None => None,
    }
}

/// The contents of a list of numbered slots, as a scan produces it.
pub open spec fn slots_view(slots: Seq<(u32, Option<AnyPacket>)>) -> Seq<(
    u32,
    Option<PacketView>,
)> {
    slots.map_values(|s: (u32, Option<AnyPacket>)| (s.0, slot_view(s.1)))
}

/// The 16 data bytes of a raw packet: bytes 4 to 19, parity bits stripped.
pub open spec fn data_of(raw: Seq<u8>) -> Seq<u8> {
    Seq::new(16, |i: int| six_bits(raw[4 + i]))
}

/// What a raw packet holds. Packets of other subchannel users, and item 1
/// packets with an unassigned instruction, hold nothing.
pub open spec fn slot_of(raw: Seq<u8>) -> Option<PacketView> {
    if six_bits(raw[0]) == CDG_ITEM1 {
        match instruction_of(raw[1]) {
            Some(instruction) => Some(PacketView::Item1(instruction, data_of(raw))),
            None => None,
        }
    } else if six_bits(raw[0]) == CDG_ITEM2 {
        match cdeg_instruction_of(raw[1]) {
            Some(instruction) => Some(PacketView::Item2(instruction, data_of(raw))),
            None => None,
        }
    } else {
        None
    }
}

/// Whether a raw packet ends the scan it occurs in: an item 2 packet with an
/// unassigned instruction does.
pub open spec fn ends_scan(raw: Seq<u8>) -> bool {
    six_bits(raw[0]) == CDG_ITEM2 && cdeg_instruction_of(raw[1]) is None
}

/// Copies the data bytes out of a raw packet.
fn strip_parity(raw: &[u8; PACKET_SIZE]) -> (data: [u8; 16])
    ensures
        data@ == data_of(raw@),
{
    let mut data: [u8; 16] = [0u8; 16];
    let mut i: usize = 0;
    while i < 16
        invariant
            i <= 16,
            forall|j: int| 0 <= j < i ==> data@[j] == six_bits(raw@[4 + j]),
        decreases 16 - i,
    {
        proof {
            lemma_six_bits(raw@[4 + i]);
        }
        data[i] = raw[4 + i] & 0x3F;
        i += 1;
    }
    assert(data@ =~= data_of(raw@));
    data
}

impl Packet {
    /// Parses a raw item 1 packet; `None` if its instruction is unassigned.
    pub fn parse(raw: &[u8; PACKET_SIZE]) -> (r: Option<Self>)
        ensures
            match r {
                Some(p) => instruction_of(raw@[1]) == Some(p.instruction) && p.data@ == data_of(
                    raw@,
                ),
                None => instruction_of(raw@[1]) is None,
            },
    {
        match Instruction::from_byte(raw[1]) {
            Some(instruction) => Some(Packet { instruction, data: strip_parity(raw) }),
            None => None,
        }
    }
}

/// The channel that a tile packet addresses: bits 5-4 of the first data byte
/// are its high two bits, bits 5-4 of the second its low two bits.
pub open spec fn channel_of(data: Seq<u8>) -> int {
    (data[0] / 16) % 4 * 4 + (data[1] / 16) % 4
}

/// Extracts the 4-bit channel number from a tile packet's first two data bytes.
pub fn tile_channel(data: &[u8; 16]) -> (channel: usize)
    ensures
        channel == channel_of(data@),
        channel < 16,
{
    let a: u8 = data[0];
    let b: u8 = data[1];
    assert(((a & 0x30) >> 2) | ((b & 0x30) >> 4) == (a / 16) % 4 * 4 + (b / 16) % 4)
        by (bit_vector);
    (((a & 0x30) >> 2) | ((b & 0x30) >> 4)) as usize
}

// ── Scanning ────────────────────────────────────────────────────────────────

/// The `k`-th raw packet of a byte slice.
pub open spec fn raw_packet(data: Seq<u8>, k: int) -> Seq<u8> {
    data.subrange(k * PACKET_SIZE, (k + 1) * PACKET_SIZE)
}

/// Whether a scan stops at packet `k`: the slice holds no whole packet there,
/// or the packet ends the scan.
pub open spec fn scan_stops(data: Seq<u8>, k: int) -> bool {
    (k + 1) * PACKET_SIZE > data.len() || ends_scan(raw_packet(data, k))
}

/// How many packets a scan yields from packet `k` on.
pub open spec fn scan_len(data: Seq<u8>, k: nat) -> nat
    decreases data.len() - k * PACKET_SIZE,
{
    if scan_stops(data, k as int) {
        0
    } else {
        1 + scan_len(data, k + 1)
    }
}

/// The number that a scan gives to packet `k`.
pub open spec fn packet_number(k: int) -> u32 {
    (k % 0x1_0000_0000) as u32
}

/// The numbered slots that a scan from packet `k` on yields: every packet up to
/// the first one at which the scan stops.
pub open spec fn scan_from(data: Seq<u8>, k: nat) -> Seq<(u32, Option<PacketView>)> {
    Seq::new(
        scan_len(data, k),
        |i: int| (packet_number(k + i), slot_of(raw_packet(data, k + i))),
    )
}

/// The numbered slots that a scan of a whole byte slice yields.
pub open spec fn scan(data: Seq<u8>) -> Seq<(u32, Option<PacketView>)> {
    scan_from(data, 0)
}

/// No packet before the end of a scan stops it, and the one at the end does.
pub proof fn lemma_scan_len(data: Seq<u8>, k: nat)
    ensures
        forall|j: int|
            k <= j < k + scan_len(data, k) ==> !#[trigger] scan_stops(data, j),
        scan_stops(data, (k + scan_len(data, k)) as int),
    decreases data.len() - k * PACKET_SIZE,
{
    if !scan_stops(data, k as int) {
        lemma_scan_len(data, k + 1);
    }
}

/// Reads packets one after the other from a raw `.cdg` byte slice.
pub struct PacketIter<'a> {
    data: &'a [u8],
    pos: usize,
}

impl<'a> PacketIter<'a> {
    #[verifier::type_invariant]
    closed spec fn inv(self) -> bool {
        self.pos <= self.data@.len() && self.pos % PACKET_SIZE == 0
    }

    /// The bytes being read.
    pub closed spec fn bytes(self) -> Seq<u8> {
        self.data@
    }

    /// How many raw packets have been read so far.
    pub closed spec fn index(self) -> nat {
        (self.pos / PACKET_SIZE) as nat
    }

    pub fn new(data: &'a [u8]) -> (r: Self)
        ensures
            r.bytes() == data@,
            r.index() == 0,
    {
        PacketIter { data, pos: 0 }
    }

    /// Reads the next packet: its number and what it holds. `None` when no
    /// whole packet is left, and also for an item 2 packet with an unassigned
    /// instruction, which is skipped, so that a later call reads on behind it.
    pub fn next(&mut self) -> (r: Option<(u32, Option<AnyPacket>)>)
        ensures
            final(self).bytes() == old(self).bytes(),
            final(self).index() == old(self).index() + if (old(self).index() + 1) * PACKET_SIZE
                > old(self).bytes().len() {
                0int
            } else {
                1
            },
            r is None <==> scan_stops(old(self).bytes(), old(self).index() as int),
            r matches Some((number, packet)) ==> {
                &&& number == packet_number(old(self).index() as int)
                &&& slot_view(packet) == slot_of(
                    raw_packet(old(self).bytes(), old(self).index() as int),
                )
            },
    {
        proof {
            use_type_invariant(&*self);
        }
        let start: usize = self.pos;
        let ghost k = (start / PACKET_SIZE) as int;
        assert(start == k * PACKET_SIZE);
        if self.data.len() - start < PACKET_SIZE {
            return None;
        }
        let mut raw: [u8; PACKET_SIZE] = [0u8; PACKET_SIZE];
        let mut i: usize = 0;
        let data = self.data;
        while i < PACKET_SIZE
            invariant
                i <= PACKET_SIZE,
                start + PACKET_SIZE <= data.len(),
                forall|j: int| 0 <= j < i ==> raw@[j] == data@[start + j],
            decreases PACKET_SIZE - i,
        {
            raw[i] = data[start + i];
            i += 1;
        }
        assert(raw@ =~= raw_packet(data@, k));
        let count: u64 = (start / PACKET_SIZE) as u64;
        assert(count as u32 == count % 0x1_0000_0000) by (bit_vector);
        let number: u32 = #[verifier::truncate] (count as u32);
        self.pos = start + PACKET_SIZE;

        let cmd: u8 = raw[0] & 0x3F;
        proof {
            lemma_six_bits(raw@[0]);
        }
        let packet: Option<AnyPacket> = if cmd == CDG_ITEM1 {
            match Packet::parse(&raw) {
                Some(p) => Some(AnyPacket::Item1(p)),
                None => None,
            }
        } else if cmd == CDG_ITEM2 {
            match CdegInstruction::from_byte(raw[1]) {
                Some(instruction) => Some(
                    AnyPacket::Item2(CdegPacket { instruction, data: strip_parity(&raw) }),
                ),
                None => {
                    return None;
                },
            }
        } else {
            None
        };
        Some((number, packet))
    }

    /// Reads on until [`PacketIter::next`] returns `None`, and returns all that
    /// it gave.
    pub fn collect(self) -> (r: Vec<(u32, Option<AnyPacket>)>)
        ensures
            slots_view(r@) == scan_from(self.bytes(), self.index()),
    {
        let mut iter = self;
        let ghost data = self.bytes();
        let ghost first = self.index();
        let mut out: Vec<(u32, Option<AnyPacket>)> = Vec::new();
        loop
            invariant_except_break
                iter.bytes() == data,
                iter.index() == first + out@.len(),
            invariant
                scan_len(data, first) == out@.len() + scan_len(data, first + out@.len()),
                forall|j: int|
                    0 <= j < out@.len() ==> (#[trigger] slots_view(out@)[j]) == (
                        packet_number(first + j),
                        slot_of(raw_packet(data, first + j)),
                    ),
            ensures
                slots_view(out@) == scan_from(data, first),
            decreases data.len() - (first + out@.len()) * PACKET_SIZE,
        {
            match iter.next() {
                None => {
                    assert(slots_view(out@) =~= scan_from(data, first));
                    break;
                },
                Some(slot) => {
                    let ghost before = out@;
                    out.push(slot);
                    assert forall|j: int| 0 <= j < out@.len() implies (#[trigger] slots_view(
                        out@,
                    )[j]) == (
                        packet_number(first + j),
                        slot_of(raw_packet(data, first + j)),
                    ) by {
                        if j < before.len() {
                            assert(slots_view(before)[j] == slots_view(out@)[j]);
                        }
                    }
                },
            }
        }
        out
    }
}

/// Whether a packet paints a tile on channel `ch`.
pub open spec fn paints_channel(packet: Option<PacketView>, ch: int) -> bool {
    match packet {
        Some(PacketView::Item1(instruction, data)) => {
            &&& instruction == Instruction::TileBlock || instruction == Instruction::TileBlockXor
            &&& channel_of(data) == ch
        },
        Some(PacketView::Item2(instruction, data)) => {
            &&& instruction == CdegInstruction::SetFont || instruction == CdegInstruction::XorFont
            &&& channel_of(data) == ch
        },
        None => false,
    }
}

/// What packet `k` of a byte slice holds, whether or not a scan comes that far.
pub open spec fn slot_at(data: Seq<u8>, k: int) -> Option<PacketView> {
    slot_of(raw_packet(data, k))
}

/// Whether one of the first `n` packets of a byte slice paints a tile on channel
/// `ch`.
pub open spec fn painted_before(data: Seq<u8>, n: int, ch: int) -> bool {
    exists|k: int| 0 <= k < n && paints_channel(#[trigger] slot_at(data, k), ch)
}

/// Whether any whole packet of a byte slice paints a tile on channel `ch`.
pub open spec fn channel_used(data: Seq<u8>, ch: int) -> bool {
    exists|k: int|
        0 <= k && (k + 1) * PACKET_SIZE <= data.len() && paints_channel(
            #[trigger] slot_at(data, k),
            ch,
        )
}

/// Which of the 16 tile channels the packets of a byte slice paint.
pub open spec fn channels_of(data: Seq<u8>) -> Seq<bool> {
    Seq::new(16, |ch: int| channel_used(data, ch))
}

proof fn lemma_painted_before(data: Seq<u8>, n: int, ch: int)
    requires
        0 <= n,
    ensures
        painted_before(data, n + 1, ch) <==> painted_before(data, n, ch) || paints_channel(
            slot_at(data, n),
            ch,
        ),
{
    if painted_before(data, n, ch) {
        let k = choose|k: int| 0 <= k < n && paints_channel(#[trigger] slot_at(data, k), ch);
        assert(paints_channel(slot_at(data, k), ch));
    }
    if paints_channel(slot_at(data, n), ch) {
        assert(painted_before(data, n + 1, ch));
    }
}

/// Returns a 16-element mask of the channels that at least one tile packet of a
/// raw byte slice is addressed to. Every whole packet counts, also behind one at
/// which a scan stops.
pub fn channels_present(data: &[u8]) -> (present: [bool; 16])
    ensures
        forall|ch: int|
            0 <= ch < 16 ==> (#[trigger] present@[ch] <==> channel_used(data@, ch)),
        present@ == channels_of(data@),
{
    let mut present: [bool; 16] = [false; 16];
    let mut iter = PacketIter::new(data);
    let count: usize = data.len() / PACKET_SIZE;
    let mut n: usize = 0;
    while n < count
        invariant
            n <= count,
            count == data@.len() as int / PACKET_SIZE as int,
            iter.bytes() == data@,
            iter.index() == n,
            forall|ch: int|
                0 <= ch < 16 ==> (#[trigger] present@[ch] <==> painted_before(
                    data@,
                    n as int,
                    ch,
                )),
        decreases count - n,
    {
        let ghost slot = slot_at(data@, n as int);
        assert((n + 1) * PACKET_SIZE <= data@.len());
        match iter.next() {
            None => {
                assert(slot is None);
            },
            Some((_, packet)) => {
                assert(slot_view(packet) == slot);
                let painted: Option<usize> = painted_channel(&packet);
                if let Some(ch) = painted {
                    present[ch] = true;
                }
            },
        }
        proof {
            assert forall|ch: int| 0 <= ch < 16 implies (#[trigger] present@[ch]
                <==> painted_before(data@, n + 1, ch)) by {
                lemma_painted_before(data@, n as int, ch);
            }
        }
        n += 1;
    }
    assert forall|ch: int| 0 <= ch < 16 implies (#[trigger] present@[ch] <==> channel_used(
        data@,
        ch,
    )) by {
        if painted_before(data@, count as int, ch) {
            let k = choose|k: int|
                0 <= k < count && paints_channel(#[trigger] slot_at(data@, k), ch);
            assert((k + 1) * PACKET_SIZE <= data@.len());
        }
        if channel_used(data@, ch) {
            let k = choose|k: int|
                0 <= k && (k + 1) * PACKET_SIZE <= data@.len() && paints_channel(
                    #[trigger] slot_at(data@, k),
                    ch,
                );
            assert(k < count);
        }
    }
    assert(present@ =~= channels_of(data@));
    present
}

/// Whether any whole packet of a byte slice is a CD+EG packet.
pub open spec fn uses_cdeg(data: Seq<u8>) -> bool {
    exists|k: int|
        0 <= k && (k + 1) * PACKET_SIZE <= data.len() && #[trigger] slot_at(data, k) matches Some(
            PacketView::Item2(..),
        )
}

/// Whether any whole packet of a raw byte slice is a CD+EG packet, also behind one
/// at which a scan stops.
pub fn cdeg_present(data: &[u8]) -> (r: bool)
    ensures
        r == uses_cdeg(data@),
{
    let mut iter = PacketIter::new(data);
    let count: usize = data.len() / PACKET_SIZE;
    let mut n: usize = 0;
    while n < count
        invariant
            n <= count,
            count == data@.len() as int / PACKET_SIZE as int,
            iter.bytes() == data@,
            iter.index() == n,
            forall|k: int|
                0 <= k < n ==> !(#[trigger] slot_at(data@, k) matches Some(PacketView::Item2(..))),
        decreases count - n,
    {
        let ghost slot = slot_at(data@, n as int);
        assert((n + 1) * PACKET_SIZE <= data@.len());
        if let Some((_, packet)) = iter.next() {
            assert(slot_view(packet) == slot);
            if let Some(AnyPacket::Item2(_)) = &packet {
                return true;
            }
        } else {
            assert(slot is None);
        }
        n += 1;
    }
    false
}

/// The channel that a packet paints a tile on, if it paints one.
fn painted_channel(packet: &Option<AnyPacket>) -> (r: Option<usize>)
    ensures
        r matches Some(ch) ==> ch < 16,
        forall|ch: int|
            paints_channel(slot_view(*packet), ch) <==> r == Some(ch as usize) && 0 <= ch < 16,
{
    match packet {
        Some(AnyPacket::Item1(p)) => {
            if p.instruction == Instruction::TileBlock || p.instruction
                == Instruction::TileBlockXor {
                Some(tile_channel(&p.data))
            } else {
                None
            }
        },
        Some(AnyPacket::Item2(p)) => {
            if p.instruction == CdegInstruction::SetFont || p.instruction
                == CdegInstruction::XorFont {
                Some(tile_channel(&p.data))
            } else {
                None
            }
        },
        None => None,
    }
}

// ── Laws ────────────────────────────────────────────────────────────────────

/// A packet of a scan carries 16 data bytes of six bits each.
pub open spec fn packet_wf(packet: PacketView) -> bool {
    match packet {
        PacketView::Item1(_, data) => data.len() == 16 && forall|i: int|
            0 <= i < 16 ==> #[trigger] data[i] < 64,
        PacketView::Item2(_, data) => data.len() == 16 && forall|i: int|
            0 <= i < 16 ==> #[trigger] data[i] < 64,
    }
}

/// Every packet of a scan has its parity bits stripped.
pub proof fn lemma_scan_strips_parity(data: Seq<u8>, k: int)
    requires
        0 <= k < scan(data).len(),
    ensures
        scan(data)[k].1 matches Some(packet) ==> packet_wf(packet),
{
}

/// Of a raw packet only the command, the instruction and the data bytes matter, and
/// of those not the parity bits.
pub proof fn lemma_parity_ignored(a: Seq<u8>, b: Seq<u8>)
    requires
        a.len() == PACKET_SIZE,
        b.len() == PACKET_SIZE,
        forall|i: int|
            i == 0 || i == 1 || 4 <= i < 20 ==> six_bits(#[trigger] a[i]) == six_bits(b[i]),
    ensures
        slot_of(a) == slot_of(b),
        ends_scan(a) == ends_scan(b),
{
    assert(data_of(a) =~= data_of(b));
}

/// A CLUT load starts at a multiple of the number of entries that it loads, and
/// all of them exist.
pub proof fn lemma_clut_start(b: u8)
    ensures
        cdeg_instruction_of(b) matches Some(CdegInstruction::LoadClut256High { start }) ==> start % 8
            == 0 && start <= 248,
        cdeg_instruction_of(b) matches Some(CdegInstruction::LoadClut256Low { start }) ==> start % 16
            == 0 && start <= 240,
{
}

/// Packets are numbered consecutively from 0.
pub proof fn lemma_scan_numbers(data: Seq<u8>, k: int)
    requires
        0 <= k < scan(data).len(),
        k <= u32::MAX,
    ensures
        scan(data)[k].0 == k,
{
}

/// Bytes behind the last whole packet, and whatever follows a packet that ends
/// the scan, do not change what came before: a longer slice yields the same
/// slots first.
pub proof fn lemma_scan_extends(data: Seq<u8>, more: Seq<u8>)
    ensures
        scan(data).is_prefix_of(scan(data + more)),
{
    lemma_scan_len(data, 0);
    lemma_scan_len(data + more, 0);
    let n = scan_len(data, 0) as int;
    assert forall|j: int| 0 <= j < n implies raw_packet(data, j) == raw_packet(
        data + more,
        j,
    ) && !#[trigger] scan_stops(data + more, j) by {
        assert(!scan_stops(data, j));
        assert(raw_packet(data, j) =~= raw_packet(data + more, j));
    }
    assert(n <= scan_len(data + more, 0)) by {
        if scan_len(data + more, 0) < n {
            assert(!scan_stops(data + more, scan_len(data + more, 0) as int));
        }
    }
    assert forall|j: int| 0 <= j < n implies scan(data)[j] == scan(data + more)[j] by {
        assert(!scan_stops(data + more, j));
    }
    assert(scan(data) =~= scan(data + more).subrange(0, n));
}

} // verus!
