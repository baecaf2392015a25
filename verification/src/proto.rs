//! The wire protocol spoken over the daemon's local socket.
//!
//! A frame is `size (u32, big-endian) ++ kind (u16, big-endian) ++ payload`,
//! where `size` counts the whole frame, header included. The minimum frame is
//! the bare 6-byte header. Three kinds are understood; the payload of the two
//! process-directed kinds is a 4-byte big-endian process id.

use vstd::prelude::*;

verus! {

/// Length in bytes of the frame header (and of the smallest valid frame).
pub const MIN_PACKET_SIZE: usize = 6;

/// Frame kind: start optimizing the process named in the payload.
pub const K_OPTIMIZE_PROCESS: u16 = 0x2;

/// Frame kind: release the process named in the payload.
pub const K_RESET_PROCESS: u16 = 0x4;

/// Frame kind: release every tracked process and revert system state.
pub const K_RESET_ALL: u16 = 0x6;

/// Name of the daemon's socket file, created under the temporary directory.
pub const UDS_FILENAME: &'static str = "gaimoded_sock";

/// A request for the optimization engine, as decoded from one frame.
#[derive(Clone, Copy, Debug, PartialEq, Eq)]
pub enum Commands {
    OptimizeProcess(i32),
    ResetProcess(i32),
    ResetAll,
}

/// One request frame: the header fields plus the raw payload bytes.
#[derive(Debug)]
pub struct Gaiproto {
    pub size: u32,
    pub kind: u16,
    pub payload: Vec<u8>,
}

/// The mathematical content of a frame.
#[verifier::ext_equal]
pub struct FrameModel {
    pub size: u32,
    pub kind: u16,
    pub payload: Seq<u8>,
}

impl View for Gaiproto {
    type V = FrameModel;

    open spec fn view(&self) -> FrameModel {
        FrameModel { size: self.size, kind: self.kind, payload: self.payload@ }
    }
}

/// The two bytes of `x`, most significant first.
pub open spec fn spec_u16_to_be_bytes(x: u16) -> Seq<u8> {
    seq![((x >> 8) & 0xff) as u8, (x & 0xff) as u8]
}

/// The value read from two bytes, most significant first.
pub open spec fn spec_u16_from_be_bytes(s: Seq<u8>) -> u16
    recommends
        s.len() == 2,
{
    (((s[0] as u16) << 8) | (s[1] as u16)) as u16
}

/// The four bytes of `x`, most significant first.
pub open spec fn spec_u32_to_be_bytes(x: u32) -> Seq<u8> {
    seq![
        ((x >> 24) & 0xff) as u8,
        ((x >> 16) & 0xff) as u8,
        ((x >> 8) & 0xff) as u8,
        (x & 0xff) as u8,
    ]
}

/// The value read from four bytes, most significant first.
pub open spec fn spec_u32_from_be_bytes(s: Seq<u8>) -> u32
    recommends
        s.len() == 4,
{
    (((s[0] as u32) << 24) | ((s[1] as u32) << 16) | ((s[2] as u32) << 8) | (s[3] as u32)) as u32
}

/// A process id read from four big-endian bytes (two's complement).
pub open spec fn spec_i32_from_be_bytes(s: Seq<u8>) -> i32
    recommends
        s.len() == 4,
{
    spec_u32_from_be_bytes(s) as i32
}

pub proof fn lemma_u16_be_round_trip(x: u16)
    ensures
        spec_u16_from_be_bytes(spec_u16_to_be_bytes(x)) == x,
{
    assert(((((((x >> 8) & 0xff) as u8) as u16) << 8) | (((x & 0xff) as u8) as u16)) as u16 == x)
        by (bit_vector);
}

pub proof fn lemma_u32_be_round_trip(x: u32)
    ensures
        spec_u32_from_be_bytes(spec_u32_to_be_bytes(x)) == x,
{
    assert((((((x >> 24) & 0xff) as u8) as u32) << 24 | ((((x >> 16) & 0xff) as u8) as u32) << 16
        | ((((x >> 8) & 0xff) as u8) as u32) << 8 | (((x & 0xff) as u8) as u32)) as u32 == x)
        by (bit_vector);
}

/// The bytes of `f` on the wire: size, kind, payload.
pub open spec fn spec_encode(f: FrameModel) -> Seq<u8> {
    spec_u32_to_be_bytes(f.size) + spec_u16_to_be_bytes(f.kind) + f.payload
}

/// The frame read back from `b`, if `b` starts with a well-formed frame:
/// at least a full header, a size of at least the header length, and a size
/// no larger than the bytes at hand.
pub open spec fn spec_decode(b: Seq<u8>) -> Option<FrameModel> {
    if b.len() < 6 {
        None
    } else {
        let size = spec_u32_from_be_bytes(b.subrange(0, 4));
        let kind = spec_u16_from_be_bytes(b.subrange(4, 6));
        if size < 6 || size > b.len() {
            None
        } else {
            Some(FrameModel { size, kind, payload: b.subrange(6, size as int) })
        }
    }
}

/// The command a frame carries: the process-directed kinds need an exactly
/// 4-byte payload; a reset-all needs none; any other kind is dropped.
pub open spec fn spec_command_of(f: FrameModel) -> Option<Commands> {
    if f.kind == K_OPTIMIZE_PROCESS {
        if f.payload.len() == 4 {
            Some(Commands::OptimizeProcess(spec_i32_from_be_bytes(f.payload)))
        } else {
            None
        }
    } else if f.kind == K_RESET_PROCESS {
        if f.payload.len() == 4 {
            Some(Commands::ResetProcess(spec_i32_from_be_bytes(f.payload)))
        } else {
            None
        }
    } else if f.kind == K_RESET_ALL {
        Some(Commands::ResetAll)
    } else {
        None
    }
}

impl Gaiproto {
    pub fn new(size: u32, kind: u16, payload: Vec<u8>) -> (r: Gaiproto)
        ensures
            r@ == (FrameModel { size, kind, payload: payload@ }),
    {
        Gaiproto { size, kind, payload }
    }

    /// Serializes the frame: the result is the exact wire form of `self`,
    /// header first, payload after.
    pub fn convert_to_bytes(self) -> (r: Vec<u8>)
        ensures
            r@ == spec_encode(self@),
            r@.len() == 6 + self.payload@.len(),
    {
        let mut res: Vec<u8> = Vec::new();
        res.push(((self.size >> 24) & 0xff) as u8);
        res.push(((self.size >> 16) & 0xff) as u8);
        res.push(((self.size >> 8) & 0xff) as u8);
        res.push((self.size & 0xff) as u8);
        res.push(((self.kind >> 8) & 0xff) as u8);
        res.push((self.kind & 0xff) as u8);
        let ghost header = res@;
        proof {
            assert(header =~= spec_u32_to_be_bytes(self.size) + spec_u16_to_be_bytes(self.kind));
        }
        let mut i: usize = 0;
        while i < self.payload.len()
            invariant
                i <= self.payload.len(),
                res@ == header + self.payload@.subrange(0, i as int),
            decreases self.payload.len() - i,
        {
            res.push(self.payload[i]);
            proof {
                assert(self.payload@.subrange(0, i + 1) =~= self.payload@.subrange(0, i as int)
                    .push(self.payload@[i as int]));
            }
            i = i + 1;
        }
        proof {
            assert(self.payload@.subrange(0, self.payload@.len() as int) =~= self.payload@);
            assert(res@ =~= spec_encode(self@));
        }
        res
    }

    /// Deserializes a well-formed frame; the caller has checked the bytes.
    pub fn from_bytes(bytes: Vec<u8>) -> (r: Gaiproto)
        requires
            spec_decode(bytes@) is Some,
        ensures
            spec_decode(bytes@) == Some(r@),
    {
        decode_frame(&bytes).unwrap()
    }
}

/// Reads one frame from the head of `bytes`, or `None` when no well-formed
/// frame is there (too short, size below the header length, or size past the
/// end of the bytes).
pub fn decode_frame(bytes: &Vec<u8>) -> (r: Option<Gaiproto>)
    ensures
        match r {
            Some(g) => spec_decode(bytes@) == Some(g@),
            None => spec_decode(bytes@) is None,
        },
{
    if bytes.len() < 6 {
        return None;
    }
    let size: u32 = ((bytes[0] as u32) << 24) | ((bytes[1] as u32) << 16) | ((bytes[2] as u32)
        << 8) | (bytes[3] as u32);
    let kind: u16 = ((bytes[4] as u16) << 8) | (bytes[5] as u16);
    proof {
        assert(bytes@.subrange(0, 4) =~= seq![bytes@[0], bytes@[1], bytes@[2], bytes@[3]]);
        assert(bytes@.subrange(4, 6) =~= seq![bytes@[4], bytes@[5]]);
        assert(size == spec_u32_from_be_bytes(bytes@.subrange(0, 4)));
        assert(kind == spec_u16_from_be_bytes(bytes@.subrange(4, 6)));
    }
    if size < 6 || size as usize > bytes.len() {
        return None;
    }
    let end: usize = size as usize;
    let mut payload: Vec<u8> = Vec::new();
    let mut i: usize = 6;
    while i < end
        invariant
            6 <= i <= end,
            end <= bytes@.len(),
            payload@ == bytes@.subrange(6, i as int),
        decreases end - i,
    {
        payload.push(bytes[i]);
        proof {
            assert(bytes@.subrange(6, i + 1) =~= bytes@.subrange(6, i as int).push(
                bytes@[i as int]));
        }
        i = i + 1;
    }
    let g = Gaiproto { size, kind, payload };
    proof {
        assert(spec_decode(bytes@) == Some(g@));
    }
    Some(g)
}

/// Maps a decoded frame to the command it requests, if any.
pub fn frame_to_command(p: &Gaiproto) -> (r: Option<Commands>)
    ensures
        r == spec_command_of(p@),
{
    if p.kind == K_OPTIMIZE_PROCESS || p.kind == K_RESET_PROCESS {
        if p.payload.len() != 4 {
            return None;
        }
        let raw: u32 = ((p.payload[0] as u32) << 24) | ((p.payload[1] as u32) << 16)
            | ((p.payload[2] as u32) << 8) | (p.payload[3] as u32);
        let pid: i32 = #[verifier::truncate] (raw as i32);
        proof {
            assert(p.payload@ =~= seq![p.payload@[0], p.payload@[1], p.payload@[2], p.payload@[3]]);
            assert(raw == spec_u32_from_be_bytes(p.payload@));
        }
        if p.kind == K_OPTIMIZE_PROCESS {
            Some(Commands::OptimizeProcess(pid))
        } else {
            Some(Commands::ResetProcess(pid))
        }
    } else if p.kind == K_RESET_ALL {
        Some(Commands::ResetAll)
    } else {
        None
    }
}

/// Builds the frame that asks the daemon to optimize `pid`.
pub fn build_optimize_frame(pid: i32) -> (r: Gaiproto)
    ensures
        r@.size == 10,
        r@.kind == K_OPTIMIZE_PROCESS,
        r@.payload == spec_u32_to_be_bytes(pid as u32),
        spec_command_of(r@) == Some(Commands::OptimizeProcess(pid)),
{
    let payload = pid_payload(pid);
    Gaiproto { size: 10, kind: K_OPTIMIZE_PROCESS, payload }
}

/// Builds the frame that asks the daemon to release `pid`.
pub fn build_reset_process_frame(pid: i32) -> (r: Gaiproto)
    ensures
        r@.size == 10,
        r@.kind == K_RESET_PROCESS,
        r@.payload == spec_u32_to_be_bytes(pid as u32),
        spec_command_of(r@) == Some(Commands::ResetProcess(pid)),
{
    let payload = pid_payload(pid);
    Gaiproto { size: 10, kind: K_RESET_PROCESS, payload }
}

/// Builds the frame that asks the daemon to revert everything.
pub fn build_reset_all_frame() -> (r: Gaiproto)
    ensures
        r@.size == 6,
        r@.kind == K_RESET_ALL,
        r@.payload.len() == 0,
        spec_command_of(r@) == Some(Commands::ResetAll),
{
    Gaiproto { size: 6, kind: K_RESET_ALL, payload: Vec::new() }
}

/// The 4-byte big-endian form of a process id.
fn pid_payload(pid: i32) -> (r: Vec<u8>)
    ensures
        r@ == spec_u32_to_be_bytes(pid as u32),
        spec_i32_from_be_bytes(r@) == pid,
{
    let raw: u32 = #[verifier::truncate] (pid as u32);
    let mut payload: Vec<u8> = Vec::new();
    payload.push(((raw >> 24) & 0xff) as u8);
    payload.push(((raw >> 16) & 0xff) as u8);
    payload.push(((raw >> 8) & 0xff) as u8);
    payload.push((raw & 0xff) as u8);
    proof {
        assert(payload@ =~= spec_u32_to_be_bytes(raw));
        lemma_u32_be_round_trip(raw);
        assert(((pid as u32) as i32) == pid) by (bit_vector);
    }
    payload
}

/// Encoding then decoding returns the very frame, and the encoding is exactly
/// `size` bytes long, for every frame whose size field is honest (the header
/// length plus the payload length).
pub proof fn lemma_wire_round_trip(f: FrameModel)
    requires
        f.size == 6 + f.payload.len(),
    ensures
        spec_encode(f).len() == f.size,
        spec_decode(spec_encode(f)) == Some(f),
{
    let b = spec_encode(f);
    lemma_u32_be_round_trip(f.size);
    lemma_u16_be_round_trip(f.kind);
    assert(b.subrange(0, 4) =~= spec_u32_to_be_bytes(f.size));
    assert(b.subrange(4, 6) =~= spec_u16_to_be_bytes(f.kind));
    assert(b.subrange(6, f.size as int) =~= f.payload);
    assert(spec_decode(b) == Some(f));
}

} // verus!

