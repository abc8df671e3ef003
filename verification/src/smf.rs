//! Standard MIDI files as plain data.
//!
//! The byte format is decoded by the `midly` crate. What the sequencer reads
//! from a decoded file (its timing unit and, per track, each event's delta
//! time and channel message) is held here in types of this library, so that
//! everything that follows the decoding is verified.

use midly::MidiMessage;
use midly::Smf;
use midly::Timing;
use midly::TrackEventKind;
use vstd::prelude::*;

verus! {

/// How a file measures time.
#[derive(Clone, Copy, Debug, PartialEq, Eq, Structural)]
pub enum FileTiming {
    /// Tempo-relative: this many ticks per quarter note.
    Metrical(u16),
    /// Absolute time code (frames per second and ticks per frame).
    Timecode,
}

/// A channel voice message without its channel.
///
/// Data values are those of the file: seven bits each, and fourteen bits
/// for a pitch bend (`0x2000` is the centre).
#[derive(Clone, Copy, Debug, PartialEq, Eq, Structural)]
pub enum ChannelMessage {
    NoteOff { key: u8, vel: u8 },
    NoteOn { key: u8, vel: u8 },
    Aftertouch { key: u8, vel: u8 },
    Controller { controller: u8, value: u8 },
    ProgramChange { program: u8 },
    ChannelAftertouch { vel: u8 },
    PitchBend { bend: u16 },
}

/// A channel voice message with the channel it is sent on.
#[derive(Clone, Copy, Debug, PartialEq, Eq, Structural)]
pub struct ChannelVoice {
    pub channel: u8,
    pub message: ChannelMessage,
}

/// One event of a track: the ticks since the event before it, and its
/// channel message if it is one (meta, system-exclusive and escape events
/// carry time only).
#[derive(Clone, Copy, Debug, PartialEq, Eq, Structural)]
pub struct TrackItem {
    pub delta: u32,
    pub voice: Option<ChannelVoice>,
}

/// A decoded file.
#[derive(Debug)]
pub struct MidiFile {
    pub timing: FileTiming,
    pub tracks: Vec<Vec<TrackItem>>,
}

/// The mathematical content of a [`MidiFile`].
pub struct MidiFileModel {
    pub timing: FileTiming,
    pub tracks: Seq<Seq<TrackItem>>,
}

impl View for MidiFile {
    type V = MidiFileModel;

    open spec fn view(&self) -> MidiFileModel {
        MidiFileModel {
            timing: self.timing,
            tracks: Seq::new(self.tracks@.len(), |i: int| self.tracks@[i]@),
        }
    }
}

/// The decoder's error, carried through unread.
#[verifier::external_type_specification]
#[verifier::external_body]
pub struct ExMidlyError(midly::Error);

/// The decoder's channel message, carried through unread.
#[verifier::external_type_specification]
#[verifier::external_body]
pub struct ExMidiMessage(MidiMessage);

/// What `midly::Smf::parse` makes of a byte string: the decoded file, or
/// `None` where it reports an error.
pub uninterp spec fn decoded(data: Seq<u8>) -> Option<MidiFileModel>;

/// Whether the four bytes `a`, `b`, `c`, `d` stand at `at` in `data`.
pub open spec fn tag_at(data: Seq<u8>, at: int, a: u8, b: u8, c: u8, d: u8) -> bool {
    &&& 0 <= at
    &&& at + 4 <= data.len()
    &&& data[at] == a
    &&& data[at + 1] == b
    &&& data[at + 2] == c
    &&& data[at + 3] == d
}

/// The number that the four bytes at `at` spell, most significant first.
pub open spec fn be32(data: Seq<u8>, at: int) -> int {
    data[at] * 0x100_0000 + data[at + 1] * 0x1_0000 + data[at + 2] * 0x100 + data[at + 3]
}

/// The number that the four bytes at `at` spell, least significant first.
pub open spec fn le32(data: Seq<u8>, at: int) -> int {
    data[at + 3] * 0x100_0000 + data[at + 2] * 0x1_0000 + data[at + 1] * 0x100 + data[at]
}

/// Where the body of the chunk at `at` ends, in data that ends at `end`:
/// eight bytes of tag and length and `length` bytes on, or at `end` where
/// the data is shorter than the chunk says.
pub open spec fn chunk_end(at: int, length: int, end: int) -> int {
    if at + 8 + length <= end {
        at + 8 + length
    } else {
        end
    }
}

/// Whether the chunk at `at` is a header chunk with a time-code rate of
/// -128: the tag `MThd`, a body of six bytes or more, a known format (0, 1
/// or 2), and the byte `0x80` where the division begins.
///
/// The decoder negates that byte as an `i8`, which overflows on `0x80`
/// alone.
pub open spec fn header_overflows(data: Seq<u8>, at: int, end: int) -> bool {
    &&& tag_at(data, at, 0x4D, 0x54, 0x68, 0x64)
    &&& at + 14 <= chunk_end(at, be32(data, at + 4), end)
    &&& data[at + 8] == 0
    &&& data[at + 9] <= 2
    &&& data[at + 12] == 0x80
}

/// Whether one of the chunks that follow one another from `at` to `end`
/// is a header chunk with a time-code rate of -128.
pub open spec fn chunks_overflow(data: Seq<u8>, at: int, end: int) -> bool
    decreases end - at,
{
    if at < 0 || end > data.len() || at + 8 > end {
        false
    } else {
        header_overflows(data, at, end) || chunks_overflow(
            data,
            chunk_end(at, be32(data, at + 4), end),
            end,
        )
    }
}

/// Where the chunk after the RIFF chunk at `at` begins: behind its body,
/// and behind one byte of padding where its length is odd and a byte is
/// left.
pub open spec fn riff_next(data: Seq<u8>, at: int, end: int) -> int {
    let body_end = chunk_end(at, le32(data, at + 4), end);
    if le32(data, at + 4) % 2 == 1 && body_end < end {
        body_end + 1
    } else {
        body_end
    }
}

/// The bounds of the body of the first chunk tagged `data` among the RIFF
/// chunks that follow one another from `at` to `end`.
pub open spec fn riff_data(data: Seq<u8>, at: int, end: int) -> Option<(int, int)>
    decreases end - at,
{
    if at < 0 || end > data.len() || at + 8 > end {
        None
    } else if tag_at(data, at, 0x64, 0x61, 0x74, 0x61) {
        Some((at + 8, chunk_end(at, le32(data, at + 4), end)))
    } else {
        riff_data(data, riff_next(data, at, end), end)
    }
}

/// Whether the decoder, walking the chunks of `data`, meets a header chunk
/// with a time-code rate of -128; such data is kept away from it.
///
/// Data that begins with `MThd` is a row of chunks. Data that begins with
/// `RIFF` wraps such a row in the `data` chunk of an `RMID` form. Only
/// tags at the start of a chunk count: the same bytes inside a track are
/// no header. The walk goes on to the end of the data, also past a chunk at
/// which the decoder would have stopped.
pub open spec fn has_overflowing_rate(data: Seq<u8>) -> bool {
    if tag_at(data, 0, 0x4D, 0x54, 0x68, 0x64) {
        chunks_overflow(data, 0, data.len() as int)
    } else if tag_at(data, 0, 0x52, 0x49, 0x46, 0x46) && data.len() >= 8 {
        let riff_end = chunk_end(0, le32(data, 4), data.len() as int);
        if riff_end >= 12 && tag_at(data, 8, 0x52, 0x4D, 0x49, 0x44) {
            match riff_data(data, 12, riff_end) {
                Some(bounds) => chunks_overflow(data, bounds.0, bounds.1),
                None => false,
            }
        } else {
            false
        }
    } else {
        false
    }
}

/// Decides [`tag_at`].
fn has_tag(data: &[u8], at: usize, a: u8, b: u8, c: u8, d: u8) -> (has: bool)
    ensures
        has == tag_at(data@, at as int, a, b, c, d),
{
    at <= data.len() && data.len() - at >= 4 && data[at] == a && data[at + 1] == b && data[at + 2]
        == c && data[at + 3] == d
}

/// Computes [`chunk_end`] for the chunk at `at`, whose length is spelt
/// most significant byte first or last.
fn end_of_chunk(data: &[u8], at: usize, end: usize, big_endian: bool) -> (body_end: usize)
    requires
        at + 8 <= end <= data@.len(),
    ensures
        body_end == chunk_end(
            at as int,
            if big_endian {
                be32(data@, at + 4)
            } else {
                le32(data@, at + 4)
            },
            end as int,
        ),
        at + 8 <= body_end <= end,
{
    let first: u64 = data[at + 4] as u64;
    let second: u64 = data[at + 5] as u64;
    let third: u64 = data[at + 6] as u64;
    let fourth: u64 = data[at + 7] as u64;
    let length: u64 = if big_endian {
        first * 0x100_0000 + second * 0x1_0000 + third * 0x100 + fourth
    } else {
        fourth * 0x100_0000 + third * 0x1_0000 + second * 0x100 + first
    };
    let room: usize = end - (at + 8);
    if length <= room as u64 {
        at + 8 + length as usize
    } else {
        end
    }
}

/// Decides [`chunks_overflow`].
fn walk_chunks(data: &[u8], from: usize, end: usize) -> (found: bool)
    requires
        from <= end <= data@.len(),
    ensures
        found == chunks_overflow(data@, from as int, end as int),
{
    let mut at: usize = from;
    while end - at >= 8
        invariant
            at <= end <= data@.len(),
            chunks_overflow(data@, from as int, end as int) == chunks_overflow(
                data@,
                at as int,
                end as int,
            ),
        decreases end - at,
    {
        let body_end: usize = end_of_chunk(data, at, end, true);
        if has_tag(data, at, 0x4D, 0x54, 0x68, 0x64) && body_end - at >= 14 && data[at + 8] == 0
            && data[at + 9] <= 2 && data[at + 12] == 0x80 {
            return true;
        }
        at = body_end;
    }
    false
}

/// Decides [`riff_data`].
fn find_riff_data(data: &[u8], from: usize, end: usize) -> (found: Option<(usize, usize)>)
    requires
        from <= end <= data@.len(),
    ensures
        match found {
            Some(bounds) => riff_data(data@, from as int, end as int) == Some(
                (bounds.0 as int, bounds.1 as int),
            ) && bounds.0 <= bounds.1 <= end,
            None => riff_data(data@, from as int, end as int).is_none(),
        },
{
    let mut at: usize = from;
    while end - at >= 8
        invariant
            at <= end <= data@.len(),
            riff_data(data@, from as int, end as int) == riff_data(data@, at as int, end as int),
        decreases end - at,
    {
        let body_end: usize = end_of_chunk(data, at, end, false);
        if has_tag(data, at, 0x64, 0x61, 0x74, 0x61) {
            return Some((at + 8, body_end));
        }
        let odd: bool = data[at + 4] % 2 == 1;
        assert(odd == (le32(data@, at + 4) % 2 == 1));
        at = if odd && body_end < end {
            body_end + 1
        } else {
            body_end
        };
    }
    None
}

/// Decides [`has_overflowing_rate`].
pub fn find_overflowing_rate(data: &[u8]) -> (found: bool)
    ensures
        found == has_overflowing_rate(data@),
{
    let n: usize = data.len();
    if has_tag(data, 0, 0x4D, 0x54, 0x68, 0x64) {
        walk_chunks(data, 0, n)
    } else if has_tag(data, 0, 0x52, 0x49, 0x46, 0x46) && n >= 8 {
        let riff_end: usize = end_of_chunk(data, 0, n, false);
        if riff_end >= 12 && has_tag(data, 8, 0x52, 0x4D, 0x49, 0x44) {
            match find_riff_data(data, 12, riff_end) {
                Some(bounds) => walk_chunks(data, bounds.0, bounds.1),
                None => false,
            }
        } else {
            false
        }
    } else {
        false
    }
}

/// Calls `midly::Smf::parse` and copies out of its result what the
/// sequencer reads.
///
/// Trusted: the result is named [`decoded`], a function of the bytes alone
/// (the decoder reads nothing else). Nothing is claimed of what the name
/// holds. The inputs on which the decoder's arithmetic can overflow are
/// left out.
#[verifier::external_body]
pub(crate) fn decode(data: &[u8]) -> (out: Result<MidiFile, midly::Error>)
    requires
        !has_overflowing_rate(data@),
    ensures
        match out {
            Ok(file) => decoded(data@) == Some(file@),
            Err(_) => decoded(data@).is_none(),
        },
{
    let smf = Smf::parse(data)?;
    let timing = match smf.header.timing {
        Timing::Metrical(ticks) => FileTiming::Metrical(ticks.as_int()),
        Timing::Timecode(..) => FileTiming::Timecode,
    };
    let item = |e: &midly::TrackEvent| TrackItem {
        delta: e.delta.as_int(),
        voice: match e.kind {
            TrackEventKind::Midi { channel, message } => Some(voice_of(channel.as_int(), &message)),
            _ => None,
        },
    };
    Ok(MidiFile { timing, tracks: smf.tracks.iter().map(|t| t.iter().map(item).collect()).collect() })
}

/// Copies a `midly::MidiMessage` into a [`ChannelVoice`], variant by variant.
///
/// Trusted, with nothing claimed: the decoder's message is opaque here.
#[verifier::external_body]
fn voice_of(channel: u8, message: &MidiMessage) -> ChannelVoice {
    let message = match *message {
        MidiMessage::NoteOff { key, vel } => ChannelMessage::NoteOff { key: key.as_int(), vel: vel.as_int() },
        MidiMessage::NoteOn { key, vel } => ChannelMessage::NoteOn { key: key.as_int(), vel: vel.as_int() },
        MidiMessage::Aftertouch { key, vel } => ChannelMessage::Aftertouch { key: key.as_int(), vel: vel.as_int() },
        MidiMessage::Controller { controller, value } => ChannelMessage::Controller { controller: controller.as_int(), value: value.as_int() },
        MidiMessage::ProgramChange { program } => ChannelMessage::ProgramChange { program: program.as_int() },
        MidiMessage::ChannelAftertouch { vel } => ChannelMessage::ChannelAftertouch { vel: vel.as_int() },
        MidiMessage::PitchBend { bend } => ChannelMessage::PitchBend { bend: bend.0.as_int() },
    };
    ChannelVoice { channel, message }
}

/// The text of a decoder error.
///
/// Trusted, with nothing claimed of the text.
#[verifier::external_body]
pub(crate) fn error_text(error: &midly::Error) -> String {
    format!("{}", error)
}

} // verus!
