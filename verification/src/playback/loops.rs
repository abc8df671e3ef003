//! Loops: fixed-length, pulse-quantized sequences of channel messages.

use crate::smf::decode;
use crate::smf::error_text;
use crate::smf::find_overflowing_rate;
use crate::smf::has_overflowing_rate;
use crate::smf::decoded;
use crate::smf::ChannelMessage;
use crate::smf::FileTiming;
use crate::smf::MidiFile;
use crate::smf::TrackItem;
use vstd::prelude::*;

verus! {

/// One message of a loop.
#[derive(Debug)]
pub struct LoopEvent {
    /// Pulses from the start of the loop (24 per beat).
    pub clock_position: u64,
    /// MIDI channel (0 to 15).
    pub channel: u8,
    /// The message as sent: status byte, then data bytes.
    pub message: Vec<u8>,
}

/// The mathematical content of a [`LoopEvent`].
pub struct EventModel {
    pub position: nat,
    pub channel: u8,
    pub message: Seq<u8>,
}

impl View for LoopEvent {
    type V = EventModel;

    open spec fn view(&self) -> EventModel {
        EventModel {
            position: self.clock_position as nat,
            channel: self.channel,
            message: self.message@,
        }
    }
}

impl Clone for LoopEvent {
    fn clone(&self) -> (out: Self)
        ensures
            out@ == self@,
    {
        LoopEvent {
            clock_position: self.clock_position,
            channel: self.channel,
            message: self.message.clone(),
        }
    }
}

/// A loaded loop.
#[derive(Debug)]
pub struct Loop {
    /// Name of the loop.
    pub name: String,
    /// Length in pulses.
    pub length_clocks: u64,
    /// The events, in the order in which they are played.
    pub events: Vec<LoopEvent>,
}

/// The mathematical content of a [`Loop`].
pub struct LoopModel {
    pub name: Seq<char>,
    pub length: nat,
    pub events: Seq<EventModel>,
}

impl View for Loop {
    type V = LoopModel;

    open spec fn view(&self) -> LoopModel {
        LoopModel {
            name: self.name@,
            length: self.length_clocks as nat,
            events: events_view(self.events@),
        }
    }
}

/// The models of a sequence of events.
pub open spec fn events_view(events: Seq<LoopEvent>) -> Seq<EventModel> {
    Seq::new(events.len(), |i: int| events[i]@)
}

/// Whether positions never decrease along `events`.
pub open spec fn ordered(events: Seq<EventModel>) -> bool {
    forall|i: int, j: int| 0 <= i <= j < events.len() ==> events[i].position <= events[j].position
}

impl LoopModel {
    /// Whether the events stand in playing order.
    pub open spec fn ordered(self) -> bool {
        ordered(self.events)
    }
}

/// Why a file could not be made into a loop.
#[derive(Debug)]
pub enum LoadError {
    /// The decoder rejected the bytes; its reason is attached.
    Malformed { reason: String },
    /// The file counts time in absolute time code.
    UnsupportedTiming,
    /// The file declares zero ticks per quarter note.
    ZeroTicksPerBeat,
    /// A track runs longer than there are positions to give.
    TooLong,
}

/// The kind of a [`LoadError`], without its text.
pub enum LoadFailure {
    Malformed,
    UnsupportedTiming,
    ZeroTicksPerBeat,
    TooLong,
}

impl LoadError {
    /// The kind of this error.
    pub open spec fn kind(self) -> LoadFailure {
        match self {
            LoadError::Malformed { .. } => LoadFailure::Malformed,
            LoadError::UnsupportedTiming => LoadFailure::UnsupportedTiming,
            LoadError::ZeroTicksPerBeat => LoadFailure::ZeroTicksPerBeat,
            LoadError::TooLong => LoadFailure::TooLong,
        }
    }
}

// ---------------------------------------------------------------------
// Raw messages
// ---------------------------------------------------------------------

/// The bytes of `message` on `channel`: the status byte (kind in the high
/// nibble, channel in the low one), then the data bytes as the file has
/// them. A pitch bend sends its low seven bits first.
pub open spec fn voice_bytes(channel: u8, message: ChannelMessage) -> Seq<u8> {
    match message {
        ChannelMessage::NoteOff { key, vel } => seq![0x80u8 | channel, key, vel],
        ChannelMessage::NoteOn { key, vel } => seq![0x90u8 | channel, key, vel],
        ChannelMessage::Aftertouch { key, vel } => seq![0xA0u8 | channel, key, vel],
        ChannelMessage::Controller { controller, value } => seq![0xB0u8 | channel, controller, value],
        ChannelMessage::ProgramChange { program } => seq![0xC0u8 | channel, program],
        ChannelMessage::ChannelAftertouch { vel } => seq![0xD0u8 | channel, vel],
        ChannelMessage::PitchBend { bend } => seq![
            0xE0u8 | channel,
            (bend & 0x7F) as u8,
            ((bend >> 7) & 0x7F) as u8,
        ],
    }
}

/// Builds [`voice_bytes`].
pub fn encode_voice(channel: u8, message: ChannelMessage) -> (bytes: Vec<u8>)
    ensures
        bytes@ == voice_bytes(channel, message),
{
    let mut bytes: Vec<u8> = Vec::new();
    match message {
        ChannelMessage::NoteOff { key, vel } => {
            bytes.push(0x80u8 | channel);
            bytes.push(key);
            bytes.push(vel);
        },
        ChannelMessage::NoteOn { key, vel } => {
            bytes.push(0x90u8 | channel);
            bytes.push(key);
            bytes.push(vel);
        },
        ChannelMessage::Aftertouch { key, vel } => {
            bytes.push(0xA0u8 | channel);
            bytes.push(key);
            bytes.push(vel);
        },
        ChannelMessage::Controller { controller, value } => {
            bytes.push(0xB0u8 | channel);
            bytes.push(controller);
            bytes.push(value);
        },
        ChannelMessage::ProgramChange { program } => {
            bytes.push(0xC0u8 | channel);
            bytes.push(program);
        },
        ChannelMessage::ChannelAftertouch { vel } => {
            bytes.push(0xD0u8 | channel);
            bytes.push(vel);
        },
        ChannelMessage::PitchBend { bend } => {
            let low: u16 = bend & 0x7F;
            let high: u16 = (bend >> 7) & 0x7F;
            assert(low <= 0x7F && high <= 0x7F) by (bit_vector)
                requires
                    low == bend & 0x7F,
                    high == (bend >> 7) & 0x7F,
            ;
            bytes.push(0xE0u8 | channel);
            bytes.push(low as u8);
            bytes.push(high as u8);
        },
    }
    assert(bytes@ =~= voice_bytes(channel, message));
    bytes
}

// ---------------------------------------------------------------------
// Quantization
// ---------------------------------------------------------------------

/// The ticks that have passed when the `n`-th event of `track` is over:
/// the sum of the first `n` delta times.
pub open spec fn ticks_through(track: Seq<TrackItem>, n: int) -> nat
    decreases n,
{
    if n <= 0 {
        0
    } else {
        ticks_through(track, n - 1) + track[n - 1].delta as nat
    }
}

/// The pulse that `tick` ticks fall on, at `ticks_per_beat` ticks and 24
/// pulses per beat, rounded down.
pub open spec fn quantized(tick: nat, ticks_per_beat: nat) -> nat {
    (tick * 24) / ticks_per_beat
}

/// The events that the first `n` items of `track` give, in file order: one
/// for each channel message, at the pulse its absolute tick falls on.
pub open spec fn track_events(track: Seq<TrackItem>, ticks_per_beat: nat, n: int) -> Seq<EventModel>
    decreases n,
{
    if n <= 0 {
        Seq::empty()
    } else {
        let before = track_events(track, ticks_per_beat, n - 1);
        match track[n - 1].voice {
            Some(voice) => before.push(
                EventModel {
                    position: quantized(ticks_through(track, n), ticks_per_beat),
                    channel: voice.channel,
                    message: voice_bytes(voice.channel, voice.message),
                },
            ),
            None => before,
        }
    }
}

/// The events of the first `k` tracks, track after track.
pub open spec fn file_events(tracks: Seq<Seq<TrackItem>>, ticks_per_beat: nat, k: int) -> Seq<EventModel>
    decreases k,
{
    if k <= 0 {
        Seq::empty()
    } else {
        file_events(tracks, ticks_per_beat, k - 1) + track_events(
            tracks[k - 1],
            ticks_per_beat,
            tracks[k - 1].len() as int,
        )
    }
}

/// Whether every position of every track can be computed in 64 bits.
pub open spec fn ticks_fit(tracks: Seq<Seq<TrackItem>>) -> bool {
    forall|t: int| 0 <= t < tracks.len() ==> track_fits(#[trigger] tracks[t])
}

/// Whether the last tick of `track`, times 24, fits in 64 bits.
pub open spec fn track_fits(track: Seq<TrackItem>) -> bool {
    ticks_through(track, track.len() as int) * 24 <= u64::MAX
}

/// Ticks only accumulate.
pub proof fn lemma_ticks_monotonic(track: Seq<TrackItem>, m: int, n: int)
    requires
        m <= n,
    ensures
        ticks_through(track, m) <= ticks_through(track, n),
    decreases n - m,
{
    if m < n {
        lemma_ticks_monotonic(track, m, n - 1);
    }
}

// ---------------------------------------------------------------------
// Ordering
// ---------------------------------------------------------------------

/// The place of a new event at `position` among `events`: directly behind
/// the last event that is not later than it.
pub open spec fn upper_bound(events: Seq<EventModel>, position: nat) -> int
    decreases events.len(),
{
    if events.len() == 0 || events.last().position <= position {
        events.len() as int
    } else {
        upper_bound(events.drop_last(), position)
    }
}

/// `events` with `event` put in at its [`upper_bound`].
pub open spec fn place(events: Seq<EventModel>, event: EventModel) -> Seq<EventModel> {
    events.insert(upper_bound(events, event.position), event)
}

/// `more` placed into `base`, one event after the other.
pub open spec fn place_all(base: Seq<EventModel>, more: Seq<EventModel>) -> Seq<EventModel>
    decreases more.len(),
{
    if more.len() == 0 {
        base
    } else {
        place(place_all(base, more.drop_last()), more.last())
    }
}

/// `events` in ascending order of position; events at one position keep the
/// order they came in.
pub open spec fn sort_by_position(events: Seq<EventModel>) -> Seq<EventModel> {
    place_all(Seq::empty(), events)
}

/// The upper bound lies within the sequence; in ordered events, everything
/// before it is at or before the position and everything from it on is later.
pub proof fn lemma_upper_bound(events: Seq<EventModel>, position: nat)
    ensures
        0 <= upper_bound(events, position) <= events.len(),
        forall|i: int|
            upper_bound(events, position) <= i < events.len() ==> events[i].position > position,
        ordered(events) ==> forall|i: int|
            0 <= i < upper_bound(events, position) ==> events[i].position <= position,
    decreases events.len(),
{
    if events.len() == 0 || events.last().position <= position {
    } else {
        let rest = events.drop_last();
        lemma_upper_bound(rest, position);
        assert(forall|i: int| 0 <= i < rest.len() ==> rest[i] == events[i]);
        if ordered(events) {
            assert(ordered(rest));
        }
    }
}

/// Placing an event keeps ordered events ordered, and adds just that event.
pub proof fn lemma_place(events: Seq<EventModel>, event: EventModel)
    ensures
        ordered(events) ==> ordered(place(events, event)),
        place(events, event).to_multiset() == events.to_multiset().insert(event),
        place(events, event).len() == events.len() + 1,
{
    lemma_upper_bound(events, event.position);
    let k = upper_bound(events, event.position);
    let placed = place(events, event);
    events.to_multiset_ensures();
    vstd::seq_lib::to_multiset_insert(events, k, event);
    if ordered(events) {
        assert forall|i: int, j: int| 0 <= i <= j < placed.len() implies placed[i].position
            <= placed[j].position by {
            if i < k && j < k {
                assert(placed[i] == events[i] && placed[j] == events[j]);
            } else if i < k && j == k {
                assert(placed[i] == events[i]);
            } else if i < k && j > k {
                assert(placed[i] == events[i] && placed[j] == events[j - 1]);
            } else if i == k && j > k {
                assert(placed[j] == events[j - 1]);
            } else if i > k {
                assert(placed[i] == events[i - 1] && placed[j] == events[j - 1]);
            }
        }
    }
}

/// Placing events into ordered events gives ordered events that hold
/// exactly the old and the new ones.
pub proof fn lemma_place_all(base: Seq<EventModel>, more: Seq<EventModel>)
    ensures
        ordered(base) ==> ordered(place_all(base, more)),
        place_all(base, more).to_multiset() == base.to_multiset().add(more.to_multiset()),
        place_all(base, more).len() == base.len() + more.len(),
    decreases more.len(),
{
    if more.len() == 0 {
        assert(more.to_multiset() =~= vstd::multiset::Multiset::empty()) by {
            more.to_multiset_ensures();
        }
        assert(base.to_multiset().add(more.to_multiset()) =~= base.to_multiset());
    } else {
        let rest = more.drop_last();
        lemma_place_all(base, rest);
        lemma_place(place_all(base, rest), more.last());
        assert(more =~= rest.push(more.last()));
        rest.to_multiset_ensures();
        assert(more.to_multiset() == rest.to_multiset().insert(more.last()));
        assert(base.to_multiset().add(rest.to_multiset()).insert(more.last())
            =~= base.to_multiset().add(more.to_multiset()));
    }
}

/// Sorting orders the events and neither adds nor drops one.
pub proof fn lemma_sort_by_position(events: Seq<EventModel>)
    ensures
        ordered(sort_by_position(events)),
        sort_by_position(events).to_multiset() == events.to_multiset(),
        sort_by_position(events).len() == events.len(),
{
    lemma_place_all(Seq::empty(), events);
    assert(Seq::<EventModel>::empty().to_multiset() =~= vstd::multiset::Multiset::empty()) by {
        Seq::<EventModel>::empty().to_multiset_ensures();
    }
    assert(vstd::multiset::Multiset::<EventModel>::empty().add(events.to_multiset())
        =~= events.to_multiset());
}

/// Placing a run of events is placing its parts one after the other.
pub proof fn lemma_place_all_concat(base: Seq<EventModel>, first: Seq<EventModel>, second: Seq<EventModel>)
    ensures
        place_all(base, first + second) == place_all(place_all(base, first), second),
    decreases second.len(),
{
    if second.len() == 0 {
        assert(first + second =~= first);
    } else {
        lemma_place_all_concat(base, first, second.drop_last());
        assert((first + second).drop_last() =~= first + second.drop_last());
        assert((first + second).last() == second.last());
    }
}

/// Puts `event` into `events` at its [`upper_bound`].
fn place_event(events: &mut Vec<LoopEvent>, event: LoopEvent)
    ensures
        events_view(final(events)@) == place(events_view(old(events)@), event@),
{
    let ghost before = events_view(events@);
    let mut at: usize = events.len();
    assert(before.take(at as int) =~= before);
    while at > 0 && events[at - 1].clock_position > event.clock_position
        invariant
            at <= events.len(),
            before == events_view(events@),
            upper_bound(before, event@.position) == upper_bound(before.take(at as int), event@.position),
        decreases at,
    {
        proof {
            let head = before.take(at as int);
            assert(head.last() == before[at - 1]);
            assert(head.drop_last() =~= before.take(at - 1));
        }
        at -= 1;
    }
    proof {
        let head = before.take(at as int);
        if at > 0 {
            assert(head.last() == before[at - 1]);
        }
        assert(upper_bound(head, event@.position) == at);
    }
    events.insert(at, event);
    assert(events_view(events@) =~= before.insert(at as int, event@));
}

// ---------------------------------------------------------------------
// Loading
// ---------------------------------------------------------------------

/// The loop that a file with tempo-relative timing gives: every track's
/// channel messages at their pulses, all tracks together in ascending
/// order of position, under the given name and with the length of `bars`
/// bars of four beats.
pub open spec fn quantized_loop(
    name: Seq<char>,
    tracks: Seq<Seq<TrackItem>>,
    ticks_per_beat: nat,
    bars: nat,
) -> LoopModel {
    LoopModel {
        name,
        length: bars * 96,
        events: sort_by_position(file_events(tracks, ticks_per_beat, tracks.len() as int)),
    }
}

/// A loop made from a file has its events in playing order, and they are
/// the channel messages of the file's tracks, each once.
pub proof fn lemma_quantized_loop(
    name: Seq<char>,
    tracks: Seq<Seq<TrackItem>>,
    ticks_per_beat: nat,
    bars: nat,
)
    ensures
        quantized_loop(name, tracks, ticks_per_beat, bars).ordered(),
        quantized_loop(name, tracks, ticks_per_beat, bars).events.to_multiset() == file_events(
            tracks,
            ticks_per_beat,
            tracks.len() as int,
        ).to_multiset(),
        quantized_loop(name, tracks, ticks_per_beat, bars).length == bars * 4 * 24,
{
    lemma_sort_by_position(file_events(tracks, ticks_per_beat, tracks.len() as int));
}

/// What comes of making a loop from a decoded file.
pub open spec fn quantize_outcome(
    name: Seq<char>,
    file: crate::smf::MidiFileModel,
    bars: nat,
) -> Result<LoopModel, LoadFailure> {
    match file.timing {
        FileTiming::Timecode => Err(LoadFailure::UnsupportedTiming),
        FileTiming::Metrical(ticks_per_beat) => if ticks_per_beat == 0 {
            Err(LoadFailure::ZeroTicksPerBeat)
        } else if !ticks_fit(file.tracks) {
            Err(LoadFailure::TooLong)
        } else {
            Ok(quantized_loop(name, file.tracks, ticks_per_beat as nat, bars))
        },
    }
}

/// What comes of making a loop from the bytes of a file.
pub open spec fn load_outcome(name: Seq<char>, data: Seq<u8>, bars: nat) -> Result<
    LoopModel,
    LoadFailure,
> {
    if has_overflowing_rate(data) {
        Err(LoadFailure::Malformed)
    } else {
        match decoded(data) {
            None => Err(LoadFailure::Malformed),
            Some(file) => quantize_outcome(name, file, bars),
        }
    }
}

/// Whether an executable result is the given outcome.
pub open spec fn is_outcome(result: Result<Loop, LoadError>, outcome: Result<LoopModel, LoadFailure>) -> bool {
    match result {
        Ok(loaded) => outcome == Ok::<LoopModel, LoadFailure>(loaded@),
        Err(error) => outcome == Err::<LoopModel, LoadFailure>(error.kind()),
    }
}

/// Decides [`track_fits`].
pub fn check_track_fits(track: &Vec<TrackItem>) -> (fits: bool)
    ensures
        fits == track_fits(track@),
{
    let limit: u64 = u64::MAX / 24;
    let mut tick: u64 = 0;
    let mut i: usize = 0;
    while i < track.len()
        invariant
            i <= track.len(),
            limit == u64::MAX / 24,
            tick == ticks_through(track@, i as int),
            tick <= limit,
        decreases track.len() - i,
    {
        let delta: u64 = track[i].delta as u64;
        if delta > limit - tick {
            proof {
                lemma_ticks_monotonic(track@, i + 1, track@.len() as int);
            }
            return false;
        }
        tick = tick + delta;
        i += 1;
    }
    true
}

/// Decides [`ticks_fit`].
pub fn check_ticks_fit(tracks: &Vec<Vec<TrackItem>>) -> (fit: bool)
    ensures
        fit == ticks_fit(Seq::new(tracks@.len(), |i: int| tracks@[i]@)),
{
    let ghost views = Seq::new(tracks@.len(), |i: int| tracks@[i]@);
    let mut t: usize = 0;
    while t < tracks.len()
        invariant
            t <= tracks.len(),
            views == Seq::new(tracks@.len(), |i: int| tracks@[i]@),
            forall|s: int| 0 <= s < t ==> track_fits(#[trigger] views[s]),
        decreases tracks.len() - t,
    {
        if !check_track_fits(&tracks[t]) {
            assert(!track_fits(views[t as int]));
            return false;
        }
        t += 1;
    }
    true
}

/// Places the events of `track` into `events`.
fn place_track(track: &Vec<TrackItem>, ticks_per_beat: u16, events: &mut Vec<LoopEvent>)
    requires
        ticks_per_beat > 0,
        track_fits(track@),
    ensures
        events_view(final(events)@) == place_all(
            events_view(old(events)@),
            track_events(track@, ticks_per_beat as nat, track@.len() as int),
        ),
{
    let ghost base = events_view(events@);
    let mut tick: u64 = 0;
    let mut i: usize = 0;
    while i < track.len()
        invariant
            i <= track.len(),
            ticks_per_beat > 0,
            track_fits(track@),
            tick == ticks_through(track@, i as int),
            events_view(events@) == place_all(
                base,
                track_events(track@, ticks_per_beat as nat, i as int),
            ),
        decreases track.len() - i,
    {
        let item: TrackItem = track[i];
        proof {
            lemma_ticks_monotonic(track@, i + 1, track@.len() as int);
        }
        tick = tick + item.delta as u64;
        match item.voice {
            Some(voice) => {
                let position: u64 = (tick * 24) / (ticks_per_beat as u64);
                let event = LoopEvent {
                    clock_position: position,
                    channel: voice.channel,
                    message: encode_voice(voice.channel, voice.message),
                };
                proof {
                    let so_far = track_events(track@, ticks_per_beat as nat, i as int);
                    let next = track_events(track@, ticks_per_beat as nat, i + 1);
                    assert(next == so_far.push(event@));
                    assert(next.drop_last() =~= so_far);
                }
                place_event(events, event);
            },
            None => {},
        }
        i += 1;
    }
}

impl Loop {
    /// Makes a loop of `loop_length_bars` bars from a decoded file.
    ///
    /// Succeeds exactly on files with tempo-relative timing, a positive
    /// number of ticks per beat and tracks short enough for 64-bit positions;
    /// each other case has its own error.
    pub fn from_midi(name: String, file: &MidiFile, loop_length_bars: u64) -> (result: Result<
        Loop,
        LoadError,
    >)
        requires
            loop_length_bars * 96 <= u64::MAX,
        ensures
            is_outcome(result, quantize_outcome(name@, file@, loop_length_bars as nat)),
    {
        let ticks_per_beat: u16 = match file.timing {
            FileTiming::Timecode => {
                return Err(LoadError::UnsupportedTiming);
            },
            FileTiming::Metrical(ticks) => ticks,
        };
        if ticks_per_beat == 0 {
            return Err(LoadError::ZeroTicksPerBeat);
        }
        if !check_ticks_fit(&file.tracks) {
            return Err(LoadError::TooLong);
        }
        let ghost tracks = file@.tracks;
        let mut events: Vec<LoopEvent> = Vec::new();
        let mut t: usize = 0;
        assert(events_view(events@) =~= Seq::empty());
        while t < file.tracks.len()
            invariant
                t <= file.tracks.len(),
                ticks_per_beat > 0,
                tracks == file@.tracks,
                ticks_fit(tracks),
                events_view(events@) == sort_by_position(
                    file_events(tracks, ticks_per_beat as nat, t as int),
                ),
            decreases file.tracks.len() - t,
        {
            assert(tracks[t as int] == file.tracks@[t as int]@);
            assert(track_fits(tracks[t as int]));
            place_track(&file.tracks[t], ticks_per_beat, &mut events);
            proof {
                lemma_place_all_concat(
                    Seq::empty(),
                    file_events(tracks, ticks_per_beat as nat, t as int),
                    track_events(tracks[t as int], ticks_per_beat as nat, tracks[t as int].len() as int),
                );
            }
            t += 1;
        }
        Ok(Loop { name, length_clocks: loop_length_bars * 96, events })
    }

    /// Decodes the bytes of a Standard MIDI File and makes a loop of
    /// `loop_length_bars` bars from it.
    ///
    /// Fails with [`LoadError::Malformed`] where the decoder rejects the
    /// bytes, and on bytes that are kept from the decoder (see
    /// [`has_overflowing_rate`]); from there on as [`Loop::from_midi`].
    pub fn from_bytes(name: String, data: &[u8], loop_length_bars: u64) -> (result: Result<
        Loop,
        LoadError,
    >)
        requires
            loop_length_bars * 96 <= u64::MAX,
        ensures
            is_outcome(result, load_outcome(name@, data@, loop_length_bars as nat)),
    {
        if find_overflowing_rate(data) {
            return Err(LoadError::Malformed { reason: "invalid time-code rate".to_string() });
        }
        match decode(data) {
            Err(error) => Err(LoadError::Malformed { reason: error_text(&error) }),
            Ok(file) => Loop::from_midi(name, &file, loop_length_bars),
        }
    }

    /// Moves every event to `channel`: the low nibble of its status byte
    /// becomes the low nibble of `channel`, and its channel field becomes
    /// `channel`. Events without bytes are left as they are; positions, data
    /// bytes, order, name and length do not change.
    pub fn set_channel(&mut self, channel: u8)
        ensures
            final(self)@ == rechanneled(old(self)@, channel),
    {
        let ghost before = self@;
        let mut i: usize = 0;
        while i < self.events.len()
            invariant
                i <= self.events.len(),
                self@.name == before.name,
                self@.length == before.length,
                self@.events.len() == before.events.len(),
                forall|k: int| 0 <= k < i ==> self@.events[k] == rechanneled_event(before.events[k], channel),
                forall|k: int| i <= k < before.events.len() ==> self@.events[k] == before.events[k],
            decreases self.events.len() - i,
        {
            let ghost prev = self.events@;
            if self.events[i].message.len() > 0 {
                let status: u8 = self.events[i].message[0] & 0xF0;
                self.events[i].message[0] = status | (channel & 0x0F);
                self.events[i].channel = channel;
            }
            proof {
                assert(self.events@.len() == prev.len());
                assert(forall|k: int| 0 <= k < prev.len() && k != i ==> self.events@[k] == prev[k]);
                assert(self@.events[i as int] =~= rechanneled_event(before.events[i as int], channel));
                assert forall|k: int| 0 <= k < i implies self@.events[k] == rechanneled_event(
                    before.events[k],
                    channel,
                ) by {
                    assert(self.events@[k] == prev[k]);
                    assert(events_view(prev)[k] == prev[k]@);
                }
                assert forall|k: int| i < k < before.events.len() implies self@.events[k]
                    == before.events[k] by {
                    assert(self.events@[k] == prev[k]);
                    assert(events_view(prev)[k] == prev[k]@);
                }
            }
            i += 1;
        }
        assert(self@.events =~= rechanneled(before, channel).events);
    }
}

/// `event` moved to `channel`.
pub open spec fn rechanneled_event(event: EventModel, channel: u8) -> EventModel {
    if event.message.len() == 0 {
        event
    } else {
        EventModel {
            position: event.position,
            channel,
            message: event.message.update(0, (event.message[0] & 0xF0) | (channel & 0x0F)),
        }
    }
}

/// `looped` with every event moved to `channel`.
pub open spec fn rechanneled(looped: LoopModel, channel: u8) -> LoopModel {
    LoopModel {
        name: looped.name,
        length: looped.length,
        events: Seq::new(looped.events.len(), |i: int| rechanneled_event(looped.events[i], channel)),
    }
}

impl Clone for Loop {
    fn clone(&self) -> (out: Self)
        ensures
            out@ == self@,
    {
        let events = self.events.clone();
        assert(events_view(events@) =~= events_view(self.events@));
        Loop { name: self.name.clone(), length_clocks: self.length_clocks, events }
    }
}

} // verus!
