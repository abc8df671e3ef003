//! The sequence player: called once per pulse, it finds the place in the
//! active loop, moves on when the loop has played its laps, and hands out
//! the messages that are due.

use crate::playback::grid::GridModel;
use crate::playback::grid::PlaybackState;
use crate::playback::grid::SequenceGrid;
use crate::playback::grid::SlotId;
use crate::playback::loops::events_view;
use crate::playback::loops::EventModel;
use crate::playback::loops::Loop;
use crate::playback::loops::LoopEvent;
use crate::playback::loops::LoopModel;
use vstd::prelude::*;

verus! {

/// A loop with the number of laps it plays.
#[derive(Debug)]
pub struct SequenceEntry {
    pub loop_data: Loop,
    /// Laps to play before the next entry takes over.
    pub repeat_count: u32,
}

/// The mathematical content of a [`SequenceEntry`].
pub struct EntryModel {
    pub loop_data: LoopModel,
    pub repeat_count: nat,
}

impl View for SequenceEntry {
    type V = EntryModel;

    open spec fn view(&self) -> EntryModel {
        EntryModel { loop_data: self.loop_data@, repeat_count: self.repeat_count as nat }
    }
}

impl Clone for SequenceEntry {
    fn clone(&self) -> (out: Self)
        ensures
            out@ == self@,
    {
        SequenceEntry { loop_data: self.loop_data.clone(), repeat_count: self.repeat_count }
    }
}

/// Loops to play one after the other, round and round.
#[derive(Debug)]
pub struct Sequence {
    pub entries: Vec<SequenceEntry>,
}

impl View for Sequence {
    type V = Seq<EntryModel>;

    open spec fn view(&self) -> Seq<EntryModel> {
        Seq::new(self.entries@.len(), |i: int| self.entries@[i]@)
    }
}

impl Clone for Sequence {
    fn clone(&self) -> (out: Self)
        ensures
            out@ == self@,
    {
        let entries = self.entries.clone();
        assert(Seq::new(entries@.len(), |i: int| entries@[i]@) =~= self@);
        Sequence { entries }
    }
}

/// The views of a batch of messages.
pub open spec fn batch_view(batch: Seq<Vec<u8>>) -> Seq<Seq<u8>> {
    Seq::new(batch.len(), |i: int| batch[i]@)
}

/// Where a scan that starts at `cursor` stops: at the first event from
/// there on that lies behind `position`, or at the end of the events.
pub open spec fn scan_end(events: Seq<EventModel>, cursor: nat, position: nat) -> nat
    decreases events.len() - cursor,
{
    if cursor < events.len() && events[cursor as int].position <= position {
        scan_end(events, cursor + 1, position)
    } else {
        cursor
    }
}

/// The messages of `events[from..to]`, in order.
pub open spec fn messages(events: Seq<EventModel>, from: nat, to: nat) -> Seq<Seq<u8>> {
    Seq::new((to - from) as nat, |i: int| events[from + i].message)
}

/// The scan stops at or behind its start and within the events (or where
/// it started, if that lies behind them); it passes only events at or before
/// `position`, and the event it stops at lies behind `position`.
pub proof fn lemma_scan_end(events: Seq<EventModel>, cursor: nat, position: nat)
    ensures
        cursor <= scan_end(events, cursor, position),
        cursor <= events.len() ==> scan_end(events, cursor, position) <= events.len(),
        cursor > events.len() ==> scan_end(events, cursor, position) == cursor,
        forall|k: int|
            cursor <= k < scan_end(events, cursor, position) ==> events[k].position <= position,
        scan_end(events, cursor, position) < events.len() ==> events[scan_end(
            events,
            cursor,
            position,
        ) as int].position > position,
    decreases events.len() - cursor,
{
    if cursor < events.len() && events[cursor as int].position <= position {
        lemma_scan_end(events, cursor + 1, position);
    }
}

/// Scans `events` from `cursor` for the events that are due at `position`.
/// Returns where the scan stopped and the messages of the events it passed.
pub fn due_events(events: &Vec<LoopEvent>, cursor: usize, position: u64) -> (out: (
    usize,
    Vec<Vec<u8>>,
))
    ensures
        out.0 == scan_end(events_view(events@), cursor as nat, position as nat),
        batch_view(out.1@) == messages(events_view(events@), cursor as nat, out.0 as nat),
{
    let ghost model = events_view(events@);
    let mut next: usize = cursor;
    let mut batch: Vec<Vec<u8>> = Vec::new();
    assert(batch_view(batch@) =~= messages(model, cursor as nat, next as nat));
    while next < events.len() && events[next].clock_position <= position
        invariant
            model == events_view(events@),
            cursor <= next,
            scan_end(model, cursor as nat, position as nat) == scan_end(
                model,
                next as nat,
                position as nat,
            ),
            batch_view(batch@) == messages(model, cursor as nat, next as nat),
        decreases events.len() - next,
    {
        let message: Vec<u8> = events[next].message.clone();
        assert(message@ == model[next as int].message);
        let ghost earlier = batch_view(batch@);
        batch.push(message);
        next += 1;
        assert(batch_view(batch@) =~= messages(model, cursor as nat, next as nat)) by {
            assert(batch_view(batch@) =~= earlier.push(message@));
        }
    }
    (next, batch)
}

/// The mathematical content of a [`SequencePlayer`].
pub struct PlayerModel {
    /// The linear sequence, if one is loaded.
    pub sequence: Option<Seq<EntryModel>>,
    /// The entry of the linear sequence that plays.
    pub entry: nat,
    /// The slot grid, if one is loaded. While it is, it is what plays.
    pub grid: Option<GridModel>,
    /// The slot that plays (`None`: the grid has come to a stop).
    pub current_slot: Option<SlotId>,
    /// The lap of the active loop that plays, counted from zero.
    pub iteration: nat,
    /// The next event of the active loop that has not been handed out.
    pub cursor: nat,
    /// The pulse count at which the first lap of the active loop began.
    pub lap_origin: nat,
    /// Whether playback is switched on.
    pub playing: bool,
}

/// What is playing: a loop and the number of laps it plays.
pub struct ActiveLoop {
    pub looped: LoopModel,
    pub repeat_count: nat,
}

impl PlayerModel {
    /// The player before anything is loaded.
    pub open spec fn initial() -> PlayerModel {
        PlayerModel {
            sequence: None,
            entry: 0,
            grid: None,
            current_slot: None,
            iteration: 0,
            cursor: 0,
            lap_origin: 0,
            playing: false,
        }
    }

    /// Whether the state is sound: a sound grid and a current slot within
    /// it, a current entry within the sequence, and a lap count short of the
    /// end of 32 bits.
    pub open spec fn wf(self) -> bool {
        &&& self.grid matches Some(grid) ==> grid.wf()
        &&& self.current_slot matches Some(id) ==> id.is_valid()
        &&& self.sequence matches Some(entries) ==> (entries.len() > 0 ==> self.entry
            < entries.len())
        &&& self.iteration < u32::MAX
    }

    /// The loop that plays, if any: that of the current slot while a grid
    /// is loaded, else that of the current entry of the sequence.
    pub open spec fn active(self) -> Option<ActiveLoop> {
        match self.grid {
            Some(grid) => match self.current_slot {
                Some(id) => match grid.slot(id).loop_data {
                    Some(looped) => Some(
                        ActiveLoop { looped, repeat_count: grid.slot(id).repeat_count },
                    ),
                    None => None,
                },
                None => None,
            },
            None => match self.sequence {
                Some(entries) => if entries.len() == 0 {
                    None
                } else {
                    Some(
                        ActiveLoop {
                            looped: entries[self.entry as int].loop_data,
                            repeat_count: entries[self.entry as int].repeat_count,
                        },
                    )
                },
                None => None,
            },
        }
    }

    /// The player at the start of playback: first entry, first lap, nothing
    /// handed out, laps counted from pulse zero. The current slot stays.
    pub open spec fn rewound(self) -> PlayerModel {
        PlayerModel { entry: 0, iteration: 0, cursor: 0, lap_origin: 0, ..self }
    }

    /// The player back at the grid's start slot at the pulse count
    /// `pulse`: on its first lap, with nothing handed out, and with laps
    /// counted from `pulse`. Without a grid the current slot stays.
    pub open spec fn at_start_slot(self, pulse: nat) -> PlayerModel {
        PlayerModel {
            current_slot: match self.grid {
                Some(grid) => Some(grid.start_slot),
                None => self.current_slot,
            },
            iteration: 0,
            cursor: 0,
            lap_origin: pulse,
            ..self
        }
    }

    /// The player after [`SequencePlayer::reset`]: at the start slot of the
    /// grid and at the first entry of the sequence, with laps counted from
    /// pulse zero, the count that a transport START leaves.
    pub open spec fn reset(self) -> PlayerModel {
        PlayerModel { entry: 0, ..self.at_start_slot(0) }
    }

    /// The player with `sequence` loaded.
    pub open spec fn with_sequence(self, sequence: Seq<EntryModel>) -> PlayerModel {
        PlayerModel { sequence: Some(sequence), ..self.rewound() }
    }

    /// The player with `grid` loaded in place of everything else.
    pub open spec fn with_grid(self, grid: GridModel) -> PlayerModel {
        PlayerModel {
            sequence: None,
            grid: Some(grid),
            current_slot: Some(grid.start_slot),
            iteration: 0,
            cursor: 0,
            lap_origin: 0,
            ..self
        }
    }

    /// The player with `grid` swapped in at the pulse count `pulse`, while
    /// it plays: the place in the current slot is kept, unless that slot
    /// has no loop in the new grid; then the player goes back to the start
    /// slot, with laps counted from `pulse`.
    pub open spec fn with_grid_swapped(self, grid: GridModel, pulse: nat) -> PlayerModel {
        let swapped = PlayerModel { grid: Some(grid), ..self };
        match self.current_slot {
            Some(id) => if grid.slot(id).loop_data.is_none() {
                swapped.at_start_slot(pulse)
            } else {
                swapped
            },
            None => swapped,
        }
    }

    /// The player moved on at `pulse`: to the slot that the current slot
    /// points to (to none, if it points to none), or to the entry behind the
    /// current one, the first following the last; at the first lap, nothing
    /// handed out, laps counted from `pulse`.
    pub open spec fn advanced(self, pulse: nat) -> PlayerModel {
        let moved = match self.grid {
            Some(grid) => match self.current_slot {
                Some(id) => PlayerModel { current_slot: grid.slot(id).next_slot, ..self },
                None => self,
            },
            None => match self.sequence {
                Some(entries) => if entries.len() == 0 {
                    self
                } else {
                    PlayerModel { entry: (self.entry + 1) % entries.len(), ..self }
                },
                None => self,
            },
        };
        PlayerModel { iteration: 0, cursor: 0, lap_origin: pulse, ..moved }
    }

    /// The player after handing out what is due at `position` of the
    /// active loop, and the messages handed out: those of the events from the
    /// cursor up to where the scan stops.
    pub open spec fn collected(self, position: nat) -> (PlayerModel, Seq<Seq<u8>>) {
        match self.active() {
            Some(active) => {
                let end = scan_end(active.looped.events, self.cursor, position);
                (
                    PlayerModel { cursor: end, ..self },
                    messages(active.looped.events, self.cursor, end),
                )
            },
            None => (self, Seq::empty()),
        }
    }

    /// The player after the pulse numbered `pulse`, and the messages due
    /// at that pulse.
    ///
    /// Nothing happens while playback is off, while nothing is active, and
    /// for a loop of length zero. Else the pulses since the lap origin (none,
    /// if the count has fallen behind it) give the lap and the position in
    /// the loop. A lap at or past the repeat count moves the player on, and
    /// what is due at position zero of the new loop is handed out. A lap past
    /// the one on record starts the loop over. Then what is due at the
    /// position is handed out.
    pub open spec fn ticked(self, pulse: nat) -> (PlayerModel, Seq<Seq<u8>>) {
        if !self.playing {
            (self, Seq::empty())
        } else {
            match self.active() {
                None => (self, Seq::empty()),
                Some(active) => if active.looped.length == 0 {
                    (self, Seq::empty())
                } else {
                    let elapsed = if pulse >= self.lap_origin {
                        (pulse - self.lap_origin) as nat
                    } else {
                        0
                    };
                    let lap = elapsed / active.looped.length;
                    let position = elapsed % active.looped.length;
                    if lap >= active.repeat_count {
                        self.advanced(pulse).collected(0)
                    } else if lap > self.iteration {
                        PlayerModel { iteration: lap, cursor: 0, ..self }.collected(position)
                    } else {
                        self.collected(position)
                    }
                },
            }
        }
    }
}

/// Plays a sequence of loops, or a slot grid, pulse by pulse.
pub struct SequencePlayer {
    sequence: Option<Sequence>,
    current_entry_idx: usize,
    grid: Option<SequenceGrid>,
    current_slot: Option<SlotId>,
    current_iteration: u32,
    next_event_idx: usize,
    loop_start_clock: u64,
    /// Whether playback is switched on.
    pub playing: bool,
}

impl View for SequencePlayer {
    type V = PlayerModel;

    closed spec fn view(&self) -> PlayerModel {
        PlayerModel {
            sequence: match self.sequence {
                Some(sequence) => Some(sequence@),
                None => None,
            },
            entry: self.current_entry_idx as nat,
            grid: match self.grid {
                Some(grid) => Some(grid@),
                None => None,
            },
            current_slot: self.current_slot,
            iteration: self.current_iteration as nat,
            cursor: self.next_event_idx as nat,
            lap_origin: self.loop_start_clock as nat,
            playing: self.playing,
        }
    }
}

impl SequencePlayer {
    /// A player with nothing loaded and playback off.
    pub fn new() -> (player: Self)
        ensures
            player@ == PlayerModel::initial(),
            player@.wf(),
    {
        SequencePlayer {
            sequence: None,
            current_entry_idx: 0,
            grid: None,
            current_slot: None,
            current_iteration: 0,
            next_event_idx: 0,
            loop_start_clock: 0,
            playing: false,
        }
    }

    /// Loads a linear sequence and rewinds to its first entry.
    pub fn load(&mut self, sequence: Sequence)
        requires
            old(self)@.wf(),
        ensures
            final(self)@ == old(self)@.with_sequence(sequence@),
            final(self)@.wf(),
    {
        self.sequence = Some(sequence);
        self.current_entry_idx = 0;
        self.current_iteration = 0;
        self.next_event_idx = 0;
        self.loop_start_clock = 0;
    }

    /// Rewinds to the first entry and switches playback on.
    pub fn start(&mut self)
        requires
            old(self)@.wf(),
        ensures
            final(self)@ == (PlayerModel { playing: true, ..old(self)@.rewound() }),
            final(self)@.wf(),
    {
        self.current_entry_idx = 0;
        self.current_iteration = 0;
        self.next_event_idx = 0;
        self.loop_start_clock = 0;
        self.playing = true;
    }

    /// Switches playback off.
    pub fn stop(&mut self)
        ensures
            final(self)@ == (PlayerModel { playing: false, ..old(self)@ }),
            old(self)@.wf() ==> final(self)@.wf(),
    {
        self.playing = false;
    }

    /// Goes back to the beginning, as a transport START demands: to the
    /// grid's start slot and the sequence's first entry, at the first lap,
    /// with laps counted from pulse zero.
    pub fn reset(&mut self)
        requires
            old(self)@.wf(),
        ensures
            final(self)@ == old(self)@.reset(),
            final(self)@.wf(),
    {
        self.current_entry_idx = 0;
        self.reset_grid(0);
    }

    /// The name of the sequence entry that plays, if a sequence is loaded
    /// and has one.
    pub fn current_loop_name(&self) -> (name: Option<&str>)
        requires
            self@.wf(),
        ensures
            match self@.sequence {
                Some(entries) => if entries.len() > 0 {
                    name matches Some(text) && text@ == entries[self@.entry as int].loop_data.name
                } else {
                    name.is_none()
                },
                None => name.is_none(),
            },
    {
        match &self.sequence {
            Some(sequence) => {
                if self.current_entry_idx < sequence.entries.len() {
                    Some(sequence.entries[self.current_entry_idx].loop_data.name.as_str())
                } else {
                    None
                }
            },
            None => None,
        }
    }

    /// The entry that plays, its lap counted from one, and its repeat
    /// count, if a sequence is loaded and has an entry.
    pub fn current_state(&self) -> (state: Option<(usize, u32, u32)>)
        requires
            self@.wf(),
        ensures
            match self@.sequence {
                Some(entries) => if entries.len() > 0 {
                    state matches Some(found) && found.0 == self@.entry && found.1
                        == self@.iteration + 1 && found.2 == entries[self@.entry as int].repeat_count
                } else {
                    state.is_none()
                },
                None => state.is_none(),
            },
    {
        match &self.sequence {
            Some(sequence) => {
                if self.current_entry_idx < sequence.entries.len() {
                    Some(
                        (
                            self.current_entry_idx,
                            self.current_iteration + 1,
                            sequence.entries[self.current_entry_idx].repeat_count,
                        ),
                    )
                } else {
                    None
                }
            },
            None => None,
        }
    }

    /// Loads a grid in place of everything else, and goes to its start slot.
    pub fn load_grid(&mut self, grid: SequenceGrid)
        requires
            old(self)@.wf(),
            grid@.wf(),
        ensures
            final(self)@ == old(self)@.with_grid(grid@),
            final(self)@.wf(),
    {
        self.current_slot = Some(grid.start_slot);
        self.grid = Some(grid);
        self.current_iteration = 0;
        self.next_event_idx = 0;
        self.loop_start_clock = 0;
        self.sequence = None;
    }

    /// Swaps in a new grid while playing, at the pulse count `clock_count`.
    /// The place in the current slot is kept, unless the new grid has no
    /// loop in that slot; then the player goes back to the start slot, and
    /// its laps are counted from `clock_count`.
    pub fn update_grid(&mut self, grid: SequenceGrid, clock_count: u64)
        requires
            old(self)@.wf(),
            grid@.wf(),
        ensures
            final(self)@ == old(self)@.with_grid_swapped(grid@, clock_count as nat),
            final(self)@.wf(),
    {
        let cleared: bool = match self.current_slot {
            Some(id) => !grid.get(id).has_loop(),
            None => false,
        };
        self.grid = Some(grid);
        if cleared {
            self.reset_grid(clock_count);
        }
    }

    /// Goes back to the grid's start slot at the pulse count `clock_count`:
    /// to its first lap, with nothing handed out and laps counted from
    /// `clock_count`. Without a grid the current slot stays.
    pub fn reset_grid(&mut self, clock_count: u64)
        requires
            old(self)@.wf(),
        ensures
            final(self)@ == old(self)@.at_start_slot(clock_count as nat),
            final(self)@.wf(),
    {
        match &self.grid {
            Some(grid) => {
                self.current_slot = Some(grid.start_slot);
            },
            None => {},
        }
        self.current_iteration = 0;
        self.next_event_idx = 0;
        self.loop_start_clock = clock_count;
    }

    /// The slot that plays, its lap counted from one, and its repeat
    /// count, if a grid is loaded and has not come to a stop.
    pub fn grid_playback_state(&self) -> (state: Option<PlaybackState>)
        requires
            self@.wf(),
        ensures
            match (self@.grid, self@.current_slot) {
                (Some(grid), Some(id)) => state matches Some(found) && found.current_slot == id
                    && found.current_iteration == self@.iteration + 1 && found.total_iterations
                    == grid.slot(id).repeat_count,
                _ => state.is_none(),
            },
    {
        match (&self.grid, self.current_slot) {
            (Some(grid), Some(id)) => Some(
                PlaybackState {
                    current_slot: id,
                    current_iteration: self.current_iteration + 1,
                    total_iterations: grid.get(id).repeat_count,
                },
            ),
            _ => None,
        }
    }

    /// The slot that plays after the current one, if a grid is loaded, has
    /// not come to a stop, and the current slot points to one.
    pub fn next_slot_id(&self) -> (next: Option<SlotId>)
        requires
            self@.wf(),
        ensures
            next == (match (self@.grid, self@.current_slot) {
                (Some(grid), Some(id)) => grid.slot(id).next_slot,
                _ => None,
            }),
    {
        match (&self.grid, self.current_slot) {
            (Some(grid), Some(id)) => grid.get(id).next_slot,
            _ => None,
        }
    }

    /// The slot that plays.
    pub fn current_slot_id(&self) -> (id: Option<SlotId>)
        ensures
            id == self@.current_slot,
    {
        self.current_slot
    }

    /// Whether a grid is loaded.
    pub fn is_grid_mode(&self) -> (grid_mode: bool)
        ensures
            grid_mode == self@.grid.is_some(),
    {
        self.grid.is_some()
    }

    /// Takes the pulse numbered `clock_count` and returns the messages due
    /// at it, in playing order.
    pub fn tick(&mut self, clock_count: u64) -> (batch: Vec<Vec<u8>>)
        requires
            old(self)@.wf(),
        ensures
            final(self)@ == old(self)@.ticked(clock_count as nat).0,
            batch_view(batch@) == old(self)@.ticked(clock_count as nat).1,
            final(self)@.wf(),
    {
        if !self.playing {
            let batch: Vec<Vec<u8>> = Vec::new();
            assert(batch_view(batch@) =~= Seq::empty());
            return batch;
        }
        let shape: Option<(u64, u32)> = match self.active() {
            Some(active) => Some((active.0.length_clocks, active.1)),
            None => None,
        };
        match shape {
            None => {
                let batch: Vec<Vec<u8>> = Vec::new();
                assert(batch_view(batch@) =~= Seq::empty());
                batch
            },
            Some((length_clocks, repeat_count)) => {
                if length_clocks == 0 {
                    let batch: Vec<Vec<u8>> = Vec::new();
                    assert(batch_view(batch@) =~= Seq::empty());
                    return batch;
                }
                let elapsed: u64 = if clock_count >= self.loop_start_clock {
                    clock_count - self.loop_start_clock
                } else {
                    0
                };
                let position_in_loop: u64 = elapsed % length_clocks;
                let iteration: u64 = elapsed / length_clocks;
                if iteration >= repeat_count as u64 {
                    self.advance(clock_count);
                    return self.collect_events_at_position(0);
                }
                if iteration as u32 > self.current_iteration {
                    self.current_iteration = iteration as u32;
                    self.next_event_idx = 0;
                }
                self.collect_events_at_position(position_in_loop)
            },
        }
    }

    /// The loop that plays and its repeat count.
    fn active(&self) -> (out: Option<(&Loop, u32)>)
        requires
            self@.wf(),
        ensures
            match out {
                Some(found) => self@.active() == Some(
                    ActiveLoop { looped: found.0@, repeat_count: found.1 as nat },
                ),
                None => self@.active().is_none(),
            },
    {
        match &self.grid {
            Some(grid) => match self.current_slot {
                Some(id) => {
                    let slot = grid.get(id);
                    match &slot.loop_data {
                        Some(looped) => Some((looped, slot.repeat_count)),
                        None => None,
                    }
                },
                None => None,
            },
            None => match &self.sequence {
                Some(sequence) => {
                    if sequence.entries.len() == 0 {
                        None
                    } else {
                        let entry = &sequence.entries[self.current_entry_idx];
                        Some((&entry.loop_data, entry.repeat_count))
                    }
                },
                None => None,
            },
        }
    }

    /// Moves on to the next slot of the grid, or the next entry of the
    /// sequence, at `clock_count`.
    fn advance(&mut self, clock_count: u64)
        requires
            old(self)@.wf(),
        ensures
            final(self)@ == old(self)@.advanced(clock_count as nat),
            final(self)@.wf(),
    {
        if self.grid.is_some() {
            self.advance_to_next_slot();
        } else {
            self.advance_to_next_entry();
        }
        self.current_iteration = 0;
        self.next_event_idx = 0;
        self.loop_start_clock = clock_count;
    }

    /// Follows the current slot's pointer.
    fn advance_to_next_slot(&mut self)
        requires
            old(self)@.wf(),
            old(self)@.grid.is_some(),
        ensures
            final(self)@ == (match old(self)@.current_slot {
                Some(id) => PlayerModel {
                    current_slot: old(self)@.grid->0.slot(id).next_slot,
                    ..old(self)@
                },
                None => old(self)@,
            }),
            final(self)@.wf(),
    {
        match (&self.grid, self.current_slot) {
            (Some(grid), Some(id)) => {
                let next: Option<SlotId> = grid.get(id).next_slot;
                assert(grid@.slots[id.place()].wf());
                self.current_slot = next;
            },
            _ => {},
        }
    }

    /// Steps to the entry behind the current one, the first following the
    /// last.
    fn advance_to_next_entry(&mut self)
        requires
            old(self)@.wf(),
        ensures
            final(self)@ == (match old(self)@.sequence {
                Some(entries) => if entries.len() == 0 {
                    old(self)@
                } else {
                    PlayerModel {
                        entry: (old(self)@.entry + 1) % entries.len(),
                        ..old(self)@
                    }
                },
                None => old(self)@,
            }),
            final(self)@.wf(),
    {
        let count: usize = match &self.sequence {
            Some(sequence) => sequence.entries.len(),
            None => 0,
        };
        if count > 0 {
            self.current_entry_idx = (self.current_entry_idx + 1) % count;
        }
    }

    /// Hands out what is due at `position` of the active loop.
    fn collect_events_at_position(&mut self, position: u64) -> (batch: Vec<Vec<u8>>)
        requires
            old(self)@.wf(),
        ensures
            final(self)@ == old(self)@.collected(position as nat).0,
            batch_view(batch@) == old(self)@.collected(position as nat).1,
            final(self)@.wf(),
    {
        let found: Option<(usize, Vec<Vec<u8>>)> = match self.active() {
            Some(active) => Some(due_events(&active.0.events, self.next_event_idx, position)),
            None => None,
        };
        match found {
            Some((end, batch)) => {
                self.next_event_idx = end;
                batch
            },
            None => {
                let batch: Vec<Vec<u8>> = Vec::new();
                assert(batch_view(batch@) =~= Seq::empty());
                batch
            },
        }
    }
}

impl Default for SequencePlayer {
    fn default() -> (player: Self)
        ensures
            player@ == PlayerModel::initial(),
            player@.wf(),
    {
        SequencePlayer::new()
    }
}

} // verus!
