//! The slot grid: 26 slots, A to Z, each with a loop, a repeat count and a
//! pointer to the slot that plays next.

use crate::playback::loops::Loop;
use crate::playback::loops::LoopModel;
use crate::text::decimal;
use crate::text::decimal_string;
use vstd::prelude::*;
use vstd::string::StringExecFns;

verus! {

/// Number of slots in a grid.
pub const SLOT_COUNT: usize = 26;

/// A slot identifier: one of the letters A to Z.
#[derive(Debug, Clone, Copy, PartialEq, Eq, Hash, Structural)]
pub struct SlotId(pub char);

impl SlotId {
    /// Whether the identifier is one of the 26 letters.
    pub open spec fn is_valid(self) -> bool {
        0x41 <= self.0 as u32 <= 0x5A
    }

    /// The place of the identifier in a grid: 0 for A, 25 for Z.
    pub open spec fn place(self) -> int {
        self.0 as u32 - 0x41
    }

    /// The identifier at `place`.
    pub open spec fn at(place: int) -> SlotId {
        SlotId(((0x41 + place) as u8) as char)
    }

    /// Decides [`SlotId::is_valid`].
    pub fn check_valid(&self) -> (valid: bool)
        ensures
            valid == self.is_valid(),
    {
        let code: u32 = self.0 as u32;
        0x41 <= code && code <= 0x5A
    }

    /// The place of the identifier in a grid: 0 for A, 25 for Z.
    pub fn index(&self) -> (place: usize)
        requires
            self.is_valid(),
        ensures
            place == self.place(),
            place < 26,
            SlotId::at(place as int) == *self,
    {
        (self.0 as usize) - 0x41
    }

    /// The identifier at `idx`, if there is one.
    pub fn from_index(idx: usize) -> (id: Option<SlotId>)
        ensures
            idx < 26 ==> id == Some(SlotId::at(idx as int)),
            idx >= 26 ==> id.is_none(),
    {
        if idx < 26 {
            Some(SlotId((0x41u8 + idx as u8) as char))
        } else {
            None
        }
    }

    /// The identifier as text: its letter.
    pub fn to_text(&self) -> (text: String)
        requires
            self.is_valid(),
        ensures
            text@ == seq![self.0],
    {
        let letters: &'static str = "ABCDEFGHIJKLMNOPQRSTUVWXYZ";
        proof {
            reveal_strlit("ABCDEFGHIJKLMNOPQRSTUVWXYZ");
        }
        let place: usize = self.index();
        assert(letters.is_ascii()) by {
            assert(forall|i: int| 0 <= i < letters@.len() ==> letters@[i] as u32 <= 0x7F);
        }
        let letter: &str = letters.substring_ascii(place, place + 1);
        assert(letter@ =~= seq![self.0]);
        String::from_str(letter)
    }
}

/// Places and identifiers correspond one to one.
pub proof fn lemma_slot_places(id: SlotId, place: int)
    ensures
        id.is_valid() ==> 0 <= id.place() < 26 && SlotId::at(id.place()) == id,
        0 <= place < 26 ==> SlotId::at(place).is_valid() && SlotId::at(place).place() == place,
{
}

/// One slot of the grid.
#[derive(Debug)]
pub struct SequenceSlot {
    /// The slot's identifier.
    pub id: SlotId,
    /// The loop in the slot, if any.
    pub loop_data: Option<Loop>,
    /// Laps to play before the next slot takes over.
    pub repeat_count: u32,
    /// The slot that plays next (`None`: the sequencer falls silent).
    pub next_slot: Option<SlotId>,
}

/// The mathematical content of a [`SequenceSlot`].
pub struct SlotModel {
    pub id: SlotId,
    pub loop_data: Option<LoopModel>,
    pub repeat_count: nat,
    pub next_slot: Option<SlotId>,
}

impl SlotModel {
    /// An empty slot: no loop, one lap, no successor.
    pub open spec fn empty(id: SlotId) -> SlotModel {
        SlotModel { id, loop_data: None, repeat_count: 1, next_slot: None }
    }

    /// Whether the slot is sound: its identifier and its successor are
    /// letters, and it plays at least one lap.
    pub open spec fn wf(self) -> bool {
        &&& self.id.is_valid()
        &&& self.repeat_count >= 1
        &&& self.next_slot matches Some(next) ==> next.is_valid()
    }
}

impl View for SequenceSlot {
    type V = SlotModel;

    open spec fn view(&self) -> SlotModel {
        SlotModel {
            id: self.id,
            loop_data: match self.loop_data {
                Some(looped) => Some(looped@),
                None => None,
            },
            repeat_count: self.repeat_count as nat,
            next_slot: self.next_slot,
        }
    }
}

/// The text shown for a slot without a loop.
pub open spec fn placeholder() -> Seq<char> {
    seq!['-', '-']
}

impl SequenceSlot {
    /// An empty slot: no loop, one lap, no successor.
    pub fn empty(id: SlotId) -> (slot: Self)
        ensures
            slot@ == SlotModel::empty(id),
    {
        SequenceSlot { id, loop_data: None, repeat_count: 1, next_slot: None }
    }

    /// The name of the slot's loop, or `--` for a slot without one.
    pub fn loop_name(&self) -> (name: &str)
        ensures
            name@ == (match self@.loop_data {
                Some(looped) => looped.name,
                None => placeholder(),
            }),
    {
        match &self.loop_data {
            Some(looped) => looped.name.as_str(),
            None => {
                proof {
                    reveal_strlit("--");
                }
                assert("--"@ =~= placeholder());
                "--"
            },
        }
    }

    /// The length of the slot's loop in whole bars, in decimal, or `--` for
    /// a slot without one.
    pub fn length_bars(&self) -> (text: String)
        ensures
            text@ == (match self@.loop_data {
                Some(looped) => decimal(looped.length / 96),
                None => placeholder(),
            }),
    {
        match &self.loop_data {
            Some(looped) => decimal_string(looped.length_clocks / 96),
            None => {
                proof {
                    reveal_strlit("--");
                }
                assert("--"@ =~= placeholder());
                String::from_str("--")
            },
        }
    }

    /// Whether the slot holds a loop.
    pub fn has_loop(&self) -> (has: bool)
        ensures
            has == self@.loop_data.is_some(),
    {
        self.loop_data.is_some()
    }

    /// Decides [`SlotModel::wf`].
    pub fn check_wf(&self) -> (wf: bool)
        ensures
            wf == self@.wf(),
    {
        let next_ok: bool = match self.next_slot {
            Some(next) => next.check_valid(),
            None => true,
        };
        self.id.check_valid() && self.repeat_count >= 1 && next_ok
    }
}

impl Clone for SequenceSlot {
    fn clone(&self) -> (out: Self)
        ensures
            out@ == self@,
    {
        let loop_data: Option<Loop> = match &self.loop_data {
            Some(looped) => Some(looped.clone()),
            None => None,
        };
        SequenceSlot {
            id: self.id,
            loop_data,
            repeat_count: self.repeat_count,
            next_slot: self.next_slot,
        }
    }
}

/// The 26 slots and the slot where playback begins.
#[derive(Debug)]
pub struct SequenceGrid {
    /// The slots, A to Z.
    pub slots: [SequenceSlot; 26],
    /// The slot where playback begins.
    pub start_slot: SlotId,
}

/// The mathematical content of a [`SequenceGrid`].
pub struct GridModel {
    pub slots: Seq<SlotModel>,
    pub start_slot: SlotId,
}

impl GridModel {
    /// The grid with 26 empty slots that starts at A.
    pub open spec fn empty() -> GridModel {
        GridModel {
            slots: Seq::new(26, |i: int| SlotModel::empty(SlotId::at(i))),
            start_slot: SlotId::at(0),
        }
    }

    /// Whether the grid is sound: 26 sound slots, each carrying the
    /// identifier of its place, and a start slot among them.
    pub open spec fn wf(self) -> bool {
        &&& self.slots.len() == 26
        &&& self.start_slot.is_valid()
        &&& forall|i: int|
            0 <= i < 26 ==> (#[trigger] self.slots[i]).wf() && self.slots[i].id == SlotId::at(i)
    }

    /// The slot with identifier `id`.
    pub open spec fn slot(self, id: SlotId) -> SlotModel {
        self.slots[id.place()]
    }

    /// The grid with `slot` in the place of `id`.
    pub open spec fn with_slot(self, id: SlotId, slot: SlotModel) -> GridModel {
        GridModel { slots: self.slots.update(id.place(), slot), start_slot: self.start_slot }
    }
}

impl View for SequenceGrid {
    type V = GridModel;

    open spec fn view(&self) -> GridModel {
        GridModel {
            slots: Seq::new(26, |i: int| self.slots@[i]@),
            start_slot: self.start_slot,
        }
    }
}

impl SequenceGrid {
    /// A grid of 26 empty slots that starts at A.
    pub fn new() -> (grid: Self)
        ensures
            grid@ == GridModel::empty(),
            grid@.wf(),
    {
        let grid = SequenceGrid {
            slots: [
                SequenceSlot::empty(SlotId('A')),
                SequenceSlot::empty(SlotId('B')),
                SequenceSlot::empty(SlotId('C')),
                SequenceSlot::empty(SlotId('D')),
                SequenceSlot::empty(SlotId('E')),
                SequenceSlot::empty(SlotId('F')),
                SequenceSlot::empty(SlotId('G')),
                SequenceSlot::empty(SlotId('H')),
                SequenceSlot::empty(SlotId('I')),
                SequenceSlot::empty(SlotId('J')),
                SequenceSlot::empty(SlotId('K')),
                SequenceSlot::empty(SlotId('L')),
                SequenceSlot::empty(SlotId('M')),
                SequenceSlot::empty(SlotId('N')),
                SequenceSlot::empty(SlotId('O')),
                SequenceSlot::empty(SlotId('P')),
                SequenceSlot::empty(SlotId('Q')),
                SequenceSlot::empty(SlotId('R')),
                SequenceSlot::empty(SlotId('S')),
                SequenceSlot::empty(SlotId('T')),
                SequenceSlot::empty(SlotId('U')),
                SequenceSlot::empty(SlotId('V')),
                SequenceSlot::empty(SlotId('W')),
                SequenceSlot::empty(SlotId('X')),
                SequenceSlot::empty(SlotId('Y')),
                SequenceSlot::empty(SlotId('Z')),
            ],
            start_slot: SlotId('A'),
        };
        proof {
            assert(grid@.slots =~= GridModel::empty().slots);
        }
        grid
    }

    /// The slot with identifier `id`.
    pub fn get(&self, id: SlotId) -> (slot: &SequenceSlot)
        requires
            id.is_valid(),
        ensures
            slot@ == self@.slot(id),
            *slot == self.slots@[id.place()],
    {
        &self.slots[id.index()]
    }

    /// The slot with identifier `id`, to be changed in place.
    pub fn get_mut(&mut self, id: SlotId) -> (slot: &mut SequenceSlot)
        requires
            id.is_valid(),
        ensures
            *slot == old(self).slots@[id.place()],
            final(self).slots@ == old(self).slots@.update(id.place(), *final(slot)),
            final(self).start_slot == old(self).start_slot,
    {
        &mut self.slots[id.index()]
    }

    /// Puts `loop_data` into the slot `id`, in place of what was there.
    pub fn load_loop(&mut self, id: SlotId, loop_data: Loop)
        requires
            id.is_valid(),
        ensures
            final(self)@ == old(self)@.with_slot(
                id,
                SlotModel { loop_data: Some(loop_data@), ..old(self)@.slot(id) },
            ),
            old(self)@.wf() ==> final(self)@.wf(),
    {
        let place: usize = id.index();
        self.slots[place].loop_data = Some(loop_data);
        proof {
            assert(self@.slots =~= old(self)@.with_slot(
                id,
                SlotModel { loop_data: Some(loop_data@), ..old(self)@.slot(id) },
            ).slots);
        }
    }

    /// Empties the slot `id` of its loop.
    pub fn clear_loop(&mut self, id: SlotId)
        requires
            id.is_valid(),
        ensures
            final(self)@ == old(self)@.with_slot(
                id,
                SlotModel { loop_data: None, ..old(self)@.slot(id) },
            ),
            old(self)@.wf() ==> final(self)@.wf(),
    {
        let place: usize = id.index();
        self.slots[place].loop_data = None;
        proof {
            assert(self@.slots =~= old(self)@.with_slot(
                id,
                SlotModel { loop_data: None, ..old(self)@.slot(id) },
            ).slots);
        }
    }

    /// Points the slot `id` at the slot to play after it.
    pub fn set_next(&mut self, id: SlotId, next: Option<SlotId>)
        requires
            id.is_valid(),
        ensures
            final(self)@ == old(self)@.with_slot(
                id,
                SlotModel { next_slot: next, ..old(self)@.slot(id) },
            ),
            old(self)@.wf() && (next matches Some(n) ==> n.is_valid()) ==> final(self)@.wf(),
    {
        let place: usize = id.index();
        self.slots[place].next_slot = next;
        proof {
            assert(self@.slots =~= old(self)@.with_slot(
                id,
                SlotModel { next_slot: next, ..old(self)@.slot(id) },
            ).slots);
        }
    }

    /// Sets how many laps the slot `id` plays: `count`, but at least one.
    pub fn set_repeat_count(&mut self, id: SlotId, count: u32)
        requires
            id.is_valid(),
        ensures
            final(self)@ == old(self)@.with_slot(
                id,
                SlotModel {
                    repeat_count: if count >= 1 {
                        count as nat
                    } else {
                        1
                    },
                    ..old(self)@.slot(id)
                },
            ),
            old(self)@.wf() ==> final(self)@.wf(),
    {
        let place: usize = id.index();
        let laps: u32 = if count >= 1 {
            count
        } else {
            1
        };
        self.slots[place].repeat_count = laps;
        proof {
            assert(self@.slots =~= old(self)@.with_slot(
                id,
                SlotModel { repeat_count: laps as nat, ..old(self)@.slot(id) },
            ).slots);
        }
    }

    /// Decides [`GridModel::wf`].
    pub fn check_wf(&self) -> (wf: bool)
        ensures
            wf == self@.wf(),
    {
        if !self.start_slot.check_valid() {
            return false;
        }
        let mut i: usize = 0;
        while i < 26
            invariant
                i <= 26,
                self.start_slot.is_valid(),
                forall|k: int|
                    0 <= k < i ==> (#[trigger] self@.slots[k]).wf() && self@.slots[k].id
                        == SlotId::at(k),
            decreases 26 - i,
        {
            let slot: &SequenceSlot = &self.slots[i];
            let in_place: bool = slot.id.0 as u32 == 0x41 + i as u32;
            if !slot.check_wf() || !in_place {
                assert(self@.slots[i as int] == slot@);
                return false;
            }
            assert(self@.slots[i as int] == slot@);
            i += 1;
        }
        true
    }
}

impl Default for SequenceGrid {
    fn default() -> (grid: Self)
        ensures
            grid@ == GridModel::empty(),
            grid@.wf(),
    {
        SequenceGrid::new()
    }
}

impl Clone for SequenceGrid {
    fn clone(&self) -> (out: Self)
        ensures
            out@ == self@,
    {
        let slots: [SequenceSlot; 26] = self.slots.clone();
        let out = SequenceGrid { slots, start_slot: self.start_slot };
        proof {
            assert(out@.slots =~= self@.slots);
        }
        out
    }
}

/// Where playback stands, for display.
#[derive(Debug, Clone, Copy)]
pub struct PlaybackState {
    /// The slot that plays.
    pub current_slot: SlotId,
    /// The lap of that slot that plays, counted from one.
    pub current_iteration: u32,
    /// The laps that the slot plays in all.
    pub total_iterations: u32,
}

} // verus!
