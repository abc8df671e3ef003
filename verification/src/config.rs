//! The looper's settings: output device and channel, and what each slot of
//! the grid is to hold.

use std::collections::BTreeMap;
use vstd::prelude::*;

verus! {

/// What one slot is to hold.
#[derive(Debug)]
pub struct SlotConfig {
    /// File of the loop, if the slot has one.
    pub loop_file: Option<String>,
    /// Laps to play before the next slot takes over.
    pub repeat_count: u32,
    /// Letter of the slot that plays next, if any.
    pub next_slot: Option<char>,
}

/// The mathematical content of a [`SlotConfig`].
pub struct SlotConfigModel {
    pub loop_file: Option<Seq<char>>,
    pub repeat_count: u32,
    pub next_slot: Option<char>,
}

impl SlotConfigModel {
    /// The settings of a slot that nothing has been said about: no loop,
    /// one lap, no successor.
    pub open spec fn default() -> SlotConfigModel {
        SlotConfigModel { loop_file: None, repeat_count: 1, next_slot: None }
    }
}

impl View for SlotConfig {
    type V = SlotConfigModel;

    open spec fn view(&self) -> SlotConfigModel {
        SlotConfigModel {
            loop_file: match self.loop_file {
                Some(file) => Some(file@),
                None => None,
            },
            repeat_count: self.repeat_count,
            next_slot: self.next_slot,
        }
    }
}

/// The repeat count of a slot that names none.
pub fn default_repeat_count() -> (count: u32)
    ensures
        count == 1,
{
    1
}

/// The output channel of a configuration that names none, counted from one.
pub fn default_channel() -> (channel: u8)
    ensures
        channel == 1,
{
    1
}

impl Default for SlotConfig {
    fn default() -> (config: Self)
        ensures
            config@ == SlotConfigModel::default(),
    {
        SlotConfig { loop_file: None, repeat_count: default_repeat_count(), next_slot: None }
    }
}

impl Clone for SlotConfig {
    fn clone(&self) -> (out: Self)
        ensures
            out@ == self@,
    {
        let loop_file: Option<String> = match &self.loop_file {
            Some(file) => Some(file.clone()),
            None => None,
        };
        SlotConfig { loop_file, repeat_count: self.repeat_count, next_slot: self.next_slot }
    }
}

impl SlotConfig {
    /// Whether these are the settings of a slot that nothing has been said
    /// about.
    pub fn is_default(&self) -> (is_default: bool)
        ensures
            is_default == (self@ == SlotConfigModel::default()),
    {
        self.loop_file.is_none() && self.repeat_count == 1 && self.next_slot.is_none()
    }
}

/// The looper's settings.
#[derive(Debug)]
pub struct LooperConfig {
    /// Name of the MIDI output device.
    pub output_device: Option<String>,
    /// MIDI output channel, counted from one (1 to 16).
    pub output_channel: u8,
    /// Whether the countdown display ends at 0.0 rather than at 1.1.
    pub zero_indexed_countdown: bool,
    /// The settings of the slots that differ from the default, under the
    /// code points of their letters.
    pub slots: BTreeMap<u32, SlotConfig>,
}

/// The mathematical content of a [`LooperConfig`].
pub struct ConfigModel {
    pub output_device: Option<Seq<char>>,
    pub output_channel: u8,
    pub zero_indexed_countdown: bool,
    pub slots: Map<char, SlotConfigModel>,
}

impl ConfigModel {
    /// The settings of the slot `slot_id`: those stored for it, else the
    /// default.
    pub open spec fn slot(self, slot_id: char) -> SlotConfigModel {
        if self.slots.contains_key(slot_id) {
            self.slots[slot_id]
        } else {
            SlotConfigModel::default()
        }
    }

    /// The settings with those of `slot_id` set to `config`. Default
    /// settings are not stored: they remove what was stored.
    pub open spec fn with_slot(self, slot_id: char, config: SlotConfigModel) -> ConfigModel {
        ConfigModel {
            slots: if config == SlotConfigModel::default() {
                self.slots.remove(slot_id)
            } else {
                self.slots.insert(slot_id, config)
            },
            ..self
        }
    }
}

impl View for LooperConfig {
    type V = ConfigModel;

    open spec fn view(&self) -> ConfigModel {
        ConfigModel {
            output_device: match self.output_device {
                Some(device) => Some(device@),
                None => None,
            },
            output_channel: self.output_channel,
            zero_indexed_countdown: self.zero_indexed_countdown,
            slots: Map::new(
                |c: char| self.slots@.contains_key(c as u32),
                |c: char| self.slots@[c as u32]@,
            ),
        }
    }
}

impl Default for LooperConfig {
    /// No device, channel zero, countdown from 1.1, every slot at its
    /// default.
    fn default() -> (config: Self)
        ensures
            config@ == (ConfigModel {
                output_device: None,
                output_channel: 0,
                zero_indexed_countdown: false,
                slots: Map::empty(),
            }),
    {
        let config = LooperConfig {
            output_device: None,
            output_channel: 0,
            zero_indexed_countdown: false,
            slots: BTreeMap::new(),
        };
        assert(config@.slots =~= Map::empty());
        config
    }
}

impl Clone for LooperConfig {
    fn clone(&self) -> (out: Self)
        ensures
            out@ == self@,
    {
        let output_device: Option<String> = match &self.output_device {
            Some(device) => Some(device.clone()),
            None => None,
        };
        let out = LooperConfig {
            output_device,
            output_channel: self.output_channel,
            zero_indexed_countdown: self.zero_indexed_countdown,
            slots: self.slots.clone(),
        };
        assert(out@.slots =~= self@.slots);
        out
    }
}

impl LooperConfig {
    /// The settings of the slot `slot_id`: those stored for it, else the
    /// default.
    pub fn get_slot(&self, slot_id: char) -> (config: SlotConfig)
        ensures
            config@ == self@.slot(slot_id),
    {
        broadcast use vstd::std_specs::btree::group_btree_axioms;

        let key: u32 = slot_id as u32;
        match self.slots.get(&key) {
            Some(stored) => stored.clone(),
            None => SlotConfig::default(),
        }
    }

    /// Sets the settings of the slot `slot_id`. Default settings are not
    /// stored: they remove what was stored for the slot.
    pub fn set_slot(&mut self, slot_id: char, config: SlotConfig)
        ensures
            final(self)@ == old(self)@.with_slot(slot_id, config@),
    {
        broadcast use vstd::std_specs::btree::group_btree_axioms;

        let key: u32 = slot_id as u32;
        if !config.is_default() {
            self.slots.insert(key, config);
            proof {
                let wanted = old(self)@.slots.insert(slot_id, config@);
                assert forall|c: char| #[trigger] self@.slots.contains_key(c) == wanted.contains_key(c) by {
                    lemma_same_code(c, slot_id);
                }
                assert forall|c: char| #[trigger] self@.slots.contains_key(c) implies self@.slots[c] == wanted[c] by {
                    lemma_same_code(c, slot_id);
                }
                assert(self@.slots =~= wanted);
            }
        } else {
            self.slots.remove(&key);
            proof {
                let wanted = old(self)@.slots.remove(slot_id);
                assert forall|c: char| #[trigger] self@.slots.contains_key(c) == wanted.contains_key(c) by {
                    lemma_same_code(c, slot_id);
                }
                assert forall|c: char| #[trigger] self@.slots.contains_key(c) implies self@.slots[c] == wanted[c] by {
                    lemma_same_code(c, slot_id);
                }
                assert(self@.slots =~= wanted);
            }
        }
    }
}

/// Two characters with one code point are one character.
proof fn lemma_same_code(a: char, b: char)
    ensures
        (a as u32 == b as u32) == (a == b),
{
}

/// What is set for a slot is what is read back for it, and no other slot
/// is touched.
pub proof fn lemma_set_then_get(config: ConfigModel, slot_id: char, slot: SlotConfigModel, other: char)
    requires
        other != slot_id,
    ensures
        config.with_slot(slot_id, slot).slot(slot_id) == slot,
        config.with_slot(slot_id, slot).slot(other) == config.slot(other),
{
}

} // verus!
