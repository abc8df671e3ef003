//! What holds of the player over runs of pulses.

use crate::playback::grid::GridModel;
use crate::playback::grid::SlotId;
use crate::playback::loops::ordered;
use crate::playback::loops::EventModel;
use crate::playback::player::messages;
use crate::playback::player::scan_end;
use crate::playback::player::ActiveLoop;
use crate::playback::player::PlayerModel;
use vstd::prelude::*;

verus! {

impl PlayerModel {
    /// The player after `count` pulses in a row, the first numbered `first`.
    pub open spec fn ticked_through(self, first: nat, count: nat) -> PlayerModel
        decreases count,
    {
        if count == 0 {
            self
        } else {
            self.ticked_through(first, (count - 1) as nat).ticked((first + count - 1) as nat).0
        }
    }

    /// The messages handed out at the pulse `first + k` of a run of pulses
    /// in a row that begins at `first`.
    pub open spec fn batch_at(self, first: nat, k: nat) -> Seq<Seq<u8>> {
        self.ticked_through(first, k).ticked(first + k).1
    }

    /// Whether the player stands at the very start of `active`: playing,
    /// with that loop active, on the first lap, with nothing handed out.
    pub open spec fn at_start_of(self, active: ActiveLoop) -> bool {
        &&& self.playing
        &&& self.active() == Some(active)
        &&& active.looped.length > 0
        &&& self.iteration == 0
        &&& self.cursor == 0
    }
}

/// Where the events due at `position` begin when every pulse of a lap is
/// taken in turn: where the scan for the position before stopped.
pub open spec fn due_start(events: Seq<EventModel>, position: nat) -> nat {
    if position == 0 {
        0
    } else {
        scan_end(events, 0, (position - 1) as nat)
    }
}

/// The messages due at `position` when every pulse of a lap is taken in turn.
pub open spec fn due_at(events: Seq<EventModel>, position: nat) -> Seq<Seq<u8>> {
    messages(events, due_start(events, position), scan_end(events, 0, position))
}

/// A scan that is taken up where an earlier scan for an earlier position
/// stopped ends where a single scan would.
pub proof fn lemma_scan_resumes(events: Seq<EventModel>, cursor: nat, earlier: nat, later: nat)
    requires
        earlier <= later,
    ensures
        scan_end(events, scan_end(events, cursor, earlier), later) == scan_end(events, cursor, later),
    decreases events.len() - cursor,
{
    if cursor < events.len() && events[cursor as int].position <= earlier {
        lemma_scan_resumes(events, cursor + 1, earlier, later);
    }
}

/// In ordered events, a scan from the start for `position` stops behind
/// exactly the events at or before `position`.
pub proof fn lemma_scan_of_ordered(events: Seq<EventModel>, position: nat)
    requires
        ordered(events),
    ensures
        scan_end(events, 0, position) <= events.len(),
        forall|i: int|
            0 <= i < events.len() ==> (i < scan_end(events, 0, position) <==> events[i].position
                <= position),
{
    crate::playback::player::lemma_scan_end(events, 0, position);
    let end = scan_end(events, 0, position);
    assert forall|i: int| 0 <= i < events.len() implies (i < end <==> events[i].position
        <= position) by {
        if i >= end {
            assert(events[end as int].position <= events[i].position);
        }
    }
}

/// In ordered events, what is due at `position` when every pulse is taken
/// in turn is the run of all the events at exactly that position: events
/// that share a position are handed out together.
pub proof fn lemma_due_is_position_class(events: Seq<EventModel>, position: nat)
    requires
        ordered(events),
    ensures
        due_start(events, position) <= scan_end(events, 0, position) <= events.len(),
        forall|i: int|
            0 <= i < events.len() ==> (due_start(events, position) <= i < scan_end(
                events,
                0,
                position,
            ) <==> events[i].position == position),
{
    lemma_scan_of_ordered(events, position);
    if position > 0 {
        lemma_scan_of_ordered(events, (position - 1) as nat);
        lemma_scan_resumes(events, 0, (position - 1) as nat, position);
        crate::playback::player::lemma_scan_end(
            events,
            scan_end(events, 0, (position - 1) as nat),
            position,
        );
    }
}

/// In ordered events, a scan from any cursor takes in all or none of the
/// events from the cursor on that share a position.
pub proof fn lemma_same_position_together(
    events: Seq<EventModel>,
    cursor: nat,
    position: nat,
    i: int,
    j: int,
)
    requires
        ordered(events),
        cursor <= i < events.len(),
        cursor <= j < events.len(),
        events[i].position == events[j].position,
    ensures
        i < scan_end(events, cursor, position) <==> j < scan_end(events, cursor, position),
{
    crate::playback::player::lemma_scan_end(events, cursor, position);
    let end = scan_end(events, cursor, position);
    if end < events.len() {
        if i < end && j >= end {
            assert(events[end as int].position <= events[j].position);
        }
        if j < end && i >= end {
            assert(events[end as int].position <= events[i].position);
        }
    }
}

/// How lap and position move from one pulse to the next.
proof fn lemma_next_pulse(k: nat, length: nat)
    requires
        k > 0,
        length > 0,
    ensures
        k % length != 0 ==> (k - 1) / (length as int) == k / length && (k - 1) % (length as int) == k
            % length - 1,
        k % length == 0 ==> (k - 1) / (length as int) == k / length - 1 && (k - 1) % (
        length as int) == length - 1,
{
    vstd::arithmetic::div_mod::lemma_fundamental_div_mod(k as int, length as int);
    vstd::arithmetic::div_mod::lemma_fundamental_div_mod(k - 1, length as int);
    let q = k as int / length as int;
    let r = k as int % length as int;
    if r != 0 {
        vstd::arithmetic::div_mod::lemma_fundamental_div_mod_converse(
            k - 1,
            length as int,
            q,
            r - 1,
        );
    } else {
        assert(length * (q - 1) + (length - 1) == length * q - 1) by (nonlinear_arith);
        vstd::arithmetic::div_mod::lemma_fundamental_div_mod_converse(
            k - 1,
            length as int,
            q - 1,
            length - 1,
        );
    }
}

/// A pulse count below `laps` laps lies in a lap below `laps`.
proof fn lemma_lap_below(k: nat, length: nat, laps: nat)
    requires
        length > 0,
        k < laps * length,
    ensures
        k / length < laps,
{
    vstd::arithmetic::div_mod::lemma_fundamental_div_mod(k as int, length as int);
    let q = k as int / length as int;
    if q >= laps as int {
        assert(length * q >= length * laps) by (nonlinear_arith)
            requires
                q >= laps,
                length > 0,
        ;
        assert(laps * length == length * laps) by (nonlinear_arith);
    }
}

/// Played pulse by pulse from its start, a loop hands out at every pulse
/// of every lap what is due at that pulse's position, the same on each lap,
/// and the player keeps to the loop, counting laps.
///
/// With a repeat count of two: the second lap replays the first.
pub proof fn lemma_laps_replay(player: PlayerModel, active: ActiveLoop, k: nat)
    requires
        player.at_start_of(active),
        k < active.repeat_count * active.looped.length,
    ensures
        player.batch_at(player.lap_origin, k) == due_at(
            active.looped.events,
            k % active.looped.length,
        ),
        player.ticked_through(player.lap_origin, k + 1) == (PlayerModel {
            iteration: k / active.looped.length,
            cursor: scan_end(active.looped.events, 0, k % active.looped.length),
            ..player
        }),
    decreases k,
{
    let events = active.looped.events;
    let length = active.looped.length;
    let origin = player.lap_origin;
    let before = player.ticked_through(origin, k);
    lemma_lap_below(k, length, active.repeat_count);
    if k == 0 {
        assert(before == player);
        assert(0nat / length == 0 && 0nat % length == 0) by (nonlinear_arith)
            requires
                length > 0,
        ;
    } else {
        lemma_laps_replay(player, active, (k - 1) as nat);
        lemma_next_pulse(k, length);
        let earlier_position = ((k - 1) % (length as int)) as nat;
        assert(before == PlayerModel {
            iteration: ((k - 1) / (length as int)) as nat,
            cursor: scan_end(events, 0, earlier_position),
            ..player
        });
        assert(before.active() == Some(active));
        if k % length != 0 {
            lemma_scan_resumes(events, 0, earlier_position, k % length);
        }
    }
    assert(player.ticked_through(origin, k + 1) == before.ticked(origin + k).0);
}

/// A lap replays the lap before it: the same messages at the same places.
pub proof fn lemma_lap_repeats(player: PlayerModel, active: ActiveLoop, k: nat)
    requires
        player.at_start_of(active),
        k + active.looped.length < active.repeat_count * active.looped.length,
    ensures
        player.batch_at(player.lap_origin, k) == player.batch_at(
            player.lap_origin,
            k + active.looped.length,
        ),
{
    let length = active.looped.length;
    lemma_laps_replay(player, active, k);
    lemma_laps_replay(player, active, k + length);
    vstd::arithmetic::div_mod::lemma_mod_add_multiples_vanish(k as int, length as int);
    assert((length + k) % length == k % length);
}

/// On the pulse that ends the last lap, the player moves on, and what it
/// hands out is what is due at the very start of what plays next.
///
/// With a pointer to a slot B: the first messages of B's loop, instead of
/// a further lap.
pub proof fn lemma_handover(player: PlayerModel, active: ActiveLoop)
    requires
        player.at_start_of(active),
        active.repeat_count >= 1,
    ensures
        ({
            let laps = active.repeat_count * active.looped.length;
            let crossing = player.lap_origin + laps;
            let before = player.ticked_through(player.lap_origin, laps);
            &&& before.ticked(crossing) == player.advanced(crossing).collected(0)
            &&& before.ticked(crossing).0.lap_origin == crossing
            &&& before.ticked(crossing).0.iteration == 0
        }),
{
    let length = active.looped.length;
    let laps = active.repeat_count * length;
    let crossing = player.lap_origin + laps;
    assert(laps >= length && laps >= 1) by (nonlinear_arith)
        requires
            laps == active.repeat_count * length,
            active.repeat_count >= 1,
            length > 0,
    ;
    lemma_laps_replay(player, active, (laps - 1) as nat);
    let before = player.ticked_through(player.lap_origin, laps);
    assert(before.active() == Some(active));
    assert(laps / length == active.repeat_count) by {
        vstd::arithmetic::div_mod::lemma_div_multiples_vanish(
            active.repeat_count as int,
            length as int,
        );
        assert(active.repeat_count * length == length * active.repeat_count) by (nonlinear_arith);
    }
    assert(before.advanced(crossing) == player.advanced(crossing));
}

/// In a grid, what is handed out on the pulse that ends the last lap of a
/// slot is the start of the loop in the slot it points to, and nothing
/// where it points to no slot or to a slot without a loop.
pub proof fn lemma_handover_in_grid(player: PlayerModel, grid: GridModel, id: SlotId, crossing: nat)
    requires
        player.grid == Some(grid),
        player.current_slot == Some(id),
    ensures
        ({
            let after = player.advanced(crossing).collected(0);
            &&& after.0.current_slot == grid.slot(id).next_slot
            &&& match grid.slot(id).next_slot {
                Some(next) => match grid.slot(next).loop_data {
                    Some(looped) => after.1 == due_at(looped.events, 0),
                    None => after.1 == Seq::<Seq<u8>>::empty(),
                },
                None => after.1 == Seq::<Seq<u8>>::empty(),
            }
        }),
{
}

/// A grid that has come to a stop stays silent: a pulse changes nothing
/// and hands out nothing.
pub proof fn lemma_stopped_is_silent(player: PlayerModel, pulse: nat)
    requires
        player.grid.is_some(),
        player.current_slot.is_none(),
    ensures
        player.ticked(pulse) == (player, Seq::<Seq<u8>>::empty()),
{
}

/// A grid that has come to a stop stays silent through any run of
/// pulses: the player does not change, and every batch is empty.
pub proof fn lemma_stopped_stays_silent(player: PlayerModel, first: nat, count: nat, k: nat)
    requires
        player.grid.is_some(),
        player.current_slot.is_none(),
    ensures
        player.ticked_through(first, count) == player,
        player.batch_at(first, k) == Seq::<Seq<u8>>::empty(),
    decreases count,
{
    if count > 0 {
        lemma_stopped_stays_silent(player, first, (count - 1) as nat, k);
    } else {
        lemma_stopped_stays_silent_upto(player, first, k);
    }
}

/// A stopped grid is unchanged by a run of pulses.
proof fn lemma_stopped_stays_silent_upto(player: PlayerModel, first: nat, count: nat)
    requires
        player.grid.is_some(),
        player.current_slot.is_none(),
    ensures
        player.ticked_through(first, count) == player,
    decreases count,
{
    if count > 0 {
        lemma_stopped_stays_silent_upto(player, first, (count - 1) as nat);
    }
}

/// A slot that points to no slot brings the grid to a stop once its laps
/// are played: the pulse that ends its last lap hands out nothing and leaves
/// no current slot.
pub proof fn lemma_exhaustion_stops(player: PlayerModel, grid: GridModel, id: SlotId, pulse: nat)
    requires
        player.playing,
        player.grid == Some(grid),
        player.current_slot == Some(id),
        grid.slot(id).next_slot.is_none(),
        grid.slot(id).loop_data matches Some(looped) && looped.length > 0 && pulse
            >= player.lap_origin && (pulse - player.lap_origin) / (looped.length as int)
            >= grid.slot(id).repeat_count,
    ensures
        player.ticked(pulse).0.current_slot.is_none(),
        player.ticked(pulse).0.grid == Some(grid),
        player.ticked(pulse).1 == Seq::<Seq<u8>>::empty(),
{
}

/// A reset puts the player at the grid's start slot, on the first lap,
/// with nothing handed out, wherever it stood.
pub proof fn lemma_reset_returns_to_start(player: PlayerModel, grid: GridModel)
    requires
        player.grid == Some(grid),
    ensures
        player.reset().current_slot == Some(grid.start_slot),
        player.reset().iteration == 0,
        player.reset().cursor == 0,
        player.reset().lap_origin == 0,
        player.reset().entry == 0,
        player.reset().grid == player.grid,
        player.reset().sequence == player.sequence,
        player.reset().playing == player.playing,
{
}

/// A reset of the grid at a pulse count puts the player at the start slot,
/// on the first lap, with nothing handed out and laps counted from that
/// count, wherever it stood; grid, sequence and playback switch stay.
pub proof fn lemma_reset_grid_returns_to_start(player: PlayerModel, grid: GridModel, pulse: nat)
    requires
        player.grid == Some(grid),
    ensures
        player.at_start_slot(pulse).current_slot == Some(grid.start_slot),
        player.at_start_slot(pulse).iteration == 0,
        player.at_start_slot(pulse).cursor == 0,
        player.at_start_slot(pulse).lap_origin == pulse,
        player.at_start_slot(pulse).grid == player.grid,
        player.at_start_slot(pulse).sequence == player.sequence,
        player.at_start_slot(pulse).entry == player.entry,
        player.at_start_slot(pulse).playing == player.playing,
{
}

/// After a reset of the grid at a pulse count, the start slot plays from
/// its beginning: the tick at that count hands out what is due at the very
/// start of its loop, and through all its laps, pulse by pulse, the player
/// keeps to the start slot and hands out what is due at each position.
pub proof fn lemma_reset_grid_restarts(
    player: PlayerModel,
    grid: GridModel,
    pulse: nat,
    active: ActiveLoop,
    k: nat,
)
    requires
        player.playing,
        player.grid == Some(grid),
        grid.slot(grid.start_slot).loop_data == Some(active.looped),
        grid.slot(grid.start_slot).repeat_count == active.repeat_count,
        active.looped.length > 0,
        k < active.repeat_count * active.looped.length,
    ensures
        player.at_start_slot(pulse).at_start_of(active),
        active.repeat_count >= 1 ==> player.at_start_slot(pulse).ticked(pulse).1 == due_at(
            active.looped.events,
            0,
        ),
        player.at_start_slot(pulse).batch_at(pulse, k) == due_at(
            active.looped.events,
            k % active.looped.length,
        ),
        player.at_start_slot(pulse).ticked_through(pulse, k + 1).current_slot == Some(
            grid.start_slot,
        ),
        player.at_start_slot(pulse).ticked_through(pulse, k + 1).lap_origin == pulse,
{
    let restarted = player.at_start_slot(pulse);
    lemma_laps_replay(restarted, active, k);
    if active.repeat_count >= 1 {
        assert(0 < active.repeat_count * active.looped.length) by (nonlinear_arith)
            requires
                active.repeat_count >= 1,
                active.looped.length > 0,
        ;
        lemma_laps_replay(restarted, active, 0);
        assert(0nat % active.looped.length == 0) by (nonlinear_arith)
            requires
                active.looped.length > 0,
        ;
        assert(restarted.ticked_through(pulse, 0) == restarted);
    }
}

/// A grid swapped in keeps the place, unless the current slot has lost its
/// loop; then the player restarts at the start slot at the pulse count of
/// the swap.
pub proof fn lemma_swap_keeps_or_restarts(player: PlayerModel, grid: GridModel, pulse: nat)
    ensures
        ({
            let after = player.with_grid_swapped(grid, pulse);
            &&& after.grid == Some(grid)
            &&& after.playing == player.playing
            &&& match player.current_slot {
                Some(id) => if grid.slot(id).loop_data.is_none() {
                    after == (PlayerModel { grid: Some(grid), ..player }).at_start_slot(pulse)
                        && after.current_slot == Some(grid.start_slot) && after.lap_origin
                        == pulse && after.iteration == 0 && after.cursor == 0
                } else {
                    after == (PlayerModel { grid: Some(grid), ..player })
                },
                None => after == (PlayerModel { grid: Some(grid), ..player }),
            }
        }),
{
}

/// What a reset leads to does not depend on where the player stood.
pub proof fn lemma_reset_forgets_position(a: PlayerModel, b: PlayerModel)
    requires
        a.grid.is_some(),
        a.grid == b.grid,
        a.sequence == b.sequence,
        a.playing == b.playing,
    ensures
        a.reset() == b.reset(),
{
}

/// A reset ends the silence of a stopped grid: the start slot plays again.
pub proof fn lemma_reset_revives(player: PlayerModel, grid: GridModel)
    requires
        player.wf(),
        player.grid == Some(grid),
        player.current_slot.is_none(),
    ensures
        player.reset().wf(),
        player.reset().current_slot == Some(grid.start_slot),
        player.reset().active() == (match grid.slot(grid.start_slot).loop_data {
            Some(looped) => Some(
                ActiveLoop { looped, repeat_count: grid.slot(grid.start_slot).repeat_count },
            ),
            None => None,
        }),
{
}

} // verus!
