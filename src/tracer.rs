use vstd::prelude::*;
use crate::message::MessageKind;
use crate::records::{GameEvent, Player, PlayerHurtEvent, Snapshot, WithTick, WorldBounds, snapshot_of};
use crate::roster::{
    Roster, RosterError, unique_identities, admitted, identity_table, decoded_entry, text_view, data_view,
};
use itertools::Itertools;

verus! {

/// The messages the live game state is built from.
pub open spec fn integrator_interest(kind: MessageKind) -> bool {
    kind == MessageKind::PacketEntities || kind == MessageKind::GameEvent || kind == MessageKind::ServerInfo
}

/// The messages a trace reads: game events, string tables, and whatever the
/// live game state is built from.
pub open spec fn tracer_interest(kind: MessageKind) -> bool {
    ||| kind == MessageKind::GameEvent
    ||| kind == MessageKind::CreateStringTable
    ||| kind == MessageKind::UpdateStringTable
    ||| integrator_interest(kind)
}

/// Ticks never decrease along the series.
pub open spec fn ticks_ordered<T>(s: Seq<WithTick<T>>) -> bool {
    forall|i: int, j: int| 0 <= i < j < s.len() ==> s[i].tick <= s[j].tick
}

/// No tick of the series is later than `t`.
pub open spec fn ticks_at_most<T>(s: Seq<WithTick<T>>, t: u32) -> bool {
    forall|i: int| 0 <= i < s.len() ==> s[i].tick <= t
}

/// No two neighbouring entries hold equal bounds.
pub open spec fn changes_only(s: Seq<WithTick<WorldBounds>>) -> bool {
    forall|i: int| 0 <= i < s.len() - 1 ==> (#[trigger] s[i]).inner != s[i + 1].inner
}

/// The bounds series after observing `world` at `tick`: a value is appended
/// when there is one and it differs from the last one recorded.
pub open spec fn next_bounds(s: Seq<WithTick<WorldBounds>>, tick: u32, world: Option<WorldBounds>)
    -> Seq<WithTick<WorldBounds>>
{
    match world {
        None => s,
        Some(w) => if s.len() > 0 && s.last().inner == w {
            s
        } else {
            s.push(WithTick { inner: w, tick })
        },
    }
}

/// The damage series after a message carrying `event` at `tick`: only a
/// player-hurt payload is recorded.
pub open spec fn next_events(s: Seq<WithTick<PlayerHurtEvent>>, tick: u32, event: Option<GameEvent>)
    -> Seq<WithTick<PlayerHurtEvent>>
{
    match event {
        Some(GameEvent::PlayerHurt(e)) => s.push(WithTick { inner: e, tick }),
        _ => s,
    }
}

/// Some player before position `n` of `s` has the linked identity `id`.
pub open spec fn identity_before(s: Seq<Player>, n: int, id: Option<u16>) -> bool {
    exists|i: int| 0 <= i < n && s[i].user_id == id
}

/// The players of `s` that are the first with their linked identity, in order.
pub open spec fn first_per_identity(s: Seq<Player>) -> Seq<Player>
    decreases s.len(),
{
    if s.len() == 0 {
        s
    } else {
        let rest = first_per_identity(s.drop_last());
        if identity_before(s, s.len() - 1, s.last().user_id) {
            rest
        } else {
            rest.push(s.last())
        }
    }
}

/// The players to record after a message: the current ones, then those that
/// were there before and have vanished from the current view.
pub open spec fn merged(previous: Seq<Player>, current: Seq<Player>) -> Seq<Player> {
    first_per_identity(current + previous)
}

/// The players of `s` that are linked to an identity, in order.
pub open spec fn linked(s: Seq<Player>) -> Seq<Player>
    decreases s.len(),
{
    if s.len() == 0 {
        s
    } else if s.last().user_id is Some {
        linked(s.drop_last()).push(s.last())
    } else {
        linked(s.drop_last())
    }
}

/// `after` is `before` followed by one snapshot at `tick` of each player of
/// `players` that is linked to an identity.
pub open spec fn snapshots_appended(
    before: Seq<WithTick<Snapshot>>,
    after: Seq<WithTick<Snapshot>>,
    tick: u32,
    players: Seq<Player>,
) -> bool {
    &&& after.len() == before.len() + linked(players).len()
    &&& forall|i: int| 0 <= i < before.len() ==> after[i] == before[i]
    &&& forall|i: int|
        #![trigger after[before.len() + i]]
        0 <= i < linked(players).len() ==> after[before.len() + i].tick == tick
            && snapshot_of(linked(players)[i], after[before.len() + i].inner)
}

/// Observing the same bounds twice in a row records them at most once: the
/// second observation adds no entry.
pub proof fn lemma_same_bounds_recorded_once(
    s: Seq<WithTick<WorldBounds>>,
    first: u32,
    second: u32,
    world: WorldBounds,
)
    ensures
        next_bounds(next_bounds(s, first, Some(world)), second, Some(world)) == next_bounds(
            s,
            first,
            Some(world),
        ),
{
}

/// A player that is the first of its identity in `s` is kept by
/// `first_per_identity`.
proof fn lemma_first_kept(s: Seq<Player>, j: int)
    requires
        0 <= j < s.len(),
        !identity_before(s, j, s[j].user_id),
    ensures
        first_per_identity(s).contains(s[j]),
    decreases s.len(),
{
    let rest = first_per_identity(s.drop_last());
    if j == s.len() - 1 {
        assert(first_per_identity(s) == rest.push(s[j]));
        assert(first_per_identity(s).last() == s[j]);
    } else {
        assert(s.drop_last()[j] == s[j]);
        assert(!identity_before(s.drop_last(), j, s[j].user_id)) by {
            if identity_before(s.drop_last(), j, s[j].user_id) {
                let i = choose|i: int| 0 <= i < j && (#[trigger] s.drop_last()[i]).user_id == s[j].user_id;
                assert(s[i].user_id == s[j].user_id);
            }
        }
        lemma_first_kept(s.drop_last(), j);
        let k = choose|k: int| 0 <= k < rest.len() && rest[k] == s[j];
        if !identity_before(s, s.len() - 1, s.last().user_id) {
            assert(first_per_identity(s)[k] == s[j]);
        }
    }
}

/// A player that was in the live view before a message and whose identity
/// is missing from the view after it is still among the players recorded for
/// that message (the first such player of its identity, where several were).
pub proof fn lemma_vanished_player_carried_forward(previous: Seq<Player>, current: Seq<Player>, j: int)
    requires
        0 <= j < previous.len(),
        forall|i: int| 0 <= i < current.len() ==> current[i].user_id != previous[j].user_id,
        !identity_before(previous, j, previous[j].user_id),
    ensures
        merged(previous, current).contains(previous[j]),
{
    let s = current + previous;
    let n = current.len() as int;
    assert(s[n + j] == previous[j]);
    assert(!identity_before(s, n + j, s[n + j].user_id)) by {
        if identity_before(s, n + j, s[n + j].user_id) {
            let i = choose|i: int| 0 <= i < n + j && (#[trigger] s[i]).user_id == s[n + j].user_id;
            if i < n {
                assert(s[i] == current[i]);
            } else {
                assert(s[i] == previous[i - n]);
            }
        }
    }
    lemma_first_kept(s, n + j);
}

/// No two players of `s` share a linked identity.
pub open spec fn unique_keys(s: Seq<Player>) -> bool {
    forall|a: int, b: int| 0 <= a < b < s.len() ==> s[a].user_id != s[b].user_id
}

proof fn lemma_first_per_identity_unique(s: Seq<Player>)
    ensures
        unique_keys(first_per_identity(s)),
        forall|k: int| 0 <= k < first_per_identity(s).len() ==> exists|i: int|
            0 <= i < s.len() && #[trigger] first_per_identity(s)[k] == s[i],
    decreases s.len(),
{
    if s.len() > 0 {
        let t = s.drop_last();
        lemma_first_per_identity_unique(t);
        let rest = first_per_identity(t);
        assert forall|k: int| 0 <= k < first_per_identity(s).len() implies exists|i: int|
            0 <= i < s.len() && #[trigger] first_per_identity(s)[k] == s[i] by {
            if k < rest.len() {
                let i = choose|i: int| 0 <= i < t.len() && rest[k] == t[i];
                assert(first_per_identity(s)[k] == s[i]);
            } else {
                assert(first_per_identity(s)[k] == s[s.len() - 1]);
            }
        }
        if !identity_before(s, s.len() - 1, s.last().user_id) {
            assert forall|a: int, b: int| 0 <= a < b < first_per_identity(s).len() implies
                first_per_identity(s)[a].user_id != first_per_identity(s)[b].user_id by {
                if b == rest.len() {
                    let i = choose|i: int| 0 <= i < t.len() && rest[a] == t[i];
                    assert(s[i] == t[i]);
                }
            }
        }
    }
}

proof fn lemma_linked_keeps(s: Seq<Player>)
    requires
        unique_keys(s),
    ensures
        unique_keys(linked(s)),
        forall|k: int| 0 <= k < linked(s).len() ==> exists|i: int|
            0 <= i < s.len() && #[trigger] linked(s)[k] == s[i],
        forall|i: int| 0 <= i < s.len() && (#[trigger] s[i]).user_id is Some ==> linked(s).contains(s[i]),
    decreases s.len(),
{
    if s.len() > 0 {
        let t = s.drop_last();
        assert(unique_keys(t)) by {
            assert forall|a: int, b: int| 0 <= a < b < t.len() implies t[a].user_id != t[b].user_id by {
                assert(t[a] == s[a] && t[b] == s[b]);
            }
        }
        lemma_linked_keeps(t);
        let rest = linked(t);
        assert forall|k: int| 0 <= k < linked(s).len() implies exists|i: int|
            0 <= i < s.len() && #[trigger] linked(s)[k] == s[i] by {
            if k < rest.len() {
                let i = choose|i: int| 0 <= i < t.len() && rest[k] == t[i];
                assert(linked(s)[k] == s[i]);
            } else {
                assert(linked(s)[k] == s[s.len() - 1]);
            }
        }
        assert forall|i: int| 0 <= i < s.len() && (#[trigger] s[i]).user_id is Some implies linked(s).contains(s[i]) by {
            if i < s.len() - 1 {
                assert(t[i] == s[i]);
                let k = choose|k: int| 0 <= k < rest.len() && rest[k] == t[i];
                assert(linked(s)[k] == s[i]);
            } else {
                assert(linked(s)[rest.len() as int] == s[i]);
            }
        }
        if s.last().user_id is Some {
            assert forall|a: int, b: int| 0 <= a < b < linked(s).len() implies
                linked(s)[a].user_id != linked(s)[b].user_id by {
                if b == rest.len() {
                    let i = choose|i: int| 0 <= i < t.len() && rest[a] == t[i];
                    assert(s[i] == t[i]);
                }
            }
        }
    }
}

/// A linked player that was in the live view before a message, first of its
/// identity there, and whose identity is missing from the view after it,
/// gets exactly one of the snapshots recorded for that message, and that
/// snapshot is of the player as it was before.
pub proof fn lemma_vanished_player_recorded_once(previous: Seq<Player>, current: Seq<Player>, j: int)
    requires
        0 <= j < previous.len(),
        previous[j].user_id is Some,
        forall|i: int| 0 <= i < current.len() ==> current[i].user_id != previous[j].user_id,
        !identity_before(previous, j, previous[j].user_id),
    ensures
        exists|k: int|
            0 <= k < linked(merged(previous, current)).len() && linked(merged(previous, current))[k]
                == previous[j] && forall|k2: int|
                0 <= k2 < linked(merged(previous, current)).len() && (#[trigger] linked(
                    merged(previous, current),
                )[k2]).user_id == previous[j].user_id ==> k2 == k,
{
    let m = merged(previous, current);
    lemma_vanished_player_carried_forward(previous, current, j);
    lemma_first_per_identity_unique(current + previous);
    lemma_linked_keeps(m);
    let k0 = choose|k0: int| 0 <= k0 < m.len() && m[k0] == previous[j];
    assert(m[k0].user_id is Some);
    let l = linked(m);
    let k = choose|k: int| 0 <= k < l.len() && l[k] == m[k0];
    assert forall|k2: int| 0 <= k2 < l.len() && (#[trigger] l[k2]).user_id == previous[j].user_id implies k2 == k by {
        if k2 < k {
            assert(l[k2].user_id != l[k].user_id);
        } else if k2 > k {
            assert(l[k].user_id != l[k2].user_id);
        }
    }
}

/// A player that is the first of its identity in the live view after a
/// message is among the players recorded for that message.
pub proof fn lemma_current_player_kept(previous: Seq<Player>, current: Seq<Player>, j: int)
    requires
        0 <= j < current.len(),
        !identity_before(current, j, current[j].user_id),
    ensures
        merged(previous, current).contains(current[j]),
{
    let s = current + previous;
    assert(s[j] == current[j]);
    assert(!identity_before(s, j, s[j].user_id)) by {
        if identity_before(s, j, s[j].user_id) {
            let i = choose|i: int| 0 <= i < j && (#[trigger] s[i]).user_id == s[j].user_id;
            assert(s[i] == current[i]);
        }
    }
    lemma_first_kept(s, j);
}

/// Relies on Itertools::unique_by, which yields each item whose key it has
/// not yielded before, in order: here the first player of each linked identity.
#[verifier::external_body]
fn unique_by_identity(players: Vec<Player>) -> (r: Vec<Player>)
    ensures
        r@ == first_per_identity(players@),
{
    players.into_iter().unique_by(|p| p.user_id).collect()
}

/// Folds a stream of messages into a roster and three tick-stamped series:
/// player snapshots, damage events and world bounds.
pub struct Tracer {
    pub events: Vec<WithTick<PlayerHurtEvent>>,
    pub states: Vec<WithTick<Snapshot>>,
    pub roster: Roster,
    pub bounds: Vec<WithTick<WorldBounds>>,
    /// The latest tick a message was handled at.
    pub tick: u32,
}

impl Tracer {
    /// The roster is well formed, every series is ordered by tick and reaches
    /// no further than the latest tick, and the bounds series holds changes only.
    pub open spec fn wf(&self) -> bool {
        &&& self.roster.wf()
        &&& ticks_ordered(self.events@)
        &&& ticks_ordered(self.states@)
        &&& ticks_ordered(self.bounds@)
        &&& ticks_at_most(self.events@, self.tick)
        &&& ticks_at_most(self.states@, self.tick)
        &&& ticks_at_most(self.bounds@, self.tick)
        &&& changes_only(self.bounds@)
    }

    pub fn new() -> (r: Tracer)
        ensures
            r.wf(),
            r.roster@.len() == 0,
            r.states@.len() == 0,
            r.events@.len() == 0,
            r.bounds@.len() == 0,
            r.tick == 0,
    {
        Tracer {
            states: Vec::new(),
            events: Vec::new(),
            roster: Roster::new(),
            bounds: Vec::new(),
            tick: 0,
        }
    }

    /// Whether a message of this kind is to be handed to the tracer.
    pub fn does_handle(message_type: MessageKind) -> (r: bool)
        ensures
            r == tracer_interest(message_type),
    {
        matches!(
            message_type,
            MessageKind::GameEvent | MessageKind::CreateStringTable | MessageKind::UpdateStringTable
                | MessageKind::PacketEntities | MessageKind::ServerInfo
        )
    }

    /// Records `world` at `tick` when it is present and differs from the
    /// last bounds recorded.
    fn record_bounds(&mut self, tick: u32, world: Option<WorldBounds>)
        requires
            ticks_ordered(old(self).bounds@),
            ticks_at_most(old(self).bounds@, tick),
            changes_only(old(self).bounds@),
        ensures
            final(self).bounds@ == next_bounds(old(self).bounds@, tick, world),
            ticks_ordered(final(self).bounds@),
            ticks_at_most(final(self).bounds@, tick),
            changes_only(final(self).bounds@),
            final(self).events == old(self).events,
            final(self).states == old(self).states,
            final(self).roster == old(self).roster,
            final(self).tick == old(self).tick,
    {
        if let Some(next) = world {
            let n = self.bounds.len();
            if n == 0 || self.bounds[n - 1].inner != next {
                self.bounds.push(WithTick { inner: next, tick });
            }
        }
    }

    /// Records the payload of a player-hurt event at `tick`.
    fn record_event(&mut self, tick: u32, event: Option<GameEvent>)
        requires
            ticks_ordered(old(self).events@),
            ticks_at_most(old(self).events@, tick),
        ensures
            final(self).events@ == next_events(old(self).events@, tick, event),
            ticks_ordered(final(self).events@),
            ticks_at_most(final(self).events@, tick),
            final(self).bounds == old(self).bounds,
            final(self).states == old(self).states,
            final(self).roster == old(self).roster,
            final(self).tick == old(self).tick,
    {
        if let Some(GameEvent::PlayerHurt(inner)) = event {
            self.events.push(WithTick { tick, inner });
        }
    }

    /// The players to record after a message, from the players seen before
    /// it and those seen after it: current values win, and a player that has
    /// vanished from the current view is carried forward.
    pub fn compute_deltas(previous: Vec<Player>, current: Vec<Player>) -> (r: Vec<Player>)
        ensures
            r@ == merged(previous@, current@),
    {
        let mut all = current;
        let mut rest = previous;
        all.append(&mut rest);
        unique_by_identity(all)
    }

    /// Appends one snapshot at `tick` of each player of `players` that is
    /// linked to an identity.
    fn record_states(&mut self, tick: u32, players: Vec<Player>)
        requires
            ticks_ordered(old(self).states@),
            ticks_at_most(old(self).states@, tick),
        ensures
            snapshots_appended(old(self).states@, final(self).states@, tick, players@),
            ticks_ordered(final(self).states@),
            ticks_at_most(final(self).states@, tick),
            final(self).bounds == old(self).bounds,
            final(self).events == old(self).events,
            final(self).roster == old(self).roster,
            final(self).tick == old(self).tick,
    {
        let ghost before = self.states@;
        let mut i: usize = 0;
        while i < players.len()
            invariant
                i <= players@.len(),
                snapshots_appended(before, self.states@, tick, players@.take(i as int)),
                ticks_ordered(self.states@),
                ticks_at_most(self.states@, tick),
                ticks_ordered(before),
                ticks_at_most(before, tick),
                self.bounds == old(self).bounds,
                self.events == old(self).events,
                self.roster == old(self).roster,
                self.tick == old(self).tick,
            decreases players@.len() - i,
        {
            let p = players[i];
            let ghost l_old = linked(players@.take(i as int));
            let ghost s_old = self.states@;
            proof {
                assert(players@.take(i + 1).drop_last() =~= players@.take(i as int));
            }
            if p.user_id.is_some() {
                let snap = Snapshot::from(p);
                self.states.push(WithTick { tick, inner: snap });
                proof {
                    let l_new = linked(players@.take(i + 1));
                    assert(l_new == l_old.push(p));
                    assert forall|k: int| 0 <= k < before.len() implies self.states@[k] == before[k] by {
                        assert(self.states@[k] == s_old[k]);
                    }
                    assert forall|k: int| 0 <= k < l_new.len() implies self.states@[before.len() + k].tick
                        == tick && snapshot_of(l_new[k], self.states@[before.len() + k].inner) by {
                        if k < l_old.len() {
                            assert(self.states@[before.len() + k] == s_old[before.len() + k]);
                        } else {
                            assert(self.states@[before.len() + k].inner == snap);
                        }
                    }
                }
            }
            else {
                assert(linked(players@.take(i + 1)) == l_old);
            }
            i += 1;
        }
        assert(players@.take(players@.len() as int) =~= players@);
    }

    /// Handles one message at `tick`, once the live game state has applied
    /// it. `event` is the game event the message carries, if it is one;
    /// `previous` and `current` are the players the live view held before and
    /// after the message, and `world` the bounds it holds after it.
    pub fn handle_message(
        &mut self,
        tick: u32,
        event: Option<GameEvent>,
        previous: Vec<Player>,
        current: Vec<Player>,
        world: Option<WorldBounds>,
    )
        requires
            old(self).wf(),
            old(self).tick <= tick,
        ensures
            final(self).wf(),
            final(self).tick == tick,
            final(self).bounds@ == next_bounds(old(self).bounds@, tick, world),
            final(self).events@ == next_events(old(self).events@, tick, event),
            snapshots_appended(old(self).states@, final(self).states@, tick, merged(previous@, current@)),
            final(self).roster@ == old(self).roster@,
    {
        self.record_bounds(tick, world);
        self.record_event(tick, event);
        let deltas = Tracer::compute_deltas(previous, current);
        self.record_states(tick, deltas);
        self.tick = tick;
    }

    /// Handles one entry of a string table, given its text and extra data:
    /// the roster reads the entries of the player identity table, and nothing
    /// else changes.
    pub fn handle_string_entry(
        &mut self,
        table: &str,
        index: usize,
        text: Option<&str>,
        data: Option<&[u8]>,
    ) -> (r: Result<(), RosterError>)
        requires
            old(self).wf(),
        ensures
            final(self).wf(),
            unique_identities(final(self).roster@),
            table@ != identity_table() ==> r is Ok && final(self).roster@ == old(self).roster@,
            table@ == identity_table() ==> (r is Err <==> (decoded_entry(index as u16, text_view(text), data_view(data)) is None)),
            table@ == identity_table() && r is Ok ==> admitted(
                old(self).roster@,
                decoded_entry(index as u16, text_view(text), data_view(data))->Some_0,
                final(self).roster@,
            ),
            r is Err ==> final(self).roster@ == old(self).roster@,
            final(self).states == old(self).states,
            final(self).events == old(self).events,
            final(self).bounds == old(self).bounds,
            final(self).tick == old(self).tick,
    {
        self.roster.handle_string_entry(table, index, text, data)
    }

    /// In every trace, no two neighbouring entries of the bounds series
    /// hold equal bounds.
    pub proof fn lemma_bounds_change_only(&self)
        requires
            self.wf(),
        ensures
            changes_only(self.bounds@),
    {
    }

    /// In every trace, ticks never decrease along the snapshot, damage and
    /// bounds series.
    pub proof fn lemma_ticks_ordered(&self)
        requires
            self.wf(),
        ensures
            ticks_ordered(self.states@),
            ticks_ordered(self.events@),
            ticks_ordered(self.bounds@),
    {
    }

    /// The latest tick a message was handled at; a later message may not
    /// come at an earlier tick.
    pub fn latest_tick(&self) -> (r: u32)
        ensures
            r == self.tick,
    {
        self.tick
    }
}

} // verus!
