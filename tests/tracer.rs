use demoreel::message::MessageKind;
use demoreel::records::{
    Class, GameEvent, Player, PlayerHurtEvent, PlayerState, Team, Vector, WorldBounds,
};
use demoreel::tracer::Tracer;

fn player(id: Option<u16>, health: u16) -> Player {
    Player {
        position: Vector { x: 1, y: 2, z: 3 },
        health,
        max_health: 150,
        class: Class::Medic,
        team: Team::Blue,
        view_angle: 7,
        pitch_angle: 8,
        state: PlayerState::Alive,
        user_id: id,
        charge: 40,
        in_pvs: true,
        simtime: 9,
    }
}

fn bounds(min: u32, max: u32) -> WorldBounds {
    WorldBounds {
        boundary_min: Vector { x: min, y: min, z: min },
        boundary_max: Vector { x: max, y: max, z: max },
    }
}

fn hurt(victim: u16, damage: u16) -> PlayerHurtEvent {
    PlayerHurtEvent {
        user_id: victim,
        health: 100,
        attacker: 3,
        damage_amount: damage,
        custom: 0,
        show_disguised_crit: false,
        crit: true,
        mini_crit: false,
        all_see_crit: false,
        weapon_id: 18,
        bonus_effect: 1,
    }
}

#[test]
fn empty_stream_yields_empty_series() {
    let tracer = Tracer::new();
    assert!(tracer.roster.roster.is_empty());
    assert!(tracer.states.is_empty());
    assert!(tracer.events.is_empty());
    assert!(tracer.bounds.is_empty());
    assert_eq!(tracer.latest_tick(), 0);
}

#[test]
fn vanished_player_is_still_recorded() {
    let mut tracer = Tracer::new();
    tracer.handle_message(1, None, vec![], vec![player(Some(5), 100)], None);
    assert_eq!(tracer.states.len(), 1);
    tracer.handle_message(2, None, vec![player(Some(5), 100)], vec![], None);
    assert_eq!(tracer.states.len(), 2);
    assert_eq!(tracer.states[1].tick, 2);
    assert_eq!(tracer.states[1].inner.user_id, Some(5));
    tracer.handle_message(3, None, vec![], vec![player(Some(5), 100)], None);
    assert_eq!(tracer.states.len(), 3);
    assert_eq!(tracer.states[2].tick, 3);
    assert_eq!(tracer.states[2].inner.user_id, Some(5));
}

#[test]
fn current_values_win_and_unlinked_players_are_skipped() {
    let previous = vec![player(Some(1), 50), player(Some(2), 60), player(None, 70)];
    let current = vec![player(None, 10), player(Some(1), 20)];
    let deltas = Tracer::compute_deltas(previous.clone(), current.clone());
    assert_eq!(deltas, vec![player(None, 10), player(Some(1), 20), player(Some(2), 60)]);
    let mut tracer = Tracer::new();
    tracer.handle_message(4, None, previous, current, None);
    assert_eq!(tracer.states.len(), 2);
    assert_eq!(tracer.states[0].inner.user_id, Some(1));
    assert_eq!(tracer.states[0].inner.health, 20);
    assert_eq!(tracer.states[1].inner.user_id, Some(2));
    assert_eq!(tracer.states[1].inner.health, 60);
}

#[test]
fn every_message_records_its_own_snapshots() {
    let mut tracer = Tracer::new();
    let live = vec![player(Some(1), 100), player(Some(2), 100)];
    tracer.handle_message(6, None, live.clone(), live.clone(), None);
    tracer.handle_message(6, None, live.clone(), live, None);
    assert_eq!(tracer.states.len(), 4);
    assert!(tracer.states.iter().all(|s| s.tick == 6));
}

#[test]
fn snapshot_copies_player_fields() {
    let mut tracer = Tracer::new();
    tracer.handle_message(8, None, vec![], vec![player(Some(9), 125)], None);
    let s = &tracer.states[0].inner;
    assert_eq!(s.position, Vector { x: 1, y: 2, z: 3 });
    assert_eq!(s.health, 125);
    assert_eq!(s.max_health, 150);
    assert_eq!(s.class, "medic");
    assert_eq!(s.team, "blu");
    assert_eq!(s.state, "alive");
    assert_eq!(s.view_angle, 7);
    assert_eq!(s.pitch_angle, 8);
    assert_eq!(s.charge, 40);
    assert!(s.in_pvs);
    assert_eq!(s.simtime, 9);
}

#[test]
fn player_hurt_event_is_recorded() {
    let mut tracer = Tracer::new();
    tracer.handle_message(100, Some(GameEvent::PlayerHurt(hurt(4, 27))), vec![], vec![], None);
    assert_eq!(tracer.events.len(), 1);
    assert_eq!(tracer.events[0].tick, 100);
    assert_eq!(tracer.events[0].inner, hurt(4, 27));
    tracer.handle_message(101, Some(GameEvent::Other), vec![], vec![], None);
    assert_eq!(tracer.events.len(), 1);
    tracer.handle_message(102, None, vec![], vec![], None);
    assert_eq!(tracer.events.len(), 1);
}

#[test]
fn identical_bounds_are_recorded_once() {
    let mut tracer = Tracer::new();
    tracer.handle_message(1, None, vec![], vec![], Some(bounds(0, 10)));
    tracer.handle_message(2, None, vec![], vec![], Some(bounds(0, 10)));
    assert_eq!(tracer.bounds.len(), 1);
    assert_eq!(tracer.bounds[0].tick, 1);
    assert_eq!(tracer.bounds[0].inner, bounds(0, 10));
}

#[test]
fn changed_bounds_are_appended() {
    let mut tracer = Tracer::new();
    tracer.handle_message(1, None, vec![], vec![], None);
    assert!(tracer.bounds.is_empty());
    tracer.handle_message(2, None, vec![], vec![], Some(bounds(0, 10)));
    tracer.handle_message(3, None, vec![], vec![], None);
    tracer.handle_message(4, None, vec![], vec![], Some(bounds(0, 20)));
    tracer.handle_message(5, None, vec![], vec![], Some(bounds(0, 10)));
    let ticks: Vec<u32> = tracer.bounds.iter().map(|b| b.tick).collect();
    assert_eq!(ticks, vec![2, 4, 5]);
    assert_eq!(tracer.bounds[1].inner, bounds(0, 20));
}

#[test]
fn ticks_never_decrease() {
    let mut tracer = Tracer::new();
    let ticks = [3u32, 3, 7, 7, 12];
    for (i, tick) in ticks.iter().enumerate() {
        let world = Some(bounds(0, i as u32));
        let event = Some(GameEvent::PlayerHurt(hurt(1, i as u16)));
        tracer.handle_message(*tick, event, vec![], vec![player(Some(1), 1)], world);
        assert_eq!(tracer.latest_tick(), *tick);
    }
    for pair in tracer.states.windows(2) {
        assert!(pair[0].tick <= pair[1].tick);
    }
    for pair in tracer.events.windows(2) {
        assert!(pair[0].tick <= pair[1].tick);
    }
    for pair in tracer.bounds.windows(2) {
        assert!(pair[0].tick <= pair[1].tick);
        assert_ne!(pair[0].inner, pair[1].inner);
    }
    assert_eq!(tracer.states.len(), 5);
}

#[test]
fn tracer_interest_set() {
    assert!(Tracer::does_handle(MessageKind::GameEvent));
    assert!(Tracer::does_handle(MessageKind::CreateStringTable));
    assert!(Tracer::does_handle(MessageKind::UpdateStringTable));
    assert!(Tracer::does_handle(MessageKind::PacketEntities));
    assert!(Tracer::does_handle(MessageKind::ServerInfo));
    assert!(!Tracer::does_handle(MessageKind::NetTick));
    assert!(!Tracer::does_handle(MessageKind::UserMessage));
}

#[test]
fn enumerations_are_named() {
    let classes = [
        (Class::Scout, "scout"),
        (Class::Soldier, "soldier"),
        (Class::Pyro, "pyro"),
        (Class::Demoman, "demoman"),
        (Class::Heavy, "heavy"),
        (Class::Engineer, "engineer"),
        (Class::Medic, "medic"),
        (Class::Sniper, "sniper"),
        (Class::Spy, "spy"),
        (Class::Other, "other"),
    ];
    for (class, name) in classes {
        assert_eq!(class.name(), name);
    }
    assert_eq!(Team::Blue.name(), "blu");
    assert_eq!(Team::Red.name(), "red");
    assert_eq!(Team::Spectator.name(), "spectator");
    assert_eq!(Team::Other.name(), "other");
    assert_eq!(PlayerState::Alive.name(), "alive");
    assert_eq!(PlayerState::Death.name(), "death");
    assert_eq!(PlayerState::Dying.name(), "dying");
    assert_eq!(PlayerState::Respawnable.name(), "queue");
}
