use simcore::delete::GarbageCollector;
use simcore::event::{EventQueue, GameEvent};
use simcore::timer::Timer;

#[test]
fn two_readers_see_publishes_in_order() {
    let mut bus = EventQueue::new();
    let r1 = bus.register_reader();
    let r2 = bus.register_reader();
    bus.single_write(GameEvent::Delete(41));
    bus.single_write(GameEvent::PlaySound(7));

    let seen2 = bus.read(r2);
    let seen1 = bus.read(r1);
    assert_eq!(seen1, vec![GameEvent::Delete(41), GameEvent::PlaySound(7)]);
    assert_eq!(seen2, vec![GameEvent::Delete(41), GameEvent::PlaySound(7)]);

    assert!(bus.read(r1).is_empty());
    assert!(bus.read(r2).is_empty());
}

#[test]
fn reads_are_consumed_exactly_once() {
    let mut bus = EventQueue::new();
    let r = bus.register_reader();
    bus.single_write(GameEvent::Custom(1));
    assert_eq!(bus.read(r), vec![GameEvent::Custom(1)]);
    bus.single_write(GameEvent::Custom(2));
    bus.single_write(GameEvent::Custom(3));
    assert_eq!(bus.read(r), vec![GameEvent::Custom(2), GameEvent::Custom(3)]);
    assert!(bus.read(r).is_empty());
}

#[test]
fn late_reader_never_observes_earlier_events() {
    let mut bus = EventQueue::new();
    let early = bus.register_reader();
    bus.single_write(GameEvent::PlayBackgroundMusic(9));
    let late = bus.register_reader();
    assert!(bus.read(late).is_empty());
    bus.single_write(GameEvent::PlaySound(3));
    assert_eq!(bus.read(late), vec![GameEvent::PlaySound(3)]);
    assert_eq!(
        bus.read(early),
        vec![GameEvent::PlayBackgroundMusic(9), GameEvent::PlaySound(3)]
    );
}

#[test]
fn drain_vec_write_appends_batch_and_empties_source() {
    let mut bus = EventQueue::new();
    let r = bus.register_reader();
    let mut batch = vec![GameEvent::Custom(1), GameEvent::Custom(2)];
    bus.drain_vec_write(&mut batch);
    assert!(batch.is_empty());
    assert_eq!(bus.read(r), vec![GameEvent::Custom(1), GameEvent::Custom(2)]);
}

#[test]
fn bus_without_readers_retains_nothing() {
    let mut bus = EventQueue::new();
    for i in 0..1000 {
        bus.single_write(GameEvent::Custom(i));
    }
    assert_eq!(bus.log.len(), 0);
}

#[test]
fn prune_drops_entries_all_readers_have_passed() {
    let mut bus = EventQueue::new();
    let r1 = bus.register_reader();
    let r2 = bus.register_reader();
    bus.single_write(GameEvent::Custom(1));
    bus.single_write(GameEvent::Custom(2));
    bus.single_write(GameEvent::Custom(3));
    assert_eq!(bus.log.len(), 3);

    let _ = bus.read(r1);
    bus.prune();
    // the slower reader still needs everything
    assert_eq!(bus.log.len(), 3);

    let seen = bus.read(r2);
    assert_eq!(seen.len(), 3);
    bus.prune();
    assert_eq!(bus.log.len(), 0);
}

#[test]
fn deferred_event_promotes_on_exact_tick() {
    let mut bus = EventQueue::new();
    let r = bus.register_reader();
    bus.add_deferred_event(GameEvent::Custom(5), Timer::of_millis(100));

    bus.update_deferred(60);
    assert!(bus.read(r).is_empty());

    // 60 + 39 = 99 < 100: still staged
    bus.update_deferred(39);
    assert!(bus.read(r).is_empty());

    // 99 + 1 = 100: promoted now, not later
    bus.update_deferred(1);
    assert_eq!(bus.read(r), vec![GameEvent::Custom(5)]);

    bus.update_deferred(1000);
    assert!(bus.read(r).is_empty());
}

#[test]
fn deferred_ties_keep_staging_order() {
    let mut bus = EventQueue::new();
    let r = bus.register_reader();
    bus.add_deferred_event(GameEvent::Custom(1), Timer::of_millis(50));
    bus.add_deferred_event(GameEvent::Custom(2), Timer::of_millis(50));
    bus.add_deferred_event(GameEvent::Custom(3), Timer::of_millis(80));
    bus.update_deferred(50);
    assert_eq!(bus.read(r), vec![GameEvent::Custom(1), GameEvent::Custom(2)]);
    bus.update_deferred(30);
    assert_eq!(bus.read(r), vec![GameEvent::Custom(3)]);
}

#[test]
fn zero_duration_deferred_promotes_immediately() {
    let mut bus = EventQueue::new();
    let r = bus.register_reader();
    bus.add_deferred_event(GameEvent::Custom(9), Timer::of_millis(0));
    bus.update_deferred(0);
    assert_eq!(bus.read(r), vec![GameEvent::Custom(9)]);
}

#[test]
fn reaper_collects_only_deletes_in_order() {
    let mut bus = EventQueue::new();
    let gc = GarbageCollector::new(&mut bus);
    bus.single_write(GameEvent::Delete(7));
    bus.single_write(GameEvent::PlaySound(1));
    bus.single_write(GameEvent::Delete(9));
    let deletes = gc.collect(&mut bus);
    assert_eq!(deletes, vec![7, 9]);
    assert!(gc.collect(&mut bus).is_empty());
}

#[test]
fn reaper_ignores_deletes_before_registration() {
    let mut bus = EventQueue::new();
    let sink = bus.register_reader();
    bus.single_write(GameEvent::Delete(1));
    let gc = GarbageCollector::new(&mut bus);
    bus.single_write(GameEvent::Delete(2));
    assert_eq!(gc.collect(&mut bus), vec![2]);
    assert_eq!(bus.read(sink).len(), 2);
}

#[test]
fn timer_accumulates_and_resets() {
    let mut t = Timer::of_millis(30);
    t.tick(10);
    assert!(!t.finished());
    t.tick(20);
    assert!(t.finished());
    t.tick(5);
    assert!(t.finished());
    assert_eq!(t.elapsed_ms, 30);
    t.reset();
    assert!(!t.finished());
    assert_eq!(t.elapsed_ms, 0);
    assert_eq!(t.duration_ms, 30);
}
