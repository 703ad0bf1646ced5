use usagi::audio::{EventRing, RING_CAP};

#[derive(Clone, Copy, Debug, PartialEq)]
enum Event {
    NoteOff { id: u32 },
    StopAll,
}

fn fresh() -> EventRing<Event> {
    EventRing::new(Event::StopAll)
}

#[test]
fn ring_push_pop_fifo_order() {
    let mut ring = fresh();
    assert!(ring.push(Event::NoteOff { id: 1 }));
    assert!(ring.push(Event::NoteOff { id: 2 }));
    assert!(matches!(ring.pop(), Some(Event::NoteOff { id: 1 })));
    assert!(matches!(ring.pop(), Some(Event::NoteOff { id: 2 })));
    assert!(ring.pop().is_none());
}

#[test]
fn ring_drops_when_full_without_blocking() {
    let mut ring = fresh();
    for i in 0..RING_CAP {
        assert!(ring.push(Event::NoteOff { id: i as u32 }), "slot {i}");
    }
    assert!(!ring.push(Event::NoteOff { id: 999 }));
    assert!(ring.pop().is_some());
    assert!(ring.push(Event::NoteOff { id: 1000 }));
}

#[test]
fn ring_wraps_around_many_times() {
    let mut ring = fresh();
    for i in 0..RING_CAP * 4 {
        assert!(ring.push(Event::NoteOff { id: i as u32 }));
        assert!(matches!(ring.pop(), Some(Event::NoteOff { id }) if id == i as u32));
    }
}

#[test]
fn ring_len_counts_queued_events_and_the_dropped_one_never_appears() {
    let mut ring: EventRing<u32> = EventRing::new(0);
    assert_eq!(ring.len(), 0);
    for i in 0..RING_CAP as u32 {
        ring.push(i);
    }
    assert!(!ring.push(7777));
    assert_eq!(ring.len(), RING_CAP);
    for i in 0..RING_CAP as u32 {
        assert_eq!(ring.pop(), Some(i));
    }
    assert_eq!(ring.pop(), None);
    assert_eq!(ring.len(), 0);
}
