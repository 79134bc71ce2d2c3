use rwr_players::cursor::{Cursor, PAGE_SIZE};
use rwr_players::worker::{Action, Event, WorkerState};
use std::sync::Mutex;

#[test]
fn page_size_is_one_hundred() {
    assert_eq!(PAGE_SIZE, 100);
}

#[test]
fn allocations_are_one_page_apart() {
    let mut cursor = Cursor::new(0);
    assert_eq!(cursor.allocate_next(), 0);
    assert_eq!(cursor.allocate_next(), PAGE_SIZE);
    assert_eq!(cursor.allocate_next(), 2 * PAGE_SIZE);
}

#[test]
fn allocations_are_exhaustive_and_do_not_overlap() {
    for start in [0i128, 7, 146000, -250] {
        let mut cursor = Cursor::new(start);
        let mut seen: Vec<i128> = Vec::new();
        for i in 0..1000 {
            let offset = cursor.allocate_next();
            assert_eq!(offset, start + i * PAGE_SIZE);
            assert!(!seen.contains(&offset));
            seen.push(offset);
        }
    }
}

#[test]
fn room_ends_one_page_before_the_largest_offset() {
    assert!(Cursor::new(0).has_room());
    assert!(Cursor::new(i128::MAX - PAGE_SIZE).has_room());
    assert!(!Cursor::new(i128::MAX - PAGE_SIZE + 1).has_room());
    assert!(!Cursor::new(i128::MAX).has_room());
    let mut cursor = Cursor::new(i128::MAX - PAGE_SIZE);
    assert_eq!(cursor.allocate_next(), i128::MAX - PAGE_SIZE);
    assert!(!cursor.has_room());
}

fn run_four_workers(mut pick: impl FnMut(usize) -> usize) -> Vec<(usize, i128)> {
    let cursor = Mutex::new(Cursor::new(0));
    let mut fetched: Vec<(usize, i128)> = Vec::new();
    let mut workers: Vec<WorkerState> = Vec::new();
    for _ in 0..4 {
        workers.push(WorkerState::start(&mut cursor.lock().unwrap()));
    }
    let mut turn = 0;
    while workers.iter().any(|state| !state.is_finished()) {
        let running: Vec<usize> =
            (0..4).filter(|worker| !workers[*worker].is_finished()).collect();
        let worker = running[pick(turn) % running.len()];
        turn += 1;
        let state = workers[worker];
        let event = match state.action() {
            Action::Fetch { offset } => {
                fetched.push((worker, offset));
                Event::Fetched
            }
            Action::Decode => match state {
                WorkerState::Decoding { offset } if offset < 10 * PAGE_SIZE => {
                    Event::Decoded { record_count: 100 }
                }
                _ => Event::Decoded { record_count: 0 },
            },
            Action::Persist { .. } => Event::Persisted,
            Action::Stop => unreachable!(),
        };
        workers[worker] = state.step(event, &mut cursor.lock().unwrap());
    }
    for state in &workers {
        assert_eq!(*state, WorkerState::Done);
    }
    assert_eq!(cursor.lock().unwrap().allocate_next(), 14 * PAGE_SIZE);
    fetched
}

#[test]
fn four_workers_share_ten_full_pages() {
    let mut seed: usize = 12345;
    let mut schedules: Vec<Box<dyn FnMut(usize) -> usize>> = vec![
        Box::new(|turn| turn),
        Box::new(|_| 0),
        Box::new(|_| 3),
        Box::new(|turn| turn / 3),
        Box::new(|turn| turn * 7 + 2),
        Box::new(move |_| {
            seed = seed.wrapping_mul(6364136223846793005).wrapping_add(1442695040888963407);
            seed >> 33
        }),
    ];
    for schedule in schedules.iter_mut() {
        let fetched = run_four_workers(schedule);
        for page in 0..10 {
            let offset = page * PAGE_SIZE;
            assert_eq!(fetched.iter().filter(|(_, seen)| *seen == offset).count(), 1);
        }
        let mut offsets: Vec<i128> = fetched.iter().map(|(_, offset)| *offset).collect();
        offsets.sort();
        let mut distinct = offsets.clone();
        distinct.dedup();
        assert_eq!(distinct, offsets);
        assert_eq!(offsets.len(), 14);
        assert_eq!(offsets, (0..offsets.len() as i128).map(|page| page * PAGE_SIZE).collect::<Vec<i128>>());
        for worker in 0..4 {
            assert!(fetched.iter().any(|(owner, _)| *owner == worker));
        }
    }
}
