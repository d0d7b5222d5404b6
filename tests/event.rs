use hotshot_vote::event::{Committed, Event, EventType, Stage};

#[test]
fn decide_lists_newest_first() {
    let committed = vec![
        Committed { view_number: 5, block: "block5", state: 50u32 },
        Committed { view_number: 6, block: "block6", state: 60u32 },
        Committed { view_number: 7, block: "block7", state: 70u32 },
    ];
    let e = Event::decide(7, Stage::Decide, committed);
    assert_eq!(e.view_number, 7);
    assert_eq!(e.stage, Stage::Decide);
    match e.event {
        EventType::Decide { block, state } => {
            assert_eq!(*block, vec!["block7", "block6", "block5"]);
            assert_eq!(*state, vec![70, 60, 50]);
        }
        _ => panic!("expected a decide event"),
    }
}

#[test]
fn decide_of_nothing_is_empty() {
    let e: Event<u8, u8> = Event::decide(1, Stage::Commit, Vec::new());
    match e.event {
        EventType::Decide { block, state } => {
            assert!(block.is_empty());
            assert!(state.is_empty());
        }
        _ => panic!("expected a decide event"),
    }
}
