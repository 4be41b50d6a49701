use inventory::catalog::{Item, Listing};
use inventory::command::{CommandLoop, Feedback, LoopState, Request, Selection, selection_of};

#[test]
fn menu_numbers_select_actions() {
    assert_eq!(selection_of(1), Selection::Add);
    assert_eq!(selection_of(2), Selection::Update);
    assert_eq!(selection_of(3), Selection::List);
    assert_eq!(selection_of(4), Selection::Exit);
}

#[test]
fn other_numbers_are_unrecognized() {
    assert_eq!(selection_of(0), Selection::Unrecognized);
    assert_eq!(selection_of(5), Selection::Unrecognized);
    assert_eq!(selection_of(255), Selection::Unrecognized);
}

#[test]
fn new_loop_is_running_over_empty_catalog() {
    let lp = CommandLoop::new();
    assert!(lp.is_running());
    assert_eq!(lp.state, LoopState::Running);
    assert!(matches!(lp.catalog.list_item(), Listing::Empty));
}

#[test]
fn add_then_list_through_loop() {
    let mut lp = CommandLoop::new();
    match lp.handle(Request::Add { name: String::from("Apple"), quantity: 5 }) {
        Feedback::Added { name, quantity } => {
            assert_eq!(name, "Apple");
            assert_eq!(quantity, 5);
        }
        other => panic!("unexpected feedback {:?}", other),
    }
    match lp.handle(Request::List) {
        Feedback::Listed(Listing::Items(items)) => {
            assert_eq!(items, vec![Item { name: String::from("Apple"), quantity: 5 }]);
        }
        other => panic!("unexpected feedback {:?}", other),
    }
    assert!(lp.is_running());
}

#[test]
fn list_on_empty_loop_reports_empty() {
    let mut lp = CommandLoop::new();
    assert!(matches!(lp.handle(Request::List), Feedback::Listed(Listing::Empty)));
    assert!(lp.is_running());
}

#[test]
fn update_through_loop_reports_outcome() {
    let mut lp = CommandLoop::new();
    match lp.handle(Request::Update { name: String::from("Apple"), quantity: 8 }) {
        Feedback::NotFound { name } => assert_eq!(name, "Apple"),
        other => panic!("unexpected feedback {:?}", other),
    }
    lp.handle(Request::Add { name: String::from("Apple"), quantity: 5 });
    match lp.handle(Request::Update { name: String::from("Apple"), quantity: 8 }) {
        Feedback::Updated { name, quantity } => {
            assert_eq!(name, "Apple");
            assert_eq!(quantity, 8);
        }
        other => panic!("unexpected feedback {:?}", other),
    }
    match lp.handle(Request::List) {
        Feedback::Listed(Listing::Items(items)) => {
            assert_eq!(items, vec![Item { name: String::from("Apple"), quantity: 8 }]);
        }
        other => panic!("unexpected feedback {:?}", other),
    }
}

#[test]
fn unrecognized_request_keeps_running_and_catalog() {
    let mut lp = CommandLoop::new();
    lp.handle(Request::Add { name: String::from("Apple"), quantity: 5 });
    assert!(matches!(lp.handle(Request::Unrecognized), Feedback::Unrecognized));
    assert!(lp.is_running());
    match lp.catalog.list_item() {
        Listing::Items(items) => {
            assert_eq!(items, vec![Item { name: String::from("Apple"), quantity: 5 }]);
        }
        Listing::Empty => panic!("catalog lost its record"),
    }
}

#[test]
fn exit_terminates_the_loop() {
    let mut lp = CommandLoop::new();
    assert!(matches!(lp.handle(Request::Exit), Feedback::Exited));
    assert!(!lp.is_running());
    assert_eq!(lp.state, LoopState::Terminated);
}
