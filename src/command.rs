//! The decisions of the interactive command loop: which action a menu
//! selection names, and what one request does to the catalog and the loop.

use vstd::prelude::*;
use crate::catalog::{Collection, Listing, UpdateOutcome, lists_exactly};

verus! {

/// Menu number of the add action.
pub const CHOICE_ADD: u8 = 1;

/// Menu number of the update action.
pub const CHOICE_UPDATE: u8 = 2;

/// Menu number of the list action.
pub const CHOICE_LIST: u8 = 3;

/// Menu number of the exit action.
pub const CHOICE_EXIT: u8 = 4;

/// The state of the loop.
#[derive(PartialEq, Eq, Structural, Clone, Copy, Debug)]
pub enum LoopState {
    Running,
    Terminated,
}

/// The action a menu selection names.
#[derive(PartialEq, Eq, Structural, Clone, Copy, Debug)]
pub enum Selection {
    Add,
    Update,
    List,
    Exit,
    Unrecognized,
}

/// The action named by menu number `choice`.
pub open spec fn selection_spec(choice: u8) -> Selection {
    if choice == CHOICE_ADD {
        Selection::Add
    } else if choice == CHOICE_UPDATE {
        Selection::Update
    } else if choice == CHOICE_LIST {
        Selection::List
    } else if choice == CHOICE_EXIT {
        Selection::Exit
    } else {
        Selection::Unrecognized
    }
}

/// Maps a menu number to its action; any other number is `Unrecognized`.
pub fn selection_of(choice: u8) -> (r: Selection)
    ensures
        r == selection_spec(choice),
{
    if choice == CHOICE_ADD {
        Selection::Add
    } else if choice == CHOICE_UPDATE {
        Selection::Update
    } else if choice == CHOICE_LIST {
        Selection::List
    } else if choice == CHOICE_EXIT {
        Selection::Exit
    } else {
        Selection::Unrecognized
    }
}

/// One request to the loop, with the name and quantity that add and update need.
#[derive(Debug)]
pub enum Request {
    Add { name: String, quantity: u8 },
    Update { name: String, quantity: u8 },
    List,
    Exit,
    Unrecognized,
}

/// What the loop reports back for one request.
#[derive(Debug)]
pub enum Feedback {
    Added { name: String, quantity: u8 },
    Updated { name: String, quantity: u8 },
    NotFound { name: String },
    Listed(Listing),
    Exited,
    Unrecognized,
}

/// The catalog together with the state of the loop that owns it.
pub struct CommandLoop {
    pub catalog: Collection,
    pub state: LoopState,
}

impl CommandLoop {
    /// A running loop over an empty catalog.
    pub fn new() -> (r: Self)
        ensures
            r.catalog.wf(),
            r.catalog@ == Map::<Seq<char>, u8>::empty(),
            r.state == LoopState::Running,
    {
        CommandLoop { catalog: Collection::new(), state: LoopState::Running }
    }

    /// Whether the loop still takes requests.
    pub fn is_running(&self) -> (r: bool)
        ensures
            r == (self.state == LoopState::Running),
    {
        self.state == LoopState::Running
    }

    /// Carries out one request: add, update and list act on the catalog and
    /// keep the loop running; exit terminates it; an unrecognized request
    /// touches nothing.
    pub fn handle(&mut self, request: Request) -> (r: Feedback)
        requires
            old(self).catalog.wf(),
            old(self).state == LoopState::Running,
            request matches Request::Add { name, .. } ==> name@.len() > 0,
        ensures
            final(self).catalog.wf(),
            final(self).state == (if request is Exit {
                LoopState::Terminated
            } else {
                LoopState::Running
            }),
            match request {
                Request::Add { name, quantity } => {
                    &&& final(self).catalog@ == old(self).catalog@.insert(name@, quantity)
                    &&& r matches Feedback::Added { name: n, quantity: q } && n@ == name@ && q
                        == quantity
                },
                Request::Update { name, quantity } => if old(self).catalog@.contains_key(name@) {
                    &&& final(self).catalog@ == old(self).catalog@.insert(name@, quantity)
                    &&& r matches Feedback::Updated { name: n, quantity: q } && n@ == name@ && q
                        == quantity
                } else {
                    &&& final(self).catalog@ == old(self).catalog@
                    &&& r matches Feedback::NotFound { name: n } && n@ == name@
                },
                Request::List => {
                    &&& final(self).catalog@ == old(self).catalog@
                    &&& r matches Feedback::Listed(l)
                    &&& (l is Empty) == (old(self).catalog@ == Map::<Seq<char>, u8>::empty())
                    &&& l matches Listing::Items(v) ==> lists_exactly(v@, old(self).catalog@)
                },
                Request::Exit => {
                    &&& final(self).catalog@ == old(self).catalog@
                    &&& r is Exited
                },
                Request::Unrecognized => {
                    &&& final(self).catalog@ == old(self).catalog@
                    &&& r is Unrecognized
                },
            },
    {
        match request {
            Request::Add { name, quantity } => {
                let shown = name.clone();
                self.catalog.add_item(name, quantity);
                Feedback::Added { name: shown, quantity }
            },
            Request::Update { name, quantity } => {
                let shown = name.clone();
                match self.catalog.update_item(name, quantity) {
                    UpdateOutcome::Updated => Feedback::Updated { name: shown, quantity },
                    UpdateOutcome::NotFound => Feedback::NotFound { name: shown },
                }
            },
            Request::List => Feedback::Listed(self.catalog.list_item()),
            Request::Exit => {
                self.state = LoopState::Terminated;
                Feedback::Exited
            },
            Request::Unrecognized => Feedback::Unrecognized,
        }
    }
}

} // verus!
