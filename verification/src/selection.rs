//! The selection of a drag: from the column where it starts to the column
//! where the contact is lifted.

use crate::model::Region;
use vstd::prelude::*;

verus! {

/// The three kinds of selection event of a drag.
#[derive(Copy, Clone, Debug, PartialEq, Eq, Hash, Structural)]
pub enum SelectionEventType {
    Start,
    Update,
    End,
}

/// A selection event: the kind, and the row and column that the contact is on.
#[derive(Copy, Clone, Debug, PartialEq, Eq, Structural)]
pub struct SelectionEvent {
    pub region: Region,
    pub column: usize,
    pub kind: SelectionEventType,
}

/// What is selected: nothing, or the columns from a source to a running
/// destination in the row where the drag started.
#[derive(Copy, Clone, Debug, PartialEq, Eq, Structural)]
pub enum SelectionState {
    Idle,
    Active { region: Region, source: usize, destination: Option<usize> },
}

/// The columns of a finished drag, in a row: from `start` up to, not
/// including, `end`.
#[derive(Copy, Clone, Debug, PartialEq, Eq, Structural)]
pub struct Span {
    pub region: Region,
    pub start: usize,
    pub end: usize,
}

/// The source and the running destination of the selection that is shown.
#[derive(Copy, Clone, Debug, PartialEq, Eq, Structural)]
pub struct ViewModel(pub Option<usize>, pub Option<usize>);

/// The smaller of two columns.
pub open spec fn min_column(a: usize, b: usize) -> usize {
    if a <= b {
        a
    } else {
        b
    }
}

/// The larger of two columns.
pub open spec fn max_column(a: usize, b: usize) -> usize {
    if a <= b {
        b
    } else {
        a
    }
}

/// The state after an event. The row of an `Update` or `End` is not looked
/// at: the row of the `Start` stands for the whole drag. An `Update` or `End`
/// with no drag under way changes nothing.
pub open spec fn next_state(state: SelectionState, event: SelectionEvent) -> SelectionState {
    match event.kind {
        SelectionEventType::Start => SelectionState::Active {
            region: event.region,
            source: event.column,
            destination: None,
        },
        SelectionEventType::Update => match state {
            SelectionState::Idle => SelectionState::Idle,
            SelectionState::Active { region, source, destination } => SelectionState::Active {
                region,
                source,
                destination: Some(event.column),
            },
        },
        SelectionEventType::End => SelectionState::Idle,
    }
}

/// The span that an event finishes: an `End` during a drag gives the columns
/// from the smaller of source and destination to one past the larger.
pub open spec fn finished_span(state: SelectionState, event: SelectionEvent) -> Option<Span> {
    match (event.kind, state) {
        (SelectionEventType::End, SelectionState::Active { region, source, destination }) => Some(
            Span {
                region,
                start: min_column(source, event.column),
                end: (max_column(source, event.column) + 1) as usize,
            },
        ),
        _ => None,
    }
}

/// The column of the event goes into a span: it is the source of a drag, or
/// ends one. The column of an `Update`, and of an `End` with no drag under
/// way, goes into none.
pub open spec fn column_counts(state: SelectionState, event: SelectionEvent) -> bool {
    match event.kind {
        SelectionEventType::Start => true,
        SelectionEventType::Update => false,
        SelectionEventType::End => state is Active,
    }
}

/// Every column of the state is below the largest `usize`, so that the column
/// after it can be named.
pub open spec fn state_in_bounds(state: SelectionState) -> bool {
    match state {
        SelectionState::Idle => true,
        SelectionState::Active { region, source, destination } => source < usize::MAX,
    }
}

/// Turns the events of a drag into its span.
#[derive(Copy, Clone, Debug)]
pub struct SelectionController {
    state: SelectionState,
}

impl View for SelectionController {
    type V = SelectionState;

    closed spec fn view(&self) -> SelectionState {
        self.state
    }
}

impl SelectionController {
    #[verifier::type_invariant]
    spec fn well_formed(self) -> bool {
        state_in_bounds(self.state)
    }

    /// A controller with nothing selected.
    pub fn new() -> (controller: Self)
        ensures
            controller@ == SelectionState::Idle,
    {
        SelectionController { state: SelectionState::Idle }
    }

    /// What is selected now.
    pub fn state(&self) -> (state: SelectionState)
        ensures
            state == self@,
            state_in_bounds(state),
    {
        proof {
            use_type_invariant(self);
        }
        self.state
    }

    /// What is to be shown of the selection: its source and running destination.
    pub fn view_model(&self) -> (shown: ViewModel)
        ensures
            shown == (match self@ {
                SelectionState::Idle => ViewModel(None, None),
                SelectionState::Active { region, source, destination } => ViewModel(
                    Some(source),
                    destination,
                ),
            }),
    {
        match self.state {
            SelectionState::Idle => ViewModel(None, None),
            SelectionState::Active { region, source, destination } => ViewModel(
                Some(source),
                destination,
            ),
        }
    }

    /// Takes an event and gives the span that it finishes, if any. Where the
    /// column counts, it must be below the largest `usize`.
    pub fn handle(&mut self, event: SelectionEvent) -> (span: Option<Span>)
        requires
            column_counts(old(self)@, event) ==> event.column < usize::MAX,
        ensures
            final(self)@ == next_state(old(self)@, event),
            span == finished_span(old(self)@, event),
            span matches Some(s) ==> s.start < s.end,
    {
        proof {
            use_type_invariant(&*self);
        }
        match event.kind {
            SelectionEventType::Start => {
                self.state =
                SelectionState::Active {
                    region: event.region,
                    source: event.column,
                    destination: None,
                };
                None
            },
            SelectionEventType::Update => {
                match self.state {
                    SelectionState::Idle => {},
                    SelectionState::Active { region, source, destination } => {
                        self.state =
                        SelectionState::Active { region, source, destination: Some(event.column) };
                    },
                }
                None
            },
            SelectionEventType::End => {
                let finished = match self.state {
                    SelectionState::Idle => None,
                    SelectionState::Active { region, source, destination } => {
                        let (low, high) = if source <= event.column {
                            (source, event.column)
                        } else {
                            (event.column, source)
                        };
                        Some(Span { region, start: low, end: high + 1 })
                    },
                };
                self.state = SelectionState::Idle;
                finished
            },
        }
    }
}

impl ViewModel {
    /// The columns that are shown as selected: from the smaller of source and
    /// destination to the larger, both included; a selection without a
    /// destination is its source alone.
    pub open spec fn spec_columns(&self) -> Option<(usize, usize)> {
        match (self.0, self.1) {
            (Some(source), Some(destination)) => Some(
                (min_column(source, destination), max_column(source, destination)),
            ),
            (Some(source), None) => Some((source, source)),
            (None, _) => None,
        }
    }

    /// The first and the last column that are shown as selected, if any is.
    #[verifier::when_used_as_spec(spec_columns)]
    pub fn columns(&self) -> (columns: Option<(usize, usize)>)
        ensures
            columns == self.spec_columns(),
    {
        match self.0 {
            None => None,
            Some(source) => {
                let destination = match self.1 {
                    Some(destination) => destination,
                    None => source,
                };
                if source <= destination {
                    Some((source, destination))
                } else {
                    Some((destination, source))
                }
            },
        }
    }
}

} // verus!
