use vstd::prelude::*;

use crate::direction::Direction;

verus! {

/// One cell of the grid: the heading the walker left it by, or `None` for
/// the cell the walker stands on.
#[derive(Clone, Copy, Debug, Default, PartialEq, Eq, Structural)]
pub struct MazeNode {
    direction: Option<Direction>,
}

impl View for MazeNode {
    type V = Option<Direction>;

    closed spec fn view(&self) -> Option<Direction> {
        self.direction
    }
}

impl MazeNode {
    pub fn new(direction: Option<Direction>) -> (r: Self)
        ensures
            r@ == direction,
    {
        MazeNode { direction }
    }

    /// The cell of the walker's current position.
    pub fn new_origin() -> (r: Self)
        ensures
            r@ == None::<Direction>,
    {
        Self::new(None)
    }

    /// A visited cell, left by `direction`.
    pub fn new_towards(direction: Direction) -> (r: Self)
        ensures
            r@ == Some(direction),
    {
        Self::new(Some(direction))
    }

    pub fn direction(self) -> (r: Option<Direction>)
        ensures
            r == self@,
    {
        self.direction
    }

    pub fn direction_mut(&mut self) -> (r: &mut Option<Direction>)
        ensures
            *r == old(self)@,
            final(self)@ == *final(r),
    {
        &mut self.direction
    }
}

impl From<Direction> for MazeNode {
    fn from(direction: Direction) -> (r: Self)
        ensures
            r@ == Some(direction),
    {
        Self::new_towards(direction)
    }
}

impl vstd::std_specs::convert::FromSpecImpl<Direction> for MazeNode {
    open spec fn obeys_from_spec() -> bool {
        true
    }

    closed spec fn from_spec(direction: Direction) -> Self {
        MazeNode { direction: Some(direction) }
    }
}

impl From<Option<Direction>> for MazeNode {
    fn from(direction: Option<Direction>) -> (r: Self)
        ensures
            r@ == direction,
    {
        Self::new(direction)
    }
}

impl vstd::std_specs::convert::FromSpecImpl<Option<Direction>> for MazeNode {
    open spec fn obeys_from_spec() -> bool {
        true
    }

    closed spec fn from_spec(direction: Option<Direction>) -> Self {
        MazeNode { direction }
    }
}

} // verus!
