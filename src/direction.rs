use vstd::prelude::*;

verus! {

/// One of the four headings a walker can take on the grid.
#[derive(Clone, Copy, Debug, PartialEq, Eq, Structural)]
pub enum Direction {
    Left,
    Up,
    Right,
    Down,
}

/// The direction with the given ordinal, in the order Left, Up, Right, Down.
pub open spec fn direction_of_ordinal(ordinal: nat) -> Option<Direction> {
    if ordinal == 0 {
        Some(Direction::Left)
    } else if ordinal == 1 {
        Some(Direction::Up)
    } else if ordinal == 2 {
        Some(Direction::Right)
    } else if ordinal == 3 {
        Some(Direction::Down)
    } else {
        None
    }
}

impl Direction {
    /// Maps 0..4 to Left, Up, Right, Down; any other ordinal is handed back as the error.
    pub fn from_ordinal(ordinal: usize) -> (r: Result<Self, usize>)
        ensures
            ordinal < 4 ==> r == Ok::<Direction, usize>(direction_of_ordinal(ordinal as nat).unwrap()),
            ordinal >= 4 ==> r == Err::<Direction, usize>(ordinal),
    {
        match ordinal {
            0 => Ok(Direction::Left),
            1 => Ok(Direction::Up),
            2 => Ok(Direction::Right),
            3 => Ok(Direction::Down),
            _ => Err(ordinal),
        }
    }
}

} // verus!
