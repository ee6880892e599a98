//! Stored button actions and their four-byte encodings.
use vstd::prelude::*;

verus! {

/// An assignment supported by the validated format-1 editor.
#[derive(Debug, Clone, Copy, PartialEq, Eq, Structural)]
pub enum ProfileAssignment {
    /// Primary mouse click.
    MousePrimary,
    /// Secondary mouse click.
    MouseSecondary,
    /// Middle mouse click.
    MouseMiddle,
    /// Back mouse button.
    MouseBack,
    /// Forward mouse button.
    MouseForward,
    /// Select the next DPI stage.
    DpiNext,
    /// Select the previous DPI stage.
    DpiPrevious,
    /// Hold the shifted DPI stage.
    DpiShift,
}

impl ProfileAssignment {
    /// The stored form of an action.
    pub open spec fn code(self) -> Seq<u8> {
        match self {
            ProfileAssignment::MousePrimary => seq![0x80, 1, 0, 1],
            ProfileAssignment::MouseSecondary => seq![0x80, 1, 0, 2],
            ProfileAssignment::MouseMiddle => seq![0x80, 1, 0, 4],
            ProfileAssignment::MouseBack => seq![0x80, 1, 0, 8],
            ProfileAssignment::MouseForward => seq![0x80, 1, 0, 16],
            ProfileAssignment::DpiNext => seq![0x90, 3, 0xff, 0xff],
            ProfileAssignment::DpiPrevious => seq![0x90, 4, 0xff, 0xff],
            ProfileAssignment::DpiShift => seq![0x90, 7, 0xff, 0xff],
        }
    }

    /// The action that a stored form stands for, if it stands for a supported one.
    pub open spec fn with_code(bytes: Seq<u8>) -> Option<ProfileAssignment> {
        if exists|assignment: ProfileAssignment| #[trigger] assignment.code() == bytes {
            Some(choose|assignment: ProfileAssignment| #[trigger] assignment.code() == bytes)
        } else {
            None
        }
    }

    /// Encodes one format-1 assignment.
    #[must_use]
    pub fn encode(self) -> (bytes: [u8; 4])
        ensures
            bytes@ == self.code(),
    {
        let bytes: [u8; 4] = match self {
            ProfileAssignment::MousePrimary => [0x80, 1, 0, 1],
            ProfileAssignment::MouseSecondary => [0x80, 1, 0, 2],
            ProfileAssignment::MouseMiddle => [0x80, 1, 0, 4],
            ProfileAssignment::MouseBack => [0x80, 1, 0, 8],
            ProfileAssignment::MouseForward => [0x80, 1, 0, 16],
            ProfileAssignment::DpiNext => [0x90, 3, 0xff, 0xff],
            ProfileAssignment::DpiPrevious => [0x90, 4, 0xff, 0xff],
            ProfileAssignment::DpiShift => [0x90, 7, 0xff, 0xff],
        };
        assert(bytes@ =~= self.code());
        bytes
    }

    /// Recognizes an exact supported assignment without normalizing unknown bytes.
    #[must_use]
    pub fn decode(bytes: [u8; 4]) -> (result: Option<Self>)
        ensures
            result == Self::with_code(bytes@),
            match result {
                Some(assignment) => bytes@ == assignment.code(),
                None => forall|assignment: ProfileAssignment|
                    #![trigger assignment.code()]
                    assignment.code() != bytes@,
            },
    {
        let (head, kind, high, low) = (bytes[0], bytes[1], bytes[2], bytes[3]);
        let result = if head == 0x80 && kind == 1 && high == 0 {
            match low {
                1 => Some(ProfileAssignment::MousePrimary),
                2 => Some(ProfileAssignment::MouseSecondary),
                4 => Some(ProfileAssignment::MouseMiddle),
                8 => Some(ProfileAssignment::MouseBack),
                16 => Some(ProfileAssignment::MouseForward),
                _ => None,
            }
        } else if head == 0x90 && high == 0xff && low == 0xff {
            match kind {
                3 => Some(ProfileAssignment::DpiNext),
                4 => Some(ProfileAssignment::DpiPrevious),
                7 => Some(ProfileAssignment::DpiShift),
                _ => None,
            }
        } else {
            None
        };
        proof {
            if let Some(assignment) = result {
                assert(bytes@ =~= assignment.code());
                assignment_codes_are_distinct(assignment, Self::with_code(bytes@)->0);
            } else {
                assert forall|assignment: ProfileAssignment| #[trigger]
                    assignment.code() != bytes@ by {
                    if assignment.code() == bytes@ {
                        assert(assignment.code()[0] == head && assignment.code()[1] == kind
                            && assignment.code()[2] == high && assignment.code()[3] == low);
                    }
                }
            }
        }
        result
    }
}

/// No two actions share a stored form, so an encoding reads back as the action that made it.
pub proof fn assignment_codes_are_distinct(left: ProfileAssignment, right: ProfileAssignment)
    ensures
        left.code().len() == 4,
        left.code() == right.code() ==> left == right,
{
    if left.code() == right.code() {
        assert(left.code()[1] == right.code()[1]);
        assert(left.code()[3] == right.code()[3]);
    }
}

} // verus!
