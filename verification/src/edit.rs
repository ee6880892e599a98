//! Bounded edits of a stored profile.
use vstd::prelude::*;
use vstd::slice::slice_to_vec;
use vstd::string::*;

use crate::assignment::{assignment_codes_are_distinct, ProfileAssignment};
use crate::checksum::{seal, sealed, sealing_a_sealed_sector_changes_nothing, sealing_seals};
use crate::description::{ProfileDescription, MAX_BUTTONS, PROFILE_SIZE};
use crate::report_rate::ReportRateList;
use crate::sector::{
    assignment_bytes, is_readable, profile_fields, ProfileData, ProfileFields, ASSIGNMENTS_OFFSET,
    ASSIGNMENT_SIZE,
};
use crate::text::{decimal, push_decimal};

verus! {

/// One primary assignment selected for replacement.
#[derive(Debug, Clone, Copy, PartialEq, Eq, Structural)]
pub struct AssignmentEdit {
    /// Zero-based physical button index.
    pub index: u8,
    /// Replacement action.
    pub assignment: ProfileAssignment,
}

/// Explicit changes to a stored profile, leaving all other fields untouched.
#[derive(Debug)]
pub struct ProfileEdit {
    /// A device-advertised report interval, or no change.
    pub report_interval_ms: Option<u8>,
    /// Primary assignments to replace, with no duplicate indices.
    pub assignments: Vec<AssignmentEdit>,
}

/// The contents of a list of changes.
#[verifier::ext_equal]
pub struct Edits {
    pub report_interval_ms: Option<u8>,
    pub assignments: Seq<AssignmentEdit>,
}

impl View for ProfileEdit {
    type V = Edits;

    open spec fn view(&self) -> Edits {
        Edits { report_interval_ms: self.report_interval_ms, assignments: self.assignments@ }
    }
}

impl Clone for ProfileEdit {
    fn clone(&self) -> (copy: Self)
        ensures
            copy@ == self@,
    {
        let copy = ProfileEdit {
            report_interval_ms: self.report_interval_ms,
            assignments: self.assignments.clone(),
        };
        assert(copy@ =~= self@);
        copy
    }
}

impl Default for ProfileEdit {
    /// No change at all.
    fn default() -> (edit: Self)
        ensures
            edit@ == (Edits { report_interval_ms: None, assignments: Seq::empty() }),
    {
        ProfileEdit { report_interval_ms: None, assignments: Vec::new() }
    }
}

/// An edit rejected before any hardware write.
#[derive(Debug, Clone, Copy, PartialEq, Eq, Structural)]
pub enum ProfileEditError {
    /// The descriptor or source bytes do not form a supported writable sector.
    InvalidSource,
    /// The requested interval is absent from the advertised capability list.
    InvalidInterval(u8),
    /// The physical index does not exist in the descriptor.
    InvalidButton(u8),
    /// Multiple edits target the same physical button.
    DuplicateButton(u8),
}

impl ProfileEditError {
    /// The message of a rejection.
    pub open spec fn text(self) -> Seq<char> {
        match self {
            ProfileEditError::InvalidSource
            => "unsupported profile layout or invalid source checksum"@,
            ProfileEditError::InvalidInterval(interval) => "report interval "@ + decimal(
                interval as nat,
            ) + " ms is not advertised"@,
            ProfileEditError::InvalidButton(index) => "button index "@ + decimal(index as nat)
                + " is outside the profile"@,
            ProfileEditError::DuplicateButton(index) => "button index "@ + decimal(index as nat)
                + " appears more than once"@,
        }
    }

    /// Says why the edit was rejected.
    pub fn message(&self) -> (text: String)
        ensures
            text@ == self.text(),
    {
        match *self {
            ProfileEditError::InvalidSource => {
                "unsupported profile layout or invalid source checksum".to_owned()
            },
            ProfileEditError::InvalidInterval(interval) => {
                let mut text: String = "report interval ".to_owned();
                push_decimal(&mut text, interval as u64);
                text.append(" ms is not advertised");
                text
            },
            ProfileEditError::InvalidButton(index) => {
                let mut text: String = "button index ".to_owned();
                push_decimal(&mut text, index as u64);
                text.append(" is outside the profile");
                text
            },
            ProfileEditError::DuplicateButton(index) => {
                let mut text: String = "button index ".to_owned();
                push_decimal(&mut text, index as u64);
                text.append(" appears more than once");
                text
            },
        }
    }
}

/// Where the assignment of a button begins.
pub open spec fn assignment_offset(index: int) -> int {
    ASSIGNMENTS_OFFSET + index * ASSIGNMENT_SIZE
}

/// A sector with one assignment replaced.
pub open spec fn with_assignment(raw: Seq<u8>, edit: AssignmentEdit) -> Seq<u8> {
    let offset = assignment_offset(edit.index as int);
    Seq::new(
        raw.len(),
        |i: int|
            if offset <= i < offset + ASSIGNMENT_SIZE {
                edit.assignment.code()[i - offset]
            } else {
                raw[i]
            },
    )
}

/// A sector with a list of assignments replaced.
pub open spec fn with_assignments(raw: Seq<u8>, edits: Seq<AssignmentEdit>) -> Seq<u8>
    decreases edits.len(),
{
    if edits.len() == 0 {
        raw
    } else {
        with_assignment(with_assignments(raw, edits.drop_last()), edits.last())
    }
}

/// A sector with its report interval replaced, where one is requested.
pub open spec fn with_interval(raw: Seq<u8>, interval: Option<u8>) -> Seq<u8> {
    match interval {
        Some(interval) => raw.update(0, interval),
        None => raw,
    }
}

/// A sector with the requested fields replaced and its checksum renewed.
pub open spec fn edited(raw: Seq<u8>, edit: Edits) -> Seq<u8> {
    sealed(
        with_assignments(with_interval(raw, edit.report_interval_ms), edit.assignments),
    )
}

/// What is wrong with one replacement, given those before it.
pub open spec fn assignment_fault(
    edits: Seq<AssignmentEdit>,
    position: int,
    button_count: u8,
) -> Option<ProfileEditError> {
    let index = edits[position].index;
    if index >= button_count {
        Some(ProfileEditError::InvalidButton(index))
    } else if exists|earlier: int|
        0 <= earlier < position && (#[trigger] edits[earlier]).index == index {
        Some(ProfileEditError::DuplicateButton(index))
    } else {
        None
    }
}

/// What is wrong with the first faulty replacement from `position` on.
pub open spec fn first_fault(
    edits: Seq<AssignmentEdit>,
    position: int,
    button_count: u8,
) -> Option<ProfileEditError>
    decreases edits.len() - position,
{
    if position >= edits.len() {
        None
    } else if assignment_fault(edits, position, button_count) is Some {
        assignment_fault(edits, position, button_count)
    } else {
        first_fault(edits, position + 1, button_count)
    }
}

/// Why an edit of a sector is rejected, if it is.
pub open spec fn edit_fault(
    raw: Seq<u8>,
    description: ProfileDescription,
    edit: Edits,
    supported: ReportRateList,
) -> Option<ProfileEditError> {
    if description.sector_size % 16 != 0 || !is_readable(raw, description) {
        Some(ProfileEditError::InvalidSource)
    } else if edit.report_interval_ms matches Some(interval) && !supported.advertises(interval) {
        Some(ProfileEditError::InvalidInterval(edit.report_interval_ms->0))
    } else {
        first_fault(edit.assignments, 0, description.button_count)
    }
}

/// The contents of a change.
#[verifier::ext_equal]
pub struct Change {
    pub description: ProfileDescription,
    pub before: Seq<u8>,
    pub after: ProfileFields,
}

impl Change {
    /// Both sectors fill whole blocks of the described layout, and the replacement is readable.
    pub open spec fn is_valid(self) -> bool {
        &&& self.description.sector_size % 16 == 0
        &&& self.before.len() == self.description.sector_size
        &&& is_readable(self.after.raw, self.description)
        &&& self.after == profile_fields(self.after.raw, self.description)
    }
}

/// A byte-preserving edit and its exact original, suitable for explicit restoration.
#[derive(Debug)]
pub struct ProfileChange {
    description: ProfileDescription,
    before: Vec<u8>,
    after: ProfileData,
}

impl View for ProfileChange {
    type V = Change;

    closed spec fn view(&self) -> Change {
        Change { description: self.description, before: self.before@, after: self.after@ }
    }
}

impl Clone for ProfileChange {
    fn clone(&self) -> (copy: Self)
        ensures
            copy@ == self@,
    {
        proof {
            use_type_invariant(self);
        }
        let before: Vec<u8> = self.before.clone();
        let after: ProfileData = self.after.clone();
        assert(before@ =~= self.before@);
        ProfileChange { description: self.description, before, after }
    }
}

/// Puts one assignment into a sector.
fn replace_assignment(raw: &mut Vec<u8>, edit: AssignmentEdit)
    requires
        old(raw)@.len() >= PROFILE_SIZE,
        edit.index < MAX_BUTTONS,
    ensures
        final(raw)@ == with_assignment(old(raw)@, edit),
{
    let ghost start = raw@;
    let code: [u8; 4] = edit.assignment.encode();
    let offset: usize = ASSIGNMENTS_OFFSET + edit.index as usize * ASSIGNMENT_SIZE;
    raw.set(offset, code[0]);
    raw.set(offset + 1, code[1]);
    raw.set(offset + 2, code[2]);
    raw.set(offset + 3, code[3]);
    assert(raw@ =~= with_assignment(start, edit));
}

proof fn bit_is_recorded(seen: u16, index: u16, other: u16)
    requires
        index < 16,
        other < 16,
    ensures
        (seen | (1u16 << index)) & (1u16 << other) != 0 <==> seen & (1u16 << other) != 0 || index
            == other,
{
    assert((seen | (1u16 << index)) & (1u16 << other) != 0 <==> seen & (1u16 << other) != 0
        || index == other) by (bit_vector)
        requires
            index < 16,
            other < 16,
    ;
}

impl ProfileChange {
    /// The change holds two sectors of one layout, of which the replacement is readable.
    #[verifier::type_invariant]
    pub open spec fn is_well_formed(self) -> bool {
        self@.is_valid()
    }

    /// Validates the source and encodes only the requested fields.
    pub fn new(
        original: &ProfileData,
        description: ProfileDescription,
        edit: &ProfileEdit,
        supported_intervals: ReportRateList,
    ) -> (result: Result<Self, ProfileEditError>)
        ensures
            match result {
                Ok(change) => {
                    &&& edit_fault(original.raw@, description, edit@, supported_intervals) is None
                    &&& change@.description == description
                    &&& change@.before == original.raw@
                    &&& change@.after == profile_fields(
                        edited(original.raw@, edit@),
                        description,
                    )
                },
                Err(error) => edit_fault(
                    original.raw@,
                    description,
                    edit@,
                    supported_intervals,
                ) == Some(error),
            },
    {
        if description.sector_size % 16 != 0 {
            return Err(ProfileEditError::InvalidSource);
        }
        let source: Vec<u8> = original.raw.clone();
        assert(source@ =~= original.raw@);
        let before = match ProfileData::decode(source, &description) {
            Ok(before) => before,
            Err(_) => {
                return Err(ProfileEditError::InvalidSource);
            },
        };
        let mut raw: Vec<u8> = before.raw.clone();
        assert(raw@ =~= original.raw@);
        if let Some(interval) = edit.report_interval_ms {
            if !supported_intervals.contains(interval) {
                return Err(ProfileEditError::InvalidInterval(interval));
            }
            raw.set(0, interval);
        }
        let ghost base = with_interval(original.raw@, edit.report_interval_ms);
        assert(raw@ =~= base);
        let ghost edits = edit.assignments@;
        assert(edits.take(0) =~= Seq::<AssignmentEdit>::empty());
        let mut seen: u16 = 0;
        let mut position: usize = 0;
        assert forall|index: u16| index < 16 implies #[trigger] (0u16 & (1u16 << index)) == 0 by {
            assert(0u16 & (1u16 << index) == 0) by (bit_vector);
        }
        while position < edit.assignments.len()
            invariant
                position <= edits.len(),
                edits == edit.assignments@,
                base.len() == original.raw@.len() >= PROFILE_SIZE,
                raw@ == with_assignments(base, edits.take(position as int)),
                raw@.len() == base.len(),
                description.button_count <= MAX_BUTTONS,
                first_fault(edits, 0, description.button_count) == first_fault(
                    edits,
                    position as int,
                    description.button_count,
                ),
                forall|index: u16|
                    index < 16 ==> (#[trigger] (seen & (1u16 << index)) != 0 <==> exists|
                        earlier: int,
                    |
                        0 <= earlier < position && (#[trigger] edits[earlier]).index == index),
                edit_fault(original.raw@, description, edit@, supported_intervals) == first_fault(
                    edits,
                    0,
                    description.button_count,
                ),
            decreases edits.len() - position,
        {
            let next: AssignmentEdit = edit.assignments[position];
            if next.index >= description.button_count {
                return Err(ProfileEditError::InvalidButton(next.index));
            }
            let index: u16 = next.index as u16;
            if seen & (1u16 << index) != 0 {
                assert(exists|earlier: int|
                    0 <= earlier < position && (#[trigger] edits[earlier]).index == next.index);
                return Err(ProfileEditError::DuplicateButton(next.index));
            }
            assert(assignment_fault(edits, position as int, description.button_count) is None) by {
                if exists|earlier: int|
                    0 <= earlier < position && (#[trigger] edits[earlier]).index == next.index {
                    let earlier = choose|earlier: int|
                        0 <= earlier < position && (#[trigger] edits[earlier]).index == next.index;
                    assert(edits[earlier].index == index);
                    assert(seen & (1u16 << index) != 0);
                }
            }
            let ghost recorded = seen;
            seen = seen | (1u16 << index);
            proof {
                let longer = edits.take(position + 1);
                assert(longer.drop_last() =~= edits.take(position as int));
                assert(longer.last() == next);
                assert forall|other: u16| other < 16 implies (#[trigger] (seen & (1u16 << other))
                    != 0 <==> exists|earlier: int|
                    0 <= earlier < position + 1 && (#[trigger] edits[earlier]).index == other) by {
                    bit_is_recorded(recorded, index, other);
                    if recorded & (1u16 << other) != 0 {
                        let earlier = choose|earlier: int|
                            0 <= earlier < position && (#[trigger] edits[earlier]).index == other;
                        assert(edits[earlier].index == other);
                    }
                    if index == other {
                        assert(edits[position as int].index == other);
                    }
                }
            }
            replace_assignment(&mut raw, next);
            position = position + 1;
        }
        assert(edits.take(edits.len() as int) =~= edits);
        proof {
            sealing_seals(raw@);
        }
        seal(&mut raw);
        match ProfileData::decode(raw, &description) {
            Ok(after) => Ok(ProfileChange { description, before: before.raw, after }),
            Err(_) => Err(ProfileEditError::InvalidSource),
        }
    }

    /// The layout that both sectors have.
    pub fn description(&self) -> (description: ProfileDescription)
        ensures
            description == self@.description,
    {
        self.description
    }

    /// The complete original sector, with unknown fields.
    #[must_use]
    pub fn before(&self) -> (before: &[u8])
        ensures
            before@ == self@.before,
    {
        self.before.as_slice()
    }

    /// The complete replacement sector with its checksum.
    #[must_use]
    pub fn after(&self) -> (after: &ProfileData)
        ensures
            after@ == self@.after,
    {
        &self.after
    }

    /// Reverses this exact change without reconstructing unknown original fields.
    pub fn restoration(&self) -> (result: Result<Self, ProfileEditError>)
        ensures
            match result {
                Ok(restoration) => {
                    &&& is_readable(self@.before, self@.description)
                    &&& restoration@ == restored(self@.after.raw, self@.before, self@.description)
                },
                Err(error) => error == ProfileEditError::InvalidSource && !is_readable(
                    self@.before,
                    self@.description,
                ),
            },
    {
        proof {
            use_type_invariant(self);
        }
        Self::for_restore(self.after.raw.as_slice(), self.before.as_slice(), self.description)
    }

    /// Restores validated backup bytes against an exact fresh read, even if that read has a bad
    /// checksum.
    pub fn for_restore(
        current: &[u8],
        original: &[u8],
        description: ProfileDescription,
    ) -> (result: Result<Self, ProfileEditError>)
        ensures
            match result {
                Ok(change) => {
                    &&& is_restorable(current@, original@, description)
                    &&& change@ == restored(current@, original@, description)
                },
                Err(error) => error == ProfileEditError::InvalidSource && !is_restorable(
                    current@,
                    original@,
                    description,
                ),
            },
    {
        if description.sector_size % 16 != 0 || current.len() != description.sector_size as usize {
            return Err(ProfileEditError::InvalidSource);
        }
        match ProfileData::decode(slice_to_vec(original), &description) {
            Ok(after) => Ok(ProfileChange { description, before: slice_to_vec(current), after }),
            Err(_) => Err(ProfileEditError::InvalidSource),
        }
    }
}

/// A sector can be overwritten by a backup of the same writable layout.
pub open spec fn is_restorable(
    current: Seq<u8>,
    original: Seq<u8>,
    description: ProfileDescription,
) -> bool {
    &&& description.sector_size % 16 == 0
    &&& current.len() == description.sector_size
    &&& is_readable(original, description)
}

/// The change that puts an original sector back.
pub open spec fn restored(
    current: Seq<u8>,
    original: Seq<u8>,
    description: ProfileDescription,
) -> Change {
    Change { description, before: current, after: profile_fields(original, description) }
}

/// Whether a list of replacements touches a byte.
pub open spec fn covers(edits: Seq<AssignmentEdit>, byte: int) -> bool {
    exists|position: int|
        0 <= position < edits.len() && #[trigger] assignment_offset(edits[position].index as int)
            <= byte < assignment_offset(edits[position].index as int) + ASSIGNMENT_SIZE
}

proof fn replacements_keep_other_bytes(raw: Seq<u8>, edits: Seq<AssignmentEdit>, byte: int)
    requires
        0 <= byte < raw.len(),
    ensures
        with_assignments(raw, edits).len() == raw.len(),
        !covers(edits, byte) ==> with_assignments(raw, edits)[byte] == raw[byte],
    decreases edits.len(),
{
    if edits.len() > 0 {
        let shorter = edits.drop_last();
        replacements_keep_other_bytes(raw, shorter, byte);
        if !covers(edits, byte) {
            assert(!covers(shorter, byte)) by {
                if covers(shorter, byte) {
                    let position = choose|position: int|
                        0 <= position < shorter.len() && #[trigger] assignment_offset(
                            shorter[position].index as int,
                        ) <= byte < assignment_offset(shorter[position].index as int)
                            + ASSIGNMENT_SIZE;
                    assert(edits[position] == shorter[position]);
                }
            }
            let last = edits.len() - 1;
            assert(!(assignment_offset(edits[last].index as int) <= byte < assignment_offset(
                edits[last].index as int,
            ) + ASSIGNMENT_SIZE));
        }
    }
}

/// An edit keeps the length of a sector and, before the checksum, every byte that neither the
/// interval nor a replaced assignment holds.
pub proof fn an_edit_keeps_unrelated_bytes(raw: Seq<u8>, edit: Edits, byte: int)
    requires
        raw.len() >= PROFILE_SIZE,
        0 <= byte < raw.len() - 2,
        byte == 0 ==> edit.report_interval_ms is None,
        !covers(edit.assignments, byte),
    ensures
        edited(raw, edit).len() == raw.len(),
        edited(raw, edit)[byte] == raw[byte],
{
    let base = with_interval(raw, edit.report_interval_ms);
    replacements_keep_other_bytes(base, edit.assignments, byte);
    let replaced = with_assignments(base, edit.assignments);
    sealing_seals(replaced);
    assert(sealed(replaced).take(raw.len() - 2)[byte] == sealed(replaced)[byte]);
    assert(replaced.take(raw.len() - 2)[byte] == replaced[byte]);
}

proof fn faultless_prefix(edits: Seq<AssignmentEdit>, start: int, position: int, button_count: u8)
    requires
        0 <= start <= position < edits.len(),
        first_fault(edits, start, button_count) is None,
    ensures
        assignment_fault(edits, position, button_count) is None,
    decreases position - start,
{
    if start < position {
        faultless_prefix(edits, start + 1, position, button_count);
    }
}

proof fn replacement_survives_later_ones(
    raw: Seq<u8>,
    edits: Seq<AssignmentEdit>,
    position: int,
    button_count: u8,
    byte: int,
)
    requires
        raw.len() >= PROFILE_SIZE,
        button_count <= MAX_BUTTONS,
        0 <= position < edits.len(),
        forall|i: int|
            0 <= i < edits.len() ==> #[trigger] assignment_fault(edits, i, button_count) is None,
        0 <= byte < ASSIGNMENT_SIZE,
    ensures
        with_assignments(raw, edits).len() == raw.len(),
        with_assignments(raw, edits)[assignment_offset(edits[position].index as int) + byte]
            == edits[position].assignment.code()[byte],
    decreases edits.len(),
{
    let shorter = edits.drop_last();
    let last = edits.len() - 1;
    let target = assignment_offset(edits[position].index as int) + byte;
    assert(assignment_fault(edits, position, button_count) is None);
    assert(assignment_fault(edits, last, button_count) is None);
    replacements_keep_other_bytes(raw, shorter, target);
    if position < last {
        assert forall|i: int| 0 <= i < shorter.len() implies #[trigger] assignment_fault(
            shorter,
            i,
            button_count,
        ) is None by {
            assert(assignment_fault(edits, i, button_count) is None);
            assert(forall|earlier: int| 0 <= earlier < i ==> shorter[earlier] == edits[earlier]);
        }
        replacement_survives_later_ones(raw, shorter, position, button_count, byte);
        assert(edits[position].index != edits[last].index);
    }
}

/// An accepted edit stores every requested value.
pub proof fn an_accepted_edit_stores_what_was_requested(
    raw: Seq<u8>,
    description: ProfileDescription,
    edit: Edits,
    supported: ReportRateList,
    position: int,
)
    requires
        edit_fault(raw, description, edit, supported) is None,
        0 <= position < edit.assignments.len(),
    ensures
        assignment_bytes(edited(raw, edit), edit.assignments[position].index as int)
            == edit.assignments[position].assignment.code(),
{
    let edits = edit.assignments;
    let base = with_interval(raw, edit.report_interval_ms);
    let replaced = with_assignments(base, edits);
    let index = edits[position].index as int;
    let code = edits[position].assignment.code();
    assert forall|i: int| 0 <= i < edits.len() implies #[trigger] assignment_fault(
        edits,
        i,
        description.button_count,
    ) is None by {
        faultless_prefix(edits, 0, i, description.button_count);
    }
    assert(assignment_fault(edits, position, description.button_count) is None);
    replacements_keep_other_bytes(base, edits, 0);
    sealing_seals(replaced);
    let result = edited(raw, edit);
    assert(code.len() == 4) by {
        assignment_codes_are_distinct(
            edits[position].assignment,
            edits[position].assignment,
        );
    }
    assert forall|byte: int| 0 <= byte < 4 implies assignment_bytes(result, index)[byte]
        == code[byte] by {
        replacement_survives_later_ones(base, edits, position, description.button_count, byte);
        let target = assignment_offset(index) + byte;
        assert(result.take(raw.len() - 2)[target] == replaced.take(raw.len() - 2)[target]);
    }
    assert(assignment_bytes(result, index) =~= code);
}

/// An accepted edit stores the requested interval, and the result is a readable sector again.
pub proof fn an_accepted_edit_is_readable(
    raw: Seq<u8>,
    description: ProfileDescription,
    edit: Edits,
    supported: ReportRateList,
)
    requires
        edit_fault(raw, description, edit, supported) is None,
    ensures
        is_readable(edited(raw, edit), description),
        edit.report_interval_ms matches Some(interval) ==> edited(raw, edit)[0] == interval,
{
    let base = with_interval(raw, edit.report_interval_ms);
    let replaced = with_assignments(base, edit.assignments);
    replacements_keep_other_bytes(base, edit.assignments, 0);
    assert(!covers(edit.assignments, 0));
    sealing_seals(replaced);
    assert(sealed(replaced).take(raw.len() - 2)[0] == replaced.take(raw.len() - 2)[0]);
}

/// An edit that requests nothing reproduces a readable sector exactly.
pub proof fn an_empty_edit_changes_nothing(
    raw: Seq<u8>,
    description: ProfileDescription,
    edit: Edits,
)
    requires
        is_readable(raw, description),
        edit.report_interval_ms is None,
        edit.assignments.len() == 0,
    ensures
        edited(raw, edit) == raw,
{
    sealing_a_sealed_sector_changes_nothing(raw);
}

/// Restoring after an accepted edit is always possible and brings back every original byte.
pub proof fn restoration_reverses_an_accepted_edit(
    raw: Seq<u8>,
    description: ProfileDescription,
    edit: Edits,
    supported: ReportRateList,
)
    requires
        edit_fault(raw, description, edit, supported) is None,
    ensures
        is_restorable(edited(raw, edit), raw, description),
        restored(edited(raw, edit), raw, description).before == edited(raw, edit),
        restored(edited(raw, edit), raw, description).after.raw == raw,
{
    an_accepted_edit_is_readable(raw, description, edit, supported);
}

} // verus!
