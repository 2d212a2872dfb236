//! The closed set of per-object states and their stable string labels.

use vstd::prelude::*;

verus! {

/// The state of one tracked object inside a job. The set is closed and
/// finite; migration workers move records between states, this crate
/// only reads them.
#[derive(Clone, Copy, Debug, PartialEq, Eq, Structural)]
pub enum EvacuateObjectStatus {
    Unprocessed,
    Assigned,
    Skipped,
    Error,
    PostProcessing,
    Complete,
}

/// The human-readable label of a state: its title-cased canonical name.
/// Total and stable: every state maps to exactly one label.
pub open spec fn spec_label(s: EvacuateObjectStatus) -> Seq<char> {
    match s {
        EvacuateObjectStatus::Unprocessed => "Unprocessed"@,
        EvacuateObjectStatus::Assigned => "Assigned"@,
        EvacuateObjectStatus::Skipped => "Skipped"@,
        EvacuateObjectStatus::Error => "Error"@,
        EvacuateObjectStatus::PostProcessing => "Post Processing"@,
        EvacuateObjectStatus::Complete => "Complete"@,
    }
}

/// Every enumerated state, in the fixed order used when aggregating.
pub open spec fn spec_all_states() -> Seq<EvacuateObjectStatus> {
    seq![
        EvacuateObjectStatus::Unprocessed,
        EvacuateObjectStatus::Assigned,
        EvacuateObjectStatus::Skipped,
        EvacuateObjectStatus::Error,
        EvacuateObjectStatus::PostProcessing,
        EvacuateObjectStatus::Complete,
    ]
}

impl EvacuateObjectStatus {
    /// The stable label of this state.
    pub fn label(&self) -> (r: String)
        ensures
            r@ == spec_label(*self),
    {
        match self {
            EvacuateObjectStatus::Unprocessed => String::from_str("Unprocessed"),
            EvacuateObjectStatus::Assigned => String::from_str("Assigned"),
            EvacuateObjectStatus::Skipped => String::from_str("Skipped"),
            EvacuateObjectStatus::Error => String::from_str("Error"),
            EvacuateObjectStatus::PostProcessing => String::from_str("Post Processing"),
            EvacuateObjectStatus::Complete => String::from_str("Complete"),
        }
    }
}

/// The state a label denotes, if any: the inverse of `label`, so that
/// states round-trip through their stable labels.
pub fn from_label(label: &str) -> (r: Option<EvacuateObjectStatus>)
    ensures
        r matches Some(s) ==> spec_label(s) == label@,
        r is None ==> forall|s: EvacuateObjectStatus| spec_label(s) != label@,
{
    let owned: String = label.to_owned();
    if owned == String::from_str("Unprocessed") {
        Some(EvacuateObjectStatus::Unprocessed)
    } else if owned == String::from_str("Assigned") {
        Some(EvacuateObjectStatus::Assigned)
    } else if owned == String::from_str("Skipped") {
        Some(EvacuateObjectStatus::Skipped)
    } else if owned == String::from_str("Error") {
        Some(EvacuateObjectStatus::Error)
    } else if owned == String::from_str("Post Processing") {
        Some(EvacuateObjectStatus::PostProcessing)
    } else if owned == String::from_str("Complete") {
        Some(EvacuateObjectStatus::Complete)
    } else {
        None
    }
}

/// Every enumerated state, in aggregation order.
pub fn all_states() -> (r: Vec<EvacuateObjectStatus>)
    ensures
        r@ == spec_all_states(),
{
    let r: Vec<EvacuateObjectStatus> = vec![
        EvacuateObjectStatus::Unprocessed,
        EvacuateObjectStatus::Assigned,
        EvacuateObjectStatus::Skipped,
        EvacuateObjectStatus::Error,
        EvacuateObjectStatus::PostProcessing,
        EvacuateObjectStatus::Complete,
    ];
    proof {
        assert(r@ =~= spec_all_states());
    }
    r
}

/// Labels are distinct: the state-to-label mapping is injective, so it
/// round-trips between states and labels.
pub proof fn lemma_labels_distinct(a: EvacuateObjectStatus, b: EvacuateObjectStatus)
    ensures
        spec_label(a) == spec_label(b) ==> a == b,
{
    reveal_strlit("Unprocessed");
    reveal_strlit("Assigned");
    reveal_strlit("Skipped");
    reveal_strlit("Error");
    reveal_strlit("Post Processing");
    reveal_strlit("Complete");
    assert("Unprocessed"@.len() == 11);
    assert("Assigned"@.len() == 8);
    assert("Skipped"@.len() == 7);
    assert("Error"@.len() == 5);
    assert("Post Processing"@.len() == 15);
    assert("Complete"@.len() == 8);
    assert("Assigned"@.index(0) == 'A');
    assert("Complete"@.index(0) == 'C');
}

} // verus!
