//! The roles that a model call can play.

use vstd::prelude::*;

verus! {

/// What a call is made for.
#[derive(Debug, Clone, Copy, PartialEq, Eq, Hash, Structural)]
pub enum Role {
    Intake,
    Clarify,
    Route,
    Gate,
    Sketch,
    Propose,
    Critique,
    Judge,
    Deliver,
    Repair,
    Rank,
    Tagger,
    FacetDeriver,
    Extractor,
    Integrator,
    Synthesizer,
    Adversary,
    Decomposer,
    MergeSynthesizer,
    TiefighterCritic,
    FinalDisagreement,
    JsonRepairV2,
    HostilePromptDetector,
    PersonaPicker,
    AnglePicker,
    Continuation,
    FinalReport,
}

/// The roles whose replies are structured JSON.
pub open spec fn json_role(role: Role) -> bool {
    ||| role == Role::Intake
    ||| role == Role::Clarify
    ||| role == Role::Route
    ||| role == Role::Gate
    ||| role == Role::Critique
    ||| role == Role::Repair
    ||| role == Role::Rank
    ||| role == Role::Synthesizer
    ||| role == Role::Adversary
    ||| role == Role::Decomposer
    ||| role == Role::MergeSynthesizer
}

/// Whether the replies of `role` are structured JSON. Free-text roles are
/// not asked for JSON output mode.
pub fn role_requires_json(role: Role) -> (r: bool)
    ensures
        r == json_role(role),
{
    match role {
        Role::Intake
        | Role::Clarify
        | Role::Route
        | Role::Gate
        | Role::Critique
        | Role::Repair
        | Role::Rank
        | Role::Synthesizer
        | Role::Adversary
        | Role::Decomposer
        | Role::MergeSynthesizer => true,
        _ => false,
    }
}

/// The replies of these roles are free text, and those of all others are JSON.
pub proof fn law_free_text_roles(role: Role)
    ensures
        !json_role(role) <==> (role == Role::Sketch || role == Role::Propose || role == Role::Judge
            || role == Role::Deliver || role == Role::Tagger || role == Role::FacetDeriver || role
            == Role::Extractor || role == Role::Integrator || role == Role::TiefighterCritic || role
            == Role::FinalDisagreement || role == Role::JsonRepairV2 || role
            == Role::HostilePromptDetector || role == Role::PersonaPicker || role
            == Role::AnglePicker || role == Role::Continuation || role == Role::FinalReport),
{
}

} // verus!
