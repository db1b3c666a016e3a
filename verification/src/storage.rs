//! The consistency shim: decision logic for conditional writes.
//!
//! The log layer above the store needs atomic "create if absent" semantics.
//! The provider expresses that as a conditional precondition; this module
//! fixes how each provider outcome is surfaced, and how a rename built from
//! a conditional copy and a delete steps through its protocol. The I/O
//! itself is issued by the caller, which feeds every outcome back in as a
//! [`ProviderEvent`]; the decisions here are total over those events.

use vstd::prelude::*;

verus! {

/// What the provider reported for one issued operation.
#[derive(Clone, Debug)]
pub enum ProviderEvent {
    /// The operation succeeded.
    Success,
    /// A conditional operation found the target already present.
    AlreadyExists,
    /// Any other failure, with the provider's message.
    Other(String),
}

/// The outcome of a create-if-absent write as surfaced to callers.
/// `AlreadyExists` is a normal control-flow signal: the write lost a race.
#[derive(Clone, Debug)]
pub enum CreateOutcome {
    /// The key was absent and the write created it.
    Created,
    /// The key was already present; nothing was written.
    AlreadyExists,
    /// The provider failed the write, with its message.
    Failed(String),
}

/// The outcome that a provider event surfaces as.
pub open spec fn spec_finish_create(ev: ProviderEvent) -> CreateOutcome {
    match ev {
        ProviderEvent::Success => CreateOutcome::Created,
        ProviderEvent::AlreadyExists => CreateOutcome::AlreadyExists,
        ProviderEvent::Other(m) => CreateOutcome::Failed(m),
    }
}

/// Surfaces the provider's outcome of a create-if-absent write.
pub fn finish_create(ev: ProviderEvent) -> (r: CreateOutcome)
    ensures
        r == spec_finish_create(ev),
{
    match ev {
        ProviderEvent::Success => CreateOutcome::Created,
        ProviderEvent::AlreadyExists => CreateOutcome::AlreadyExists,
        ProviderEvent::Other(m) => CreateOutcome::Failed(m),
    }
}

/// Law: the shim never silently succeeds a conditional write that did not
/// succeed at the provider — a write surfaces as `Created` exactly when the
/// provider reported success.
pub proof fn lemma_create_never_silent(ev: ProviderEvent)
    ensures
        spec_finish_create(ev) is Created <==> ev is Success,
{
}

/// Law: of two concurrent create-if-absent writes of the same key issued
/// through one store handle, of which the provider let exactly one succeed
/// and gave the other "already exists" (its conditional-write guarantee),
/// exactly one surfaces as `Created` and the other as `AlreadyExists` —
/// never two successes and never two lost races.
pub proof fn lemma_create_one_winner(a: ProviderEvent, b: ProviderEvent)
    requires
        (a is Success && b is AlreadyExists) || (a is AlreadyExists && b is Success),
    ensures
        (spec_finish_create(a) is Created && spec_finish_create(b) is AlreadyExists) || (
        spec_finish_create(a) is AlreadyExists && spec_finish_create(b) is Created),
        !(spec_finish_create(a) is Created && spec_finish_create(b) is Created),
        !(spec_finish_create(a) is AlreadyExists && spec_finish_create(b) is AlreadyExists),
{
}

/// The operation the rename protocol asks its runner to issue next.
#[derive(Clone, Copy, Debug, PartialEq, Eq, Structural)]
pub enum RenameAction {
    /// Copy the source to the destination, conditional on the destination
    /// being absent.
    CopyIfAbsent,
    /// Delete the source.
    DeleteSource,
}

/// The state of one rename-if-absent protocol run.
#[derive(Clone, Debug)]
pub enum RenameState {
    /// The conditional copy was issued and its outcome is awaited.
    AwaitCopy,
    /// The copy succeeded; the delete of the source is awaited.
    AwaitDelete,
    /// Source deleted; the rename is complete.
    Done,
    /// The destination already existed: the rename lost the race and the
    /// source is untouched.
    Lost,
    /// The provider failed a step with the given event.
    Failed(ProviderEvent),
}

/// The next state and action after the provider reports `ev`.
pub open spec fn spec_rename_step(st: RenameState, ev: ProviderEvent) -> (RenameState, Option<
    RenameAction,
>) {
    match st {
        RenameState::AwaitCopy => match ev {
            ProviderEvent::Success => (RenameState::AwaitDelete, Some(RenameAction::DeleteSource)),
            ProviderEvent::AlreadyExists => (RenameState::Lost, None),
            ProviderEvent::Other(m) => (RenameState::Failed(ProviderEvent::Other(m)), None),
        },
        RenameState::AwaitDelete => match ev {
            ProviderEvent::Success => (RenameState::Done, None),
            _ => (RenameState::Failed(ev), None),
        },
        _ => (st, None),
    }
}

/// Starts a rename-if-absent: the first action is the conditional copy.
pub fn rename_start() -> (r: (RenameState, RenameAction))
    ensures
        r == (RenameState::AwaitCopy, RenameAction::CopyIfAbsent),
{
    (RenameState::AwaitCopy, RenameAction::CopyIfAbsent)
}

/// Advances the rename protocol on one provider event.
pub fn rename_step(st: RenameState, ev: ProviderEvent) -> (r: (RenameState, Option<RenameAction>))
    ensures
        r == spec_rename_step(st, ev),
{
    match st {
        RenameState::AwaitCopy => match ev {
            ProviderEvent::Success => (RenameState::AwaitDelete, Some(RenameAction::DeleteSource)),
            ProviderEvent::AlreadyExists => (RenameState::Lost, None),
            ProviderEvent::Other(m) => (RenameState::Failed(ProviderEvent::Other(m)), None),
        },
        RenameState::AwaitDelete => match ev {
            ProviderEvent::Success => (RenameState::Done, None),
            _ => (RenameState::Failed(ev), None),
        },
        _ => (st, None),
    }
}

/// Law: the protocol never asks for the source to be deleted unless the
/// conditional copy just succeeded, so a lost race leaves the source
/// untouched.
pub proof fn lemma_delete_only_after_copy(st: RenameState, ev: ProviderEvent)
    ensures
        spec_rename_step(st, ev).1 == Some(RenameAction::DeleteSource) ==> st is AwaitCopy
            && ev is Success,
{
}

} // verus!
