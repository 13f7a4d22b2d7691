//! The states that stored records move through, and their column texts.

use crate::text::same_text;
use vstd::prelude::*;

verus! {

/// The state of a tool approval: it can be spent once.
#[derive(Clone, Copy, Debug, PartialEq, Eq, Structural)]
pub enum ToolApprovalState {
    Active,
    Consumed,
    Revoked,
}

impl ToolApprovalState {
    /// The text that a column holds for this value.
    pub open spec fn text(self) -> Seq<char> {
        match self {
            ToolApprovalState::Active => "active"@,
            ToolApprovalState::Consumed => "consumed"@,
            ToolApprovalState::Revoked => "revoked"@,
        }
    }

    #[must_use]
    pub fn as_str(self) -> (text: &'static str)
        ensures
            text@ == self.text(),
    {
        match self {
            ToolApprovalState::Active => "active",
            ToolApprovalState::Consumed => "consumed",
            ToolApprovalState::Revoked => "revoked",
        }
    }

    /// The value that a column text stands for, if it stands for one.
    #[must_use]
    pub fn parse(value: &str) -> (parsed: Option<Self>)
        ensures
            parsed is Some ==> parsed->Some_0.text() == value@,
            parsed is None <==> (forall|other: Self| #[trigger] other.text() != value@),
            forall|other: Self| #[trigger] other.text() == value@ ==> parsed == Some(other),
    {
        proof {
            assert forall|a: Self, b: Self| #[trigger] a.text() == #[trigger] b.text() implies a == b by {
                law_tool_approval_state_texts_differ(a, b);
            }
        }
        if same_text(value, "active") {
            assert(ToolApprovalState::Active.text() == value@);
            Some(ToolApprovalState::Active)
        } else if same_text(value, "consumed") {
            assert(ToolApprovalState::Consumed.text() == value@);
            Some(ToolApprovalState::Consumed)
        } else if same_text(value, "revoked") {
            assert(ToolApprovalState::Revoked.text() == value@);
            Some(ToolApprovalState::Revoked)
        } else {
            None
        }
    }
}

/// The column texts for the state of an approval: each has its own, and no other text stands
/// for one.
pub proof fn law_tool_approval_state_texts(text: Seq<char>)
    ensures
        ToolApprovalState::Active.text() == "active"@,
        ToolApprovalState::Consumed.text() == "consumed"@,
        ToolApprovalState::Revoked.text() == "revoked"@,
        (exists|state: ToolApprovalState| #[trigger] state.text() == text) <==> text == "active"@
            || text == "consumed"@ || text == "revoked"@,
{
    if exists|state: ToolApprovalState| #[trigger] state.text() == text {
        let state = choose|state: ToolApprovalState| #[trigger] state.text() == text;
        match state {
            ToolApprovalState::Active => {},
            ToolApprovalState::Consumed => {},
            ToolApprovalState::Revoked => {},
        }
    }
    if text == "active"@ {
        assert(ToolApprovalState::Active.text() == text);
    }
    if text == "consumed"@ {
        assert(ToolApprovalState::Consumed.text() == text);
    }
    if text == "revoked"@ {
        assert(ToolApprovalState::Revoked.text() == text);
    }
}

/// Different values of `ToolApprovalState` have different column texts, so what is
/// written is what is read back.
pub proof fn law_tool_approval_state_texts_differ(a: ToolApprovalState, b: ToolApprovalState)
    ensures
        a.text() == b.text() ==> a == b,
{
    reveal_strlit("active");
    reveal_strlit("consumed");
    reveal_strlit("revoked");
    assert("active"@.len() == 6);
    assert("consumed"@.len() == 8);
    assert("revoked"@.len() == 7);
}

/// Where a durable tool intent stands.
#[derive(Clone, Copy, Debug, PartialEq, Eq, Structural)]
pub enum ToolIntentStatus {
    Recorded,
    Settled,
    OutcomeUnknown,
}

impl ToolIntentStatus {
    /// The text that a column holds for this value.
    pub open spec fn text(self) -> Seq<char> {
        match self {
            ToolIntentStatus::Recorded => "recorded"@,
            ToolIntentStatus::Settled => "settled"@,
            ToolIntentStatus::OutcomeUnknown => "outcome_unknown"@,
        }
    }

    #[must_use]
    pub fn as_str(self) -> (text: &'static str)
        ensures
            text@ == self.text(),
    {
        match self {
            ToolIntentStatus::Recorded => "recorded",
            ToolIntentStatus::Settled => "settled",
            ToolIntentStatus::OutcomeUnknown => "outcome_unknown",
        }
    }

    /// The value that a column text stands for, if it stands for one.
    #[must_use]
    pub fn parse(value: &str) -> (parsed: Option<Self>)
        ensures
            parsed is Some ==> parsed->Some_0.text() == value@,
            parsed is None <==> (forall|other: Self| #[trigger] other.text() != value@),
            forall|other: Self| #[trigger] other.text() == value@ ==> parsed == Some(other),
    {
        proof {
            assert forall|a: Self, b: Self| #[trigger] a.text() == #[trigger] b.text() implies a == b by {
                law_tool_intent_status_texts_differ(a, b);
            }
        }
        if same_text(value, "recorded") {
            assert(ToolIntentStatus::Recorded.text() == value@);
            Some(ToolIntentStatus::Recorded)
        } else if same_text(value, "settled") {
            assert(ToolIntentStatus::Settled.text() == value@);
            Some(ToolIntentStatus::Settled)
        } else if same_text(value, "outcome_unknown") {
            assert(ToolIntentStatus::OutcomeUnknown.text() == value@);
            Some(ToolIntentStatus::OutcomeUnknown)
        } else {
            None
        }
    }
}

/// The column texts for the status of an intent: each has its own, and no other text stands
/// for one.
pub proof fn law_tool_intent_status_texts(text: Seq<char>)
    ensures
        ToolIntentStatus::Recorded.text() == "recorded"@,
        ToolIntentStatus::Settled.text() == "settled"@,
        ToolIntentStatus::OutcomeUnknown.text() == "outcome_unknown"@,
        (exists|state: ToolIntentStatus| #[trigger] state.text() == text) <==> text == "recorded"@
            || text == "settled"@ || text == "outcome_unknown"@,
{
    if exists|state: ToolIntentStatus| #[trigger] state.text() == text {
        let state = choose|state: ToolIntentStatus| #[trigger] state.text() == text;
        match state {
            ToolIntentStatus::Recorded => {},
            ToolIntentStatus::Settled => {},
            ToolIntentStatus::OutcomeUnknown => {},
        }
    }
    if text == "recorded"@ {
        assert(ToolIntentStatus::Recorded.text() == text);
    }
    if text == "settled"@ {
        assert(ToolIntentStatus::Settled.text() == text);
    }
    if text == "outcome_unknown"@ {
        assert(ToolIntentStatus::OutcomeUnknown.text() == text);
    }
}

/// Different values of `ToolIntentStatus` have different column texts, so what is
/// written is what is read back.
pub proof fn law_tool_intent_status_texts_differ(a: ToolIntentStatus, b: ToolIntentStatus)
    ensures
        a.text() == b.text() ==> a == b,
{
    reveal_strlit("recorded");
    reveal_strlit("settled");
    reveal_strlit("outcome_unknown");
    assert("recorded"@.len() == 8);
    assert("settled"@.len() == 7);
    assert("outcome_unknown"@.len() == 15);
}

/// Where a runtime command stands.
#[derive(Clone, Copy, Debug, PartialEq, Eq, Structural)]
pub enum RuntimeCommandState {
    Pending,
    Claimed,
    Completed,
    Canceled,
}

impl RuntimeCommandState {
    /// The text that a column holds for this value.
    pub open spec fn text(self) -> Seq<char> {
        match self {
            RuntimeCommandState::Pending => "pending"@,
            RuntimeCommandState::Claimed => "claimed"@,
            RuntimeCommandState::Completed => "completed"@,
            RuntimeCommandState::Canceled => "canceled"@,
        }
    }

    #[must_use]
    pub fn as_str(self) -> (text: &'static str)
        ensures
            text@ == self.text(),
    {
        match self {
            RuntimeCommandState::Pending => "pending",
            RuntimeCommandState::Claimed => "claimed",
            RuntimeCommandState::Completed => "completed",
            RuntimeCommandState::Canceled => "canceled",
        }
    }

    /// The value that a column text stands for, if it stands for one.
    #[must_use]
    pub fn parse(value: &str) -> (parsed: Option<Self>)
        ensures
            parsed is Some ==> parsed->Some_0.text() == value@,
            parsed is None <==> (forall|other: Self| #[trigger] other.text() != value@),
            forall|other: Self| #[trigger] other.text() == value@ ==> parsed == Some(other),
    {
        proof {
            assert forall|a: Self, b: Self| #[trigger] a.text() == #[trigger] b.text() implies a == b by {
                law_runtime_command_state_texts_differ(a, b);
            }
        }
        if same_text(value, "pending") {
            assert(RuntimeCommandState::Pending.text() == value@);
            Some(RuntimeCommandState::Pending)
        } else if same_text(value, "claimed") {
            assert(RuntimeCommandState::Claimed.text() == value@);
            Some(RuntimeCommandState::Claimed)
        } else if same_text(value, "completed") {
            assert(RuntimeCommandState::Completed.text() == value@);
            Some(RuntimeCommandState::Completed)
        } else if same_text(value, "canceled") {
            assert(RuntimeCommandState::Canceled.text() == value@);
            Some(RuntimeCommandState::Canceled)
        } else {
            None
        }
    }
}

/// The column texts for the state of a runtime command: each has its own, and no other text stands
/// for one.
pub proof fn law_runtime_command_state_texts(text: Seq<char>)
    ensures
        RuntimeCommandState::Pending.text() == "pending"@,
        RuntimeCommandState::Claimed.text() == "claimed"@,
        RuntimeCommandState::Completed.text() == "completed"@,
        RuntimeCommandState::Canceled.text() == "canceled"@,
        (exists|state: RuntimeCommandState| #[trigger] state.text() == text) <==> text == "pending"@
            || text == "claimed"@ || text == "completed"@ || text == "canceled"@,
{
    if exists|state: RuntimeCommandState| #[trigger] state.text() == text {
        let state = choose|state: RuntimeCommandState| #[trigger] state.text() == text;
        match state {
            RuntimeCommandState::Pending => {},
            RuntimeCommandState::Claimed => {},
            RuntimeCommandState::Completed => {},
            RuntimeCommandState::Canceled => {},
        }
    }
    if text == "pending"@ {
        assert(RuntimeCommandState::Pending.text() == text);
    }
    if text == "claimed"@ {
        assert(RuntimeCommandState::Claimed.text() == text);
    }
    if text == "completed"@ {
        assert(RuntimeCommandState::Completed.text() == text);
    }
    if text == "canceled"@ {
        assert(RuntimeCommandState::Canceled.text() == text);
    }
}

/// Different values of `RuntimeCommandState` have different column texts, so what is
/// written is what is read back.
pub proof fn law_runtime_command_state_texts_differ(a: RuntimeCommandState, b: RuntimeCommandState)
    ensures
        a.text() == b.text() ==> a == b,
{
    reveal_strlit("pending");
    reveal_strlit("claimed");
    reveal_strlit("completed");
    reveal_strlit("canceled");
    assert("pending"@.len() == 7);
    assert("claimed"@.len() == 7);
    assert("completed"@.len() == 9);
    assert("canceled"@.len() == 8);
    assert("pending"@[0] == 'p' && "claimed"@[0] == 'c');
}

/// Where a run stands.
#[derive(Clone, Copy, Debug, PartialEq, Eq, Structural)]
pub enum RunState {
    Running,
    Paused,
    Completed,
    Failed,
    Canceled,
}

impl RunState {
    /// The text that a column holds for this value.
    pub open spec fn text(self) -> Seq<char> {
        match self {
            RunState::Running => "running"@,
            RunState::Paused => "paused"@,
            RunState::Completed => "completed"@,
            RunState::Failed => "failed"@,
            RunState::Canceled => "canceled"@,
        }
    }

    #[must_use]
    pub fn as_str(self) -> (text: &'static str)
        ensures
            text@ == self.text(),
    {
        match self {
            RunState::Running => "running",
            RunState::Paused => "paused",
            RunState::Completed => "completed",
            RunState::Failed => "failed",
            RunState::Canceled => "canceled",
        }
    }

    /// The value that a column text stands for, if it stands for one.
    #[must_use]
    pub fn parse(value: &str) -> (parsed: Option<Self>)
        ensures
            parsed is Some ==> parsed->Some_0.text() == value@,
            parsed is None <==> (forall|other: Self| #[trigger] other.text() != value@),
            forall|other: Self| #[trigger] other.text() == value@ ==> parsed == Some(other),
    {
        proof {
            assert forall|a: Self, b: Self| #[trigger] a.text() == #[trigger] b.text() implies a == b by {
                law_run_state_texts_differ(a, b);
            }
        }
        if same_text(value, "running") {
            assert(RunState::Running.text() == value@);
            Some(RunState::Running)
        } else if same_text(value, "paused") {
            assert(RunState::Paused.text() == value@);
            Some(RunState::Paused)
        } else if same_text(value, "completed") {
            assert(RunState::Completed.text() == value@);
            Some(RunState::Completed)
        } else if same_text(value, "failed") {
            assert(RunState::Failed.text() == value@);
            Some(RunState::Failed)
        } else if same_text(value, "canceled") {
            assert(RunState::Canceled.text() == value@);
            Some(RunState::Canceled)
        } else {
            None
        }
    }
}

/// The column texts for the state of a run: each has its own, and no other text stands
/// for one.
pub proof fn law_run_state_texts(text: Seq<char>)
    ensures
        RunState::Running.text() == "running"@,
        RunState::Paused.text() == "paused"@,
        RunState::Completed.text() == "completed"@,
        RunState::Failed.text() == "failed"@,
        RunState::Canceled.text() == "canceled"@,
        (exists|state: RunState| #[trigger] state.text() == text) <==> text == "running"@
            || text == "paused"@ || text == "completed"@ || text == "failed"@
            || text == "canceled"@,
{
    if exists|state: RunState| #[trigger] state.text() == text {
        let state = choose|state: RunState| #[trigger] state.text() == text;
        match state {
            RunState::Running => {},
            RunState::Paused => {},
            RunState::Completed => {},
            RunState::Failed => {},
            RunState::Canceled => {},
        }
    }
    if text == "running"@ {
        assert(RunState::Running.text() == text);
    }
    if text == "paused"@ {
        assert(RunState::Paused.text() == text);
    }
    if text == "completed"@ {
        assert(RunState::Completed.text() == text);
    }
    if text == "failed"@ {
        assert(RunState::Failed.text() == text);
    }
    if text == "canceled"@ {
        assert(RunState::Canceled.text() == text);
    }
}

/// Different values of `RunState` have different column texts, so what is
/// written is what is read back.
pub proof fn law_run_state_texts_differ(a: RunState, b: RunState)
    ensures
        a.text() == b.text() ==> a == b,
{
    reveal_strlit("running");
    reveal_strlit("paused");
    reveal_strlit("completed");
    reveal_strlit("failed");
    reveal_strlit("canceled");
    assert("running"@.len() == 7);
    assert("paused"@.len() == 6);
    assert("completed"@.len() == 9);
    assert("failed"@.len() == 6);
    assert("canceled"@.len() == 8);
    assert("paused"@[0] == 'p' && "failed"@[0] == 'f');
}

/// Where a budget reservation stands.
#[derive(Clone, Copy, Debug, PartialEq, Eq, Structural)]
pub enum BudgetReservationState {
    Reserved,
    Settled,
    Unknown,
    Released,
    Expired,
}

impl BudgetReservationState {
    /// The text that a column holds for this value.
    pub open spec fn text(self) -> Seq<char> {
        match self {
            BudgetReservationState::Reserved => "reserved"@,
            BudgetReservationState::Settled => "settled"@,
            BudgetReservationState::Unknown => "unknown"@,
            BudgetReservationState::Released => "released"@,
            BudgetReservationState::Expired => "expired"@,
        }
    }

    #[must_use]
    pub fn as_str(self) -> (text: &'static str)
        ensures
            text@ == self.text(),
    {
        match self {
            BudgetReservationState::Reserved => "reserved",
            BudgetReservationState::Settled => "settled",
            BudgetReservationState::Unknown => "unknown",
            BudgetReservationState::Released => "released",
            BudgetReservationState::Expired => "expired",
        }
    }

    /// The value that a column text stands for, if it stands for one.
    #[must_use]
    pub fn parse(value: &str) -> (parsed: Option<Self>)
        ensures
            parsed is Some ==> parsed->Some_0.text() == value@,
            parsed is None <==> (forall|other: Self| #[trigger] other.text() != value@),
            forall|other: Self| #[trigger] other.text() == value@ ==> parsed == Some(other),
    {
        proof {
            assert forall|a: Self, b: Self| #[trigger] a.text() == #[trigger] b.text() implies a == b by {
                law_budget_reservation_state_texts_differ(a, b);
            }
        }
        if same_text(value, "reserved") {
            assert(BudgetReservationState::Reserved.text() == value@);
            Some(BudgetReservationState::Reserved)
        } else if same_text(value, "settled") {
            assert(BudgetReservationState::Settled.text() == value@);
            Some(BudgetReservationState::Settled)
        } else if same_text(value, "unknown") {
            assert(BudgetReservationState::Unknown.text() == value@);
            Some(BudgetReservationState::Unknown)
        } else if same_text(value, "released") {
            assert(BudgetReservationState::Released.text() == value@);
            Some(BudgetReservationState::Released)
        } else if same_text(value, "expired") {
            assert(BudgetReservationState::Expired.text() == value@);
            Some(BudgetReservationState::Expired)
        } else {
            None
        }
    }
}

/// The column texts for the state of a reservation: each has its own, and no other text stands
/// for one.
pub proof fn law_budget_reservation_state_texts(text: Seq<char>)
    ensures
        BudgetReservationState::Reserved.text() == "reserved"@,
        BudgetReservationState::Settled.text() == "settled"@,
        BudgetReservationState::Unknown.text() == "unknown"@,
        BudgetReservationState::Released.text() == "released"@,
        BudgetReservationState::Expired.text() == "expired"@,
        (exists|state: BudgetReservationState| #[trigger] state.text() == text) <==> text == "reserved"@
            || text == "settled"@ || text == "unknown"@ || text == "released"@
            || text == "expired"@,
{
    if exists|state: BudgetReservationState| #[trigger] state.text() == text {
        let state = choose|state: BudgetReservationState| #[trigger] state.text() == text;
        match state {
            BudgetReservationState::Reserved => {},
            BudgetReservationState::Settled => {},
            BudgetReservationState::Unknown => {},
            BudgetReservationState::Released => {},
            BudgetReservationState::Expired => {},
        }
    }
    if text == "reserved"@ {
        assert(BudgetReservationState::Reserved.text() == text);
    }
    if text == "settled"@ {
        assert(BudgetReservationState::Settled.text() == text);
    }
    if text == "unknown"@ {
        assert(BudgetReservationState::Unknown.text() == text);
    }
    if text == "released"@ {
        assert(BudgetReservationState::Released.text() == text);
    }
    if text == "expired"@ {
        assert(BudgetReservationState::Expired.text() == text);
    }
}

/// Different values of `BudgetReservationState` have different column texts, so what is
/// written is what is read back.
pub proof fn law_budget_reservation_state_texts_differ(a: BudgetReservationState, b: BudgetReservationState)
    ensures
        a.text() == b.text() ==> a == b,
{
    reveal_strlit("reserved");
    reveal_strlit("settled");
    reveal_strlit("unknown");
    reveal_strlit("released");
    reveal_strlit("expired");
    assert("reserved"@.len() == 8);
    assert("settled"@.len() == 7);
    assert("unknown"@.len() == 7);
    assert("released"@.len() == 8);
    assert("expired"@.len() == 7);
    assert("reserved"@[2] == 's' && "released"@[2] == 'l');
    assert("settled"@[0] == 's' && "unknown"@[0] == 'u');
    assert("settled"@[0] == 's' && "expired"@[0] == 'e');
    assert("unknown"@[0] == 'u' && "expired"@[0] == 'e');
}

/// Where a question stands.
#[derive(Clone, Copy, Debug, PartialEq, Eq, Structural)]
pub enum QuestionState {
    Open,
    Answered,
    Expired,
    Canceled,
}

impl QuestionState {
    /// The text that a column holds for this value.
    pub open spec fn text(self) -> Seq<char> {
        match self {
            QuestionState::Open => "open"@,
            QuestionState::Answered => "answered"@,
            QuestionState::Expired => "expired"@,
            QuestionState::Canceled => "canceled"@,
        }
    }

    #[must_use]
    pub fn as_str(self) -> (text: &'static str)
        ensures
            text@ == self.text(),
    {
        match self {
            QuestionState::Open => "open",
            QuestionState::Answered => "answered",
            QuestionState::Expired => "expired",
            QuestionState::Canceled => "canceled",
        }
    }

    /// The value that a column text stands for, if it stands for one.
    #[must_use]
    pub fn parse(value: &str) -> (parsed: Option<Self>)
        ensures
            parsed is Some ==> parsed->Some_0.text() == value@,
            parsed is None <==> (forall|other: Self| #[trigger] other.text() != value@),
            forall|other: Self| #[trigger] other.text() == value@ ==> parsed == Some(other),
    {
        proof {
            assert forall|a: Self, b: Self| #[trigger] a.text() == #[trigger] b.text() implies a == b by {
                law_question_state_texts_differ(a, b);
            }
        }
        if same_text(value, "open") {
            assert(QuestionState::Open.text() == value@);
            Some(QuestionState::Open)
        } else if same_text(value, "answered") {
            assert(QuestionState::Answered.text() == value@);
            Some(QuestionState::Answered)
        } else if same_text(value, "expired") {
            assert(QuestionState::Expired.text() == value@);
            Some(QuestionState::Expired)
        } else if same_text(value, "canceled") {
            assert(QuestionState::Canceled.text() == value@);
            Some(QuestionState::Canceled)
        } else {
            None
        }
    }
}

/// The column texts for the state of a question: each has its own, and no other text stands
/// for one.
pub proof fn law_question_state_texts(text: Seq<char>)
    ensures
        QuestionState::Open.text() == "open"@,
        QuestionState::Answered.text() == "answered"@,
        QuestionState::Expired.text() == "expired"@,
        QuestionState::Canceled.text() == "canceled"@,
        (exists|state: QuestionState| #[trigger] state.text() == text) <==> text == "open"@
            || text == "answered"@ || text == "expired"@ || text == "canceled"@,
{
    if exists|state: QuestionState| #[trigger] state.text() == text {
        let state = choose|state: QuestionState| #[trigger] state.text() == text;
        match state {
            QuestionState::Open => {},
            QuestionState::Answered => {},
            QuestionState::Expired => {},
            QuestionState::Canceled => {},
        }
    }
    if text == "open"@ {
        assert(QuestionState::Open.text() == text);
    }
    if text == "answered"@ {
        assert(QuestionState::Answered.text() == text);
    }
    if text == "expired"@ {
        assert(QuestionState::Expired.text() == text);
    }
    if text == "canceled"@ {
        assert(QuestionState::Canceled.text() == text);
    }
}

/// Different values of `QuestionState` have different column texts, so what is
/// written is what is read back.
pub proof fn law_question_state_texts_differ(a: QuestionState, b: QuestionState)
    ensures
        a.text() == b.text() ==> a == b,
{
    reveal_strlit("open");
    reveal_strlit("answered");
    reveal_strlit("expired");
    reveal_strlit("canceled");
    assert("open"@.len() == 4);
    assert("answered"@.len() == 8);
    assert("expired"@.len() == 7);
    assert("canceled"@.len() == 8);
    assert("answered"@[0] == 'a' && "canceled"@[0] == 'c');
}

/// What a run command asks for.
#[derive(Clone, Copy, Debug, PartialEq, Eq, Structural)]
pub enum RunCommandKind {
    Steer,
    Cancel,
}

impl RunCommandKind {
    /// The text that a column holds for this value.
    pub open spec fn text(self) -> Seq<char> {
        match self {
            RunCommandKind::Steer => "steer"@,
            RunCommandKind::Cancel => "cancel"@,
        }
    }

    #[must_use]
    pub fn as_str(self) -> (text: &'static str)
        ensures
            text@ == self.text(),
    {
        match self {
            RunCommandKind::Steer => "steer",
            RunCommandKind::Cancel => "cancel",
        }
    }

    /// The value that a column text stands for, if it stands for one.
    #[must_use]
    pub fn parse(value: &str) -> (parsed: Option<Self>)
        ensures
            parsed is Some ==> parsed->Some_0.text() == value@,
            parsed is None <==> (forall|other: Self| #[trigger] other.text() != value@),
            forall|other: Self| #[trigger] other.text() == value@ ==> parsed == Some(other),
    {
        proof {
            assert forall|a: Self, b: Self| #[trigger] a.text() == #[trigger] b.text() implies a == b by {
                law_run_command_kind_texts_differ(a, b);
            }
        }
        if same_text(value, "steer") {
            assert(RunCommandKind::Steer.text() == value@);
            Some(RunCommandKind::Steer)
        } else if same_text(value, "cancel") {
            assert(RunCommandKind::Cancel.text() == value@);
            Some(RunCommandKind::Cancel)
        } else {
            None
        }
    }
}

/// The column texts for the kind of a run command: each has its own, and no other text stands
/// for one.
pub proof fn law_run_command_kind_texts(text: Seq<char>)
    ensures
        RunCommandKind::Steer.text() == "steer"@,
        RunCommandKind::Cancel.text() == "cancel"@,
        (exists|state: RunCommandKind| #[trigger] state.text() == text) <==> text == "steer"@
            || text == "cancel"@,
{
    if exists|state: RunCommandKind| #[trigger] state.text() == text {
        let state = choose|state: RunCommandKind| #[trigger] state.text() == text;
        match state {
            RunCommandKind::Steer => {},
            RunCommandKind::Cancel => {},
        }
    }
    if text == "steer"@ {
        assert(RunCommandKind::Steer.text() == text);
    }
    if text == "cancel"@ {
        assert(RunCommandKind::Cancel.text() == text);
    }
}

/// Different values of `RunCommandKind` have different column texts, so what is
/// written is what is read back.
pub proof fn law_run_command_kind_texts_differ(a: RunCommandKind, b: RunCommandKind)
    ensures
        a.text() == b.text() ==> a == b,
{
    reveal_strlit("steer");
    reveal_strlit("cancel");
    assert("steer"@.len() == 5);
    assert("cancel"@.len() == 6);
}

/// Where a run command stands.
#[derive(Clone, Copy, Debug, PartialEq, Eq, Structural)]
pub enum RunCommandState {
    Pending,
    Claimed,
    Applied,
    Rejected,
}

impl RunCommandState {
    /// The text that a column holds for this value.
    pub open spec fn text(self) -> Seq<char> {
        match self {
            RunCommandState::Pending => "pending"@,
            RunCommandState::Claimed => "claimed"@,
            RunCommandState::Applied => "applied"@,
            RunCommandState::Rejected => "rejected"@,
        }
    }

    #[must_use]
    pub fn as_str(self) -> (text: &'static str)
        ensures
            text@ == self.text(),
    {
        match self {
            RunCommandState::Pending => "pending",
            RunCommandState::Claimed => "claimed",
            RunCommandState::Applied => "applied",
            RunCommandState::Rejected => "rejected",
        }
    }

    /// The value that a column text stands for, if it stands for one.
    #[must_use]
    pub fn parse(value: &str) -> (parsed: Option<Self>)
        ensures
            parsed is Some ==> parsed->Some_0.text() == value@,
            parsed is None <==> (forall|other: Self| #[trigger] other.text() != value@),
            forall|other: Self| #[trigger] other.text() == value@ ==> parsed == Some(other),
    {
        proof {
            assert forall|a: Self, b: Self| #[trigger] a.text() == #[trigger] b.text() implies a == b by {
                law_run_command_state_texts_differ(a, b);
            }
        }
        if same_text(value, "pending") {
            assert(RunCommandState::Pending.text() == value@);
            Some(RunCommandState::Pending)
        } else if same_text(value, "claimed") {
            assert(RunCommandState::Claimed.text() == value@);
            Some(RunCommandState::Claimed)
        } else if same_text(value, "applied") {
            assert(RunCommandState::Applied.text() == value@);
            Some(RunCommandState::Applied)
        } else if same_text(value, "rejected") {
            assert(RunCommandState::Rejected.text() == value@);
            Some(RunCommandState::Rejected)
        } else {
            None
        }
    }
}

/// The column texts for the state of a run command: each has its own, and no other text stands
/// for one.
pub proof fn law_run_command_state_texts(text: Seq<char>)
    ensures
        RunCommandState::Pending.text() == "pending"@,
        RunCommandState::Claimed.text() == "claimed"@,
        RunCommandState::Applied.text() == "applied"@,
        RunCommandState::Rejected.text() == "rejected"@,
        (exists|state: RunCommandState| #[trigger] state.text() == text) <==> text == "pending"@
            || text == "claimed"@ || text == "applied"@ || text == "rejected"@,
{
    if exists|state: RunCommandState| #[trigger] state.text() == text {
        let state = choose|state: RunCommandState| #[trigger] state.text() == text;
        match state {
            RunCommandState::Pending => {},
            RunCommandState::Claimed => {},
            RunCommandState::Applied => {},
            RunCommandState::Rejected => {},
        }
    }
    if text == "pending"@ {
        assert(RunCommandState::Pending.text() == text);
    }
    if text == "claimed"@ {
        assert(RunCommandState::Claimed.text() == text);
    }
    if text == "applied"@ {
        assert(RunCommandState::Applied.text() == text);
    }
    if text == "rejected"@ {
        assert(RunCommandState::Rejected.text() == text);
    }
}

/// Different values of `RunCommandState` have different column texts, so what is
/// written is what is read back.
pub proof fn law_run_command_state_texts_differ(a: RunCommandState, b: RunCommandState)
    ensures
        a.text() == b.text() ==> a == b,
{
    reveal_strlit("pending");
    reveal_strlit("claimed");
    reveal_strlit("applied");
    reveal_strlit("rejected");
    assert("pending"@.len() == 7);
    assert("claimed"@.len() == 7);
    assert("applied"@.len() == 7);
    assert("rejected"@.len() == 8);
    assert("pending"@[0] == 'p' && "claimed"@[0] == 'c');
    assert("pending"@[0] == 'p' && "applied"@[0] == 'a');
    assert("claimed"@[0] == 'c' && "applied"@[0] == 'a');
}

/// Whether the bytes behind a reference can still be read.
#[derive(Clone, Copy, Debug, PartialEq, Eq, Structural)]
pub enum SourceAvailability {
    Available,
    /// The journal no longer holds the event that the reference names.
    Expired,
}

impl SourceAvailability {
    /// The text that a column holds for this value.
    pub open spec fn text(self) -> Seq<char> {
        match self {
            SourceAvailability::Available => "available"@,
            SourceAvailability::Expired => "expired"@,
        }
    }

    #[must_use]
    pub fn as_str(self) -> (text: &'static str)
        ensures
            text@ == self.text(),
    {
        match self {
            SourceAvailability::Available => "available",
            SourceAvailability::Expired => "expired",
        }
    }

    /// The value that a column text stands for, if it stands for one.
    #[must_use]
    pub fn parse(value: &str) -> (parsed: Option<Self>)
        ensures
            parsed is Some ==> parsed->Some_0.text() == value@,
            parsed is None <==> (forall|other: Self| #[trigger] other.text() != value@),
            forall|other: Self| #[trigger] other.text() == value@ ==> parsed == Some(other),
    {
        proof {
            assert forall|a: Self, b: Self| #[trigger] a.text() == #[trigger] b.text() implies a == b by {
                law_source_availability_texts_differ(a, b);
            }
        }
        if same_text(value, "available") {
            assert(SourceAvailability::Available.text() == value@);
            Some(SourceAvailability::Available)
        } else if same_text(value, "expired") {
            assert(SourceAvailability::Expired.text() == value@);
            Some(SourceAvailability::Expired)
        } else {
            None
        }
    }
}

/// The column texts for the availability of a source: each has its own, and no other text stands
/// for one.
pub proof fn law_source_availability_texts(text: Seq<char>)
    ensures
        SourceAvailability::Available.text() == "available"@,
        SourceAvailability::Expired.text() == "expired"@,
        (exists|state: SourceAvailability| #[trigger] state.text() == text) <==> text == "available"@
            || text == "expired"@,
{
    if exists|state: SourceAvailability| #[trigger] state.text() == text {
        let state = choose|state: SourceAvailability| #[trigger] state.text() == text;
        match state {
            SourceAvailability::Available => {},
            SourceAvailability::Expired => {},
        }
    }
    if text == "available"@ {
        assert(SourceAvailability::Available.text() == text);
    }
    if text == "expired"@ {
        assert(SourceAvailability::Expired.text() == text);
    }
}

/// Different values of `SourceAvailability` have different column texts, so what is
/// written is what is read back.
pub proof fn law_source_availability_texts_differ(a: SourceAvailability, b: SourceAvailability)
    ensures
        a.text() == b.text() ==> a == b,
{
    reveal_strlit("available");
    reveal_strlit("expired");
    assert("available"@.len() == 9);
    assert("expired"@.len() == 7);
}

} // verus!
