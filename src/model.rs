//! The values exchanged with a requester and with the presentation layer.
use vstd::prelude::*;

verus! {

/// One choice offered by a question; addressed by its position.
#[derive(Debug, Clone)]
pub struct AskOption {
    pub label: String,
    pub description: String,
}

pub struct OptionView {
    pub label: Seq<char>,
    pub description: Seq<char>,
}

impl View for AskOption {
    type V = OptionView;

    open spec fn view(&self) -> OptionView {
        OptionView { label: self.label@, description: self.description@ }
    }
}

/// One question of a batch.
#[derive(Debug, Clone)]
pub struct AskQuestion {
    pub header: String,
    pub id: String,
    pub question: String,
    pub options: Vec<AskOption>,
}

pub struct QuestionView {
    pub header: Seq<char>,
    pub id: Seq<char>,
    pub question: Seq<char>,
    pub options: Seq<OptionView>,
}

impl View for AskQuestion {
    type V = QuestionView;

    open spec fn view(&self) -> QuestionView {
        QuestionView {
            header: self.header@,
            id: self.id@,
            question: self.question@,
            options: self.options@.map_values(|o: AskOption| o@),
        }
    }
}

/// Whether a batch solicits a free-form note, and whether it must be given.
#[derive(Debug, Clone)]
pub struct AskNote {
    pub label: String,
    pub required: bool,
}

pub struct NoteView {
    pub label: Seq<char>,
    pub required: bool,
}

impl View for AskNote {
    type V = NoteView;

    open spec fn view(&self) -> NoteView {
        NoteView { label: self.label@, required: self.required }
    }
}

/// The questions that one session asks, with the optional note.
#[derive(Debug, Clone)]
pub struct AskRequestBatch {
    pub questions: Vec<AskQuestion>,
    pub note: Option<AskNote>,
}

pub struct RequestView {
    pub questions: Seq<QuestionView>,
    pub note: Option<NoteView>,
}

impl View for AskRequestBatch {
    type V = RequestView;

    open spec fn view(&self) -> RequestView {
        RequestView {
            questions: self.questions@.map_values(|q: AskQuestion| q@),
            note: match self.note {
                Some(n) => Some(n@),
                None => None,
            },
        }
    }
}

/// One answer, keyed by the id of the question it answers.
#[derive(Debug, Clone)]
pub struct AskAnswer {
    pub id: String,
    pub selected_label: String,
    pub selected_index: Option<usize>,
    pub used_other: bool,
    pub other_text: Option<String>,
}

pub struct AnswerView {
    pub id: Seq<char>,
    pub selected_label: Seq<char>,
    pub selected_index: Option<usize>,
    pub used_other: bool,
    pub other_text: Option<Seq<char>>,
}

impl View for AskAnswer {
    type V = AnswerView;

    open spec fn view(&self) -> AnswerView {
        AnswerView {
            id: self.id@,
            selected_label: self.selected_label@,
            selected_index: self.selected_index,
            used_other: self.used_other,
            other_text: match self.other_text {
                Some(t) => Some(t@),
                None => None,
            },
        }
    }
}

pub open spec fn answers_view(answers: Seq<AskAnswer>) -> Seq<AnswerView> {
    answers.map_values(|a: AskAnswer| a@)
}

/// The terminal outcome of a session.
#[derive(Debug, Clone, Copy, PartialEq, Eq, Structural)]
pub enum AskResponseStatus {
    Answered,
    Cancelled,
    Expired,
}

/// The one value sent back to the requester of a session.
#[derive(Debug, Clone)]
pub struct AskResponseBatch {
    pub ask_id: String,
    pub answers: Vec<AskAnswer>,
    pub note: Option<String>,
    pub status: AskResponseStatus,
    pub answered_at_iso: Option<String>,
    pub source: String,
}

/// The request envelope that a requester sends over the socket.
#[derive(Debug, Clone)]
pub struct AskSocketRequest {
    pub request_type: String,
    pub ask_id: String,
    pub request: AskRequestBatch,
    pub timeout_ms: u64,
    pub requested_at_iso: String,
}

/// The outcome that an operator submits.
#[derive(Debug, Clone, Copy, PartialEq, Eq, Structural)]
pub enum SubmitAskResponseStatus {
    Answered,
    Cancelled,
}

/// A submission from the presentation layer.
#[derive(Debug, Clone)]
pub struct SubmitAskResponsePayload {
    pub ask_id: String,
    pub answers: Vec<AskAnswer>,
    pub note: Option<String>,
    pub status: SubmitAskResponseStatus,
}

/// The notice handed to the presentation layer when a session is registered.
#[derive(Debug, Clone)]
pub struct AskSessionCreatedEventPayload {
    pub ask_id: String,
    pub requested_at_iso: String,
    pub first_question_text: Option<String>,
}

/// A read-only snapshot of one pending session.
#[derive(Debug, Clone)]
pub struct PendingAskSessionView {
    pub ask_id: String,
    pub request: AskRequestBatch,
    pub requested_at_iso: String,
    pub timeout_ms: u64,
    pub expires_at_iso: Option<String>,
    pub is_expired: bool,
}

impl AskOption {
    /// A copy with the same texts.
    pub fn duplicate(&self) -> (r: AskOption)
        ensures
            r@ == self@,
    {
        AskOption { label: self.label.clone(), description: self.description.clone() }
    }
}

impl AskQuestion {
    /// A copy with the same texts and options.
    pub fn duplicate(&self) -> (r: AskQuestion)
        ensures
            r@ == self@,
    {
        let mut options: Vec<AskOption> = Vec::new();
        let mut i: usize = 0;
        while i < self.options.len()
            invariant
                i <= self.options@.len(),
                options@.len() == i,
                forall|k: int| 0 <= k < i ==> #[trigger] options@[k]@ == self.options@[k]@,
            decreases self.options@.len() - i,
        {
            options.push(self.options[i].duplicate());
            i += 1;
        }
        let r = AskQuestion {
            header: self.header.clone(),
            id: self.id.clone(),
            question: self.question.clone(),
            options,
        };
        assert(r.options@.map_values(|o: AskOption| o@) =~= self.options@.map_values(
            |o: AskOption| o@,
        ));
        r
    }
}

impl AskRequestBatch {
    /// A copy with the same questions and note.
    pub fn duplicate(&self) -> (r: AskRequestBatch)
        ensures
            r@ == self@,
    {
        let mut questions: Vec<AskQuestion> = Vec::new();
        let mut i: usize = 0;
        while i < self.questions.len()
            invariant
                i <= self.questions@.len(),
                questions@.len() == i,
                forall|k: int| 0 <= k < i ==> #[trigger] questions@[k]@ == self.questions@[k]@,
            decreases self.questions@.len() - i,
        {
            questions.push(self.questions[i].duplicate());
            i += 1;
        }
        let note = match &self.note {
            Some(n) => Some(AskNote { label: n.label.clone(), required: n.required }),
            None => None,
        };
        let r = AskRequestBatch { questions, note };
        assert(r.questions@.map_values(|q: AskQuestion| q@) =~= self.questions@.map_values(
            |q: AskQuestion| q@,
        ));
        r
    }
}

} // verus!
