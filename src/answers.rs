//! Validation and normalization of a submitted answer batch against the
//! questions it answers.
use vstd::prelude::*;
use crate::model::{
    AnswerView, AskAnswer, AskRequestBatch, QuestionView, answers_view,
};
use crate::text::{normalize_optional_text, normalized_text};

verus! {

/// Why a submitted answer batch, or its note, was rejected.
#[derive(Debug, Clone, PartialEq, Eq)]
pub enum AnswerError {
    /// The number of answers differs from the number of questions.
    CountMismatch,
    /// Two answers name the same question id.
    DuplicateId,
    /// No (unused) answer names this question id.
    Missing { question_id: String },
    /// An "other" answer also selects an option.
    IndexWithOther { question_id: String },
    /// An "other" answer has no text once trimmed.
    OtherTextRequired { question_id: String },
    /// An option answer carries free text.
    OtherTextWithoutOther { question_id: String },
    /// An option answer selects nothing.
    IndexRequired { question_id: String },
    /// An option answer selects a position the question does not have.
    IndexOutOfRange { index: usize, question_id: String },
    /// The batch requires a note and none was given.
    NoteRequired,
}

pub enum AnswerFault {
    CountMismatch,
    DuplicateId,
    Missing(Seq<char>),
    IndexWithOther(Seq<char>),
    OtherTextRequired(Seq<char>),
    OtherTextWithoutOther(Seq<char>),
    IndexRequired(Seq<char>),
    IndexOutOfRange(usize, Seq<char>),
    NoteRequired,
}

impl View for AnswerError {
    type V = AnswerFault;

    open spec fn view(&self) -> AnswerFault {
        match self {
            AnswerError::CountMismatch => AnswerFault::CountMismatch,
            AnswerError::DuplicateId => AnswerFault::DuplicateId,
            AnswerError::Missing { question_id } => AnswerFault::Missing(question_id@),
            AnswerError::IndexWithOther { question_id } => AnswerFault::IndexWithOther(
                question_id@,
            ),
            AnswerError::OtherTextRequired { question_id } => AnswerFault::OtherTextRequired(
                question_id@,
            ),
            AnswerError::OtherTextWithoutOther { question_id } =>
                AnswerFault::OtherTextWithoutOther(question_id@),
            AnswerError::IndexRequired { question_id } => AnswerFault::IndexRequired(
                question_id@,
            ),
            AnswerError::IndexOutOfRange { index, question_id } => AnswerFault::IndexOutOfRange(
                *index,
                question_id@,
            ),
            AnswerError::NoteRequired => AnswerFault::NoteRequired,
        }
    }
}

/// Some two answers name the same question.
pub open spec fn has_duplicate_ids(answers: Seq<AnswerView>) -> bool {
    exists|i: int, j: int|
        0 <= i < j < answers.len() && #[trigger] answers[i].id == #[trigger] answers[j].id
}

/// Some answer names the question id.
pub open spec fn answered(answers: Seq<AnswerView>, id: Seq<char>) -> bool {
    exists|i: int| 0 <= i < answers.len() && #[trigger] answers[i].id == id
}

/// An earlier question of the batch has the same id as question `k`, so
/// its answer is already taken.
pub open spec fn id_taken_before(questions: Seq<QuestionView>, k: int) -> bool {
    exists|j: int| 0 <= j < k && #[trigger] questions[j].id == questions[k].id
}

/// The answer that names the question id (unique when ids are not repeated).
pub open spec fn answer_for(answers: Seq<AnswerView>, id: Seq<char>) -> AnswerView {
    answers[choose|i: int| 0 <= i < answers.len() && #[trigger] answers[i].id == id]
}

/// One answer checked against its question: an "other" answer keeps its
/// trimmed text under the label `Other`; an option answer takes the label of
/// the option it selects, whatever label it was sent with.
pub open spec fn normalize_answer(q: QuestionView, a: AnswerView) -> Result<
    AnswerView,
    AnswerFault,
> {
    if a.used_other {
        if a.selected_index.is_some() {
            Err(AnswerFault::IndexWithOther(q.id))
        } else {
            match normalized_text(a.other_text) {
                None => Err(AnswerFault::OtherTextRequired(q.id)),
                Some(t) => Ok(
                    AnswerView {
                        id: q.id,
                        selected_label: "Other"@,
                        selected_index: None,
                        used_other: true,
                        other_text: Some(t),
                    },
                ),
            }
        }
    } else if a.other_text.is_some() {
        Err(AnswerFault::OtherTextWithoutOther(q.id))
    } else {
        match a.selected_index {
            None => Err(AnswerFault::IndexRequired(q.id)),
            Some(i) => if i >= q.options.len() {
                Err(AnswerFault::IndexOutOfRange(i, q.id))
            } else {
                Ok(
                    AnswerView {
                        id: q.id,
                        selected_label: q.options[i as int].label,
                        selected_index: Some(i),
                        used_other: false,
                        other_text: None,
                    },
                )
            },
        }
    }
}

/// The outcome for question `k`: missing, or its answer normalized.
pub open spec fn question_outcome(
    questions: Seq<QuestionView>,
    answers: Seq<AnswerView>,
    k: int,
) -> Result<AnswerView, AnswerFault> {
    if id_taken_before(questions, k) || !answered(answers, questions[k].id) {
        Err(AnswerFault::Missing(questions[k].id))
    } else {
        normalize_answer(questions[k], answer_for(answers, questions[k].id))
    }
}

/// The first `k` questions processed in order, stopping at the first fault.
pub open spec fn validate_prefix(
    questions: Seq<QuestionView>,
    answers: Seq<AnswerView>,
    k: nat,
) -> Result<Seq<AnswerView>, AnswerFault>
    decreases k,
{
    if k == 0 {
        Ok(Seq::empty())
    } else {
        match validate_prefix(questions, answers, (k - 1) as nat) {
            Err(e) => Err(e),
            Ok(prefix) => match question_outcome(questions, answers, k - 1) {
                Err(e) => Err(e),
                Ok(a) => Ok(prefix.push(a)),
            },
        }
    }
}

/// The normalized answers in question order, or the first fault found:
/// the count is checked first, then duplicate ids, then each question.
pub open spec fn validated_answers(
    questions: Seq<QuestionView>,
    answers: Seq<AnswerView>,
) -> Result<Seq<AnswerView>, AnswerFault> {
    if answers.len() != questions.len() {
        Err(AnswerFault::CountMismatch)
    } else if has_duplicate_ids(answers) {
        Err(AnswerFault::DuplicateId)
    } else {
        validate_prefix(questions, answers, questions.len())
    }
}

/// Whether a note is demanded and missing.
pub open spec fn note_fault(request: crate::model::RequestView, note: Option<Seq<char>>) -> bool {
    match request.note {
        Some(n) => n.required && note.is_none(),
        None => false,
    }
}

pub open spec fn answers_result_view(r: Result<Vec<AskAnswer>, AnswerError>) -> Result<
    Seq<AnswerView>,
    AnswerFault,
> {
    match r {
        Ok(v) => Ok(answers_view(v@)),
        Err(e) => Err(e@),
    }
}

/// Rejects a missing note where the batch requires one.
pub fn validate_required_note(request: &AskRequestBatch, note: Option<&String>) -> (r: Result<
    (),
    AnswerError,
>)
    ensures
        r.is_err() == note_fault(request@, match note {
            Some(s) => Some(s@),
            None => None,
        }),
        r.is_err() ==> r == Err::<(), AnswerError>(AnswerError::NoteRequired),
{
    let required = match &request.note {
        Some(n) => n.required,
        None => false,
    };
    if !required {
        return Ok(());
    }
    if note.is_none() {
        return Err(AnswerError::NoteRequired);
    }
    Ok(())
}

fn check_one_answer(question: &crate::model::AskQuestion, answer: &AskAnswer) -> (r: Result<
    AskAnswer,
    AnswerError,
>)
    ensures
        match r {
            Ok(a) => normalize_answer(question@, answer@) == Ok::<AnswerView, AnswerFault>(a@),
            Err(e) => normalize_answer(question@, answer@) == Err::<AnswerView, AnswerFault>(e@),
        },
{
    if answer.used_other {
        if answer.selected_index.is_some() {
            return Err(AnswerError::IndexWithOther { question_id: question.id.clone() });
        }
        let raw_text = match &answer.other_text {
            Some(t) => Some(t.clone()),
            None => None,
        };
        let normalized_other_text = match normalize_optional_text(raw_text) {
            Some(t) => t,
            None => {
                return Err(AnswerError::OtherTextRequired { question_id: question.id.clone() });
            },
        };
        return Ok(
            AskAnswer {
                id: question.id.clone(),
                selected_label: String::from_str("Other"),
                selected_index: None,
                used_other: true,
                other_text: Some(normalized_other_text),
            },
        );
    }
    if answer.other_text.is_some() {
        return Err(AnswerError::OtherTextWithoutOther { question_id: question.id.clone() });
    }
    let selected_index = match answer.selected_index {
        Some(i) => i,
        None => {
            return Err(AnswerError::IndexRequired { question_id: question.id.clone() });
        },
    };
    if selected_index >= question.options.len() {
        return Err(
            AnswerError::IndexOutOfRange {
                index: selected_index,
                question_id: question.id.clone(),
            },
        );
    }
    Ok(
        AskAnswer {
            id: question.id.clone(),
            selected_label: question.options[selected_index].label.clone(),
            selected_index: Some(selected_index),
            used_other: false,
            other_text: None,
        },
    )
}

/// Once a prefix of the questions fails, every longer prefix fails the same way.
proof fn lemma_fault_persists(
    questions: Seq<QuestionView>,
    answers: Seq<AnswerView>,
    k: nat,
    m: nat,
)
    requires
        k <= m,
        validate_prefix(questions, answers, k).is_err(),
    ensures
        validate_prefix(questions, answers, m) == validate_prefix(questions, answers, k),
    decreases m - k,
{
    if k < m {
        lemma_fault_persists(questions, answers, k, (m - 1) as nat);
    }
}

/// Checks a submitted answer batch against the questions of the request and
/// returns the answers normalized, in question order, or the first fault.
pub fn validate_and_normalize_answers(
    request: &AskRequestBatch,
    raw_answers: Vec<AskAnswer>,
) -> (r: Result<Vec<AskAnswer>, AnswerError>)
    ensures
        answers_result_view(r) == validated_answers(request@.questions, answers_view(raw_answers@)),
{
    let ghost qs = request@.questions;
    let ghost avs = answers_view(raw_answers@);
    let n = request.questions.len();
    if raw_answers.len() != n {
        return Err(AnswerError::CountMismatch);
    }
    let mut i: usize = 0;
    while i < raw_answers.len()
        invariant
            i <= raw_answers@.len(),
            avs == answers_view(raw_answers@),
            qs == request@.questions,
            avs.len() == qs.len(),
            forall|a: int, b: int| 0 <= a < b < i ==> #[trigger] avs[a].id != #[trigger] avs[b].id,
        decreases raw_answers@.len() - i,
    {
        let mut j: usize = 0;
        while j < i
            invariant
                j <= i < raw_answers@.len(),
                avs == answers_view(raw_answers@),
                qs == request@.questions,
                avs.len() == qs.len(),
                forall|a: int| 0 <= a < j ==> #[trigger] avs[a].id != avs[i as int].id,
            decreases i - j,
        {
            if raw_answers[j].id == raw_answers[i].id {
                assert(avs[j as int].id == avs[i as int].id);
                assert(has_duplicate_ids(avs));
                return Err(AnswerError::DuplicateId);
            }
            j += 1;
        }
        i += 1;
    }
    assert(!has_duplicate_ids(avs));
    let mut normalized: Vec<AskAnswer> = Vec::new();
    assert(answers_view(normalized@) =~= Seq::<AnswerView>::empty());
    let mut k: usize = 0;
    while k < n
        invariant
            n == request.questions@.len(),
            qs == request@.questions,
            k <= n,
            avs == answers_view(raw_answers@),
            avs.len() == n,
            !has_duplicate_ids(avs),
            validate_prefix(qs, avs, k as nat) == Ok::<Seq<AnswerView>, AnswerFault>(
                answers_view(normalized@),
            ),
        decreases n - k,
    {
        let question = &request.questions[k];
        assert(qs[k as int] == question@);
        let mut taken = false;
        let mut j: usize = 0;
        while j < k
            invariant
                j <= k < n,
                n == request.questions@.len(),
                qs == request@.questions,
                question@ == qs[k as int],
                taken == (exists|b: int| 0 <= b < j && #[trigger] qs[b].id == qs[k as int].id),
            decreases k - j,
        {
            if request.questions[j].id == question.id {
                assert(qs[j as int].id == qs[k as int].id);
                taken = true;
            }
            j += 1;
        }
        if taken {
            proof {
                assert(id_taken_before(qs, k as int));
                lemma_fault_persists(qs, avs, (k + 1) as nat, n as nat);
            }
            return Err(AnswerError::Missing { question_id: question.id.clone() });
        }
        let mut found: Option<usize> = None;
        let mut m: usize = 0;
        while m < raw_answers.len()
            invariant
                m <= raw_answers@.len(),
                k < qs.len(),
                avs == answers_view(raw_answers@),
                question@ == qs[k as int],
                found.is_none() ==> forall|b: int| 0 <= b < m ==> #[trigger] avs[b].id != question@.id,
                found.is_some() ==> found.unwrap() < raw_answers@.len() && avs[found.unwrap() as int].id == question@.id,
            decreases raw_answers@.len() - m,
        {
            if found.is_none() && raw_answers[m].id == question.id {
                found = Some(m);
            }
            m += 1;
        }
        let idx = match found {
            Some(idx) => idx,
            None => {
                assert(!answered(avs, qs[k as int].id));
                proof {
                    lemma_fault_persists(qs, avs, (k + 1) as nat, n as nat);
                }
                return Err(AnswerError::Missing { question_id: question.id.clone() });
            },
        };
        assert(answered(avs, qs[k as int].id));
        let ghost chosen = choose|c: int| 0 <= c < avs.len() && #[trigger] avs[c].id == qs[k as int].id;
        assert(chosen == idx as int) by {
            if chosen != idx as int {
                if chosen < idx as int {
                    assert(avs[chosen].id == avs[idx as int].id);
                } else {
                    assert(avs[idx as int].id == avs[chosen].id);
                }
            }
        };
        assert(answer_for(avs, qs[k as int].id) == raw_answers@[idx as int]@);
        match check_one_answer(question, &raw_answers[idx]) {
            Ok(a) => {
                let ghost before = normalized@;
                normalized.push(a);
                assert(answers_view(normalized@) =~= answers_view(before).push(a@));
            },
            Err(e) => {
                proof {
                    lemma_fault_persists(qs, avs, (k + 1) as nat, n as nat);
                }
                return Err(e);
            },
        }
        k += 1;
    }
    Ok(normalized)
}

proof fn lemma_outcome_fault_rejects(
    questions: Seq<QuestionView>,
    answers: Seq<AnswerView>,
    k: int,
)
    requires
        0 <= k < questions.len(),
        question_outcome(questions, answers, k).is_err(),
    ensures
        validated_answers(questions, answers).is_err(),
{
    if answers.len() == questions.len() && !has_duplicate_ids(answers) {
        assert(validate_prefix(questions, answers, (k + 1) as nat).is_err());
        lemma_fault_persists(questions, answers, (k + 1) as nat, questions.len());
    }
}

/// An answer that says it used "other" yet selects an option, or that
/// selects an option yet carries free text, gets the whole batch rejected.
pub proof fn lemma_inconsistent_other_rejected(
    questions: Seq<QuestionView>,
    answers: Seq<AnswerView>,
    k: int,
)
    requires
        0 <= k < questions.len(),
        answered(answers, questions[k].id),
        ({
            let a = answer_for(answers, questions[k].id);
            (a.used_other && a.selected_index.is_some()) || (!a.used_other
                && a.other_text.is_some())
        }),
    ensures
        validated_answers(questions, answers).is_err(),
{
    lemma_outcome_fault_rejects(questions, answers, k);
}

proof fn lemma_prefix_shape(questions: Seq<QuestionView>, answers: Seq<AnswerView>, n: nat)
    requires
        n <= questions.len(),
        validate_prefix(questions, answers, n) is Ok,
    ensures
        validate_prefix(questions, answers, n)->Ok_0.len() == n,
        forall|k: int|
            0 <= k < n ==> question_outcome(questions, answers, k) == Ok::<AnswerView, AnswerFault>(
                #[trigger] validate_prefix(questions, answers, n)->Ok_0[k],
            ),
    decreases n,
{
    if n > 0 {
        lemma_prefix_shape(questions, answers, (n - 1) as nat);
        let prev = validate_prefix(questions, answers, (n - 1) as nat)->Ok_0;
        let cur = validate_prefix(questions, answers, n)->Ok_0;
        assert forall|k: int| 0 <= k < n implies question_outcome(questions, answers, k) == Ok::<
            AnswerView,
            AnswerFault,
        >(#[trigger] cur[k]) by {
            if k < n - 1 {
                assert(cur[k] == prev[k]);
            }
        }
    }
}

/// An accepted batch has one answer per question, in question order, with
/// the question's id; an option answer carries the label of the option at
/// its position, and an "other" answer the label `Other`.
pub proof fn lemma_labels_from_options(questions: Seq<QuestionView>, answers: Seq<AnswerView>)
    requires
        validated_answers(questions, answers) is Ok,
    ensures
        ({
            let out = validated_answers(questions, answers)->Ok_0;
            &&& out.len() == questions.len()
            &&& forall|k: int|
                0 <= k < out.len() ==> {
                    &&& (#[trigger] out[k]).id == questions[k].id
                    &&& out[k].used_other ==> out[k].selected_label == "Other"@
                        && out[k].selected_index.is_none()
                    &&& !out[k].used_other ==> out[k].selected_index is Some
                        && out[k].selected_index->Some_0 < questions[k].options.len()
                        && out[k].selected_label
                        == questions[k].options[out[k].selected_index->Some_0 as int].label
                }
        }),
{
    lemma_prefix_shape(questions, answers, questions.len());
}

/// The same answers with other labels.
pub open spec fn same_but_labels(a: Seq<AnswerView>, b: Seq<AnswerView>) -> bool {
    &&& a.len() == b.len()
    &&& forall|i: int|
        0 <= i < a.len() ==> {
            &&& (#[trigger] a[i]).id == b[i].id
            &&& a[i].selected_index == b[i].selected_index
            &&& a[i].used_other == b[i].used_other
            &&& a[i].other_text == b[i].other_text
        }
}

proof fn lemma_prefix_ignores_labels(
    questions: Seq<QuestionView>,
    a: Seq<AnswerView>,
    b: Seq<AnswerView>,
    n: nat,
)
    requires
        n <= questions.len(),
        same_but_labels(a, b),
        !has_duplicate_ids(a),
    ensures
        validate_prefix(questions, a, n) == validate_prefix(questions, b, n),
    decreases n,
{
    if n > 0 {
        lemma_prefix_ignores_labels(questions, a, b, (n - 1) as nat);
        let k = n - 1;
        let id = questions[k].id;
        if answered(a, id) {
            let i = choose|i: int| 0 <= i < a.len() && #[trigger] a[i].id == id;
            assert(b[i].id == id);
            let ca = choose|c: int| 0 <= c < a.len() && #[trigger] a[c].id == id;
            let cb = choose|c: int| 0 <= c < b.len() && #[trigger] b[c].id == id;
            assert(a[cb].id == id);
            if ca != cb {
                if ca < cb {
                    assert(a[ca].id == a[cb].id);
                } else {
                    assert(a[cb].id == a[ca].id);
                }
            }
            assert(normalize_answer(questions[k], a[ca]) == normalize_answer(questions[k], b[cb]));
        } else {
            assert(!answered(b, id)) by {
                if answered(b, id) {
                    let i = choose|i: int| 0 <= i < b.len() && #[trigger] b[i].id == id;
                    assert(a[i].id == id);
                }
            }
        }
        assert(question_outcome(questions, a, k) == question_outcome(questions, b, k));
    }
}

/// The label sent with an answer is never used: answers that differ only
/// in their labels are accepted or rejected alike, with the same result.
pub proof fn lemma_sent_labels_ignored(
    questions: Seq<QuestionView>,
    a: Seq<AnswerView>,
    b: Seq<AnswerView>,
)
    requires
        same_but_labels(a, b),
    ensures
        validated_answers(questions, a) == validated_answers(questions, b),
{
    if a.len() == questions.len() {
        assert(has_duplicate_ids(a) == has_duplicate_ids(b)) by {
            if has_duplicate_ids(a) {
                let (i, j) = choose|i: int, j: int|
                    0 <= i < j < a.len() && #[trigger] a[i].id == #[trigger] a[j].id;
                assert(b[i].id == b[j].id);
            }
            if has_duplicate_ids(b) {
                let (i, j) = choose|i: int, j: int|
                    0 <= i < j < b.len() && #[trigger] b[i].id == #[trigger] b[j].id;
                assert(a[i].id == a[j].id);
            }
        }
        if !has_duplicate_ids(a) {
            lemma_prefix_ignores_labels(questions, a, b, questions.len());
        }
    }
}

} // verus!
