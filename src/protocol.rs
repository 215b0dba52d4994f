//! Checks on the request envelope, and the fixed parts of a response.
use vstd::prelude::*;
use crate::answers::id_taken_before;
use crate::model::{AskResponseBatch, AskResponseStatus, AskSocketRequest, QuestionView};
use crate::text::{blank, is_blank};

verus! {

/// The tag that marks every response as coming from the operator surface.
pub const ASK_RESPONSE_SOURCE: &'static str = "tauri-ui";

/// The only envelope type a requester may send.
pub const ASK_REQUEST_TYPE: &'static str = "ask_request";

/// Why a request envelope was refused.
#[derive(Debug, Clone, Copy, PartialEq, Eq, Structural)]
pub enum ProtocolError {
    /// The connection closed before sending a line.
    EmptyPayload,
    /// The line is not a request envelope.
    Malformed,
    /// The envelope type is not `ask_request`.
    UnsupportedType,
    /// The session id is blank.
    BlankAskId,
    /// The batch has no questions.
    NoQuestions,
    /// A question id is blank.
    BlankQuestionId,
    /// Two questions share an id.
    DuplicateQuestionId,
}

/// The first fault among the ids of the first `k` questions.
pub open spec fn question_ids_fault(questions: Seq<QuestionView>, k: nat) -> Option<ProtocolError>
    decreases k,
{
    if k == 0 {
        None
    } else {
        match question_ids_fault(questions, (k - 1) as nat) {
            Some(e) => Some(e),
            None => if blank(questions[k - 1].id) {
                Some(ProtocolError::BlankQuestionId)
            } else if id_taken_before(questions, k - 1) {
                Some(ProtocolError::DuplicateQuestionId)
            } else {
                None
            },
        }
    }
}

/// What the envelope check decides: the type, then the session id, then the
/// presence of questions, then their ids in order.
pub open spec fn request_fault(request: AskSocketRequest) -> Option<ProtocolError> {
    if request.request_type@ != ASK_REQUEST_TYPE@ {
        Some(ProtocolError::UnsupportedType)
    } else if blank(request.ask_id@) {
        Some(ProtocolError::BlankAskId)
    } else if request.request@.questions.len() == 0 {
        Some(ProtocolError::NoQuestions)
    } else {
        question_ids_fault(request.request@.questions, request.request@.questions.len())
    }
}

/// A batch is valid when it has questions and their ids are non-blank and
/// distinct.
pub open spec fn valid_batch(questions: Seq<QuestionView>) -> bool {
    &&& questions.len() > 0
    &&& forall|k: int| 0 <= k < questions.len() ==> !blank(#[trigger] questions[k].id)
    &&& forall|j: int, k: int|
        0 <= j < k < questions.len() ==> #[trigger] questions[j].id != #[trigger] questions[k].id
}

proof fn lemma_ids_fault_free(questions: Seq<QuestionView>, k: nat)
    requires
        k <= questions.len(),
    ensures
        question_ids_fault(questions, k).is_none() <==> (
        (forall|m: int| 0 <= m < k ==> !blank(#[trigger] questions[m].id)) && (forall|j: int, m: int|
            0 <= j < m < k ==> #[trigger] questions[j].id != #[trigger] questions[m].id)),
    decreases k,
{
    if k > 0 {
        lemma_ids_fault_free(questions, (k - 1) as nat);
        let m = k - 1;
        if question_ids_fault(questions, k).is_none() {
            assert(!id_taken_before(questions, m));
            assert forall|a: int, b: int|
                0 <= a < b < k implies #[trigger] questions[a].id != #[trigger] questions[b].id by {
                if b == m {
                    if questions[a].id == questions[b].id {
                        assert(id_taken_before(questions, m));
                    }
                }
            }
        } else {
            if question_ids_fault(questions, (k - 1) as nat).is_none() {
                if id_taken_before(questions, m) {
                    let j = choose|j: int| 0 <= j < m && #[trigger] questions[j].id == questions[m].id;
                    assert(questions[j].id == questions[m].id);
                }
            }
        }
    }
}

proof fn lemma_ids_fault_persists(questions: Seq<QuestionView>, k: nat, m: nat)
    requires
        k <= m,
        question_ids_fault(questions, k).is_some(),
    ensures
        question_ids_fault(questions, m) == question_ids_fault(questions, k),
    decreases m - k,
{
    if k < m {
        lemma_ids_fault_persists(questions, k, (m - 1) as nat);
    }
}

/// An envelope passes the check exactly when its type is right, its id is
/// not blank and its batch is valid.
pub proof fn lemma_request_accepted_iff_valid(request: AskSocketRequest)
    ensures
        request_fault(request).is_none() <==> (request.request_type@ == ASK_REQUEST_TYPE@
            && !blank(request.ask_id@) && valid_batch(request.request@.questions)),
{
    lemma_ids_fault_free(request.request@.questions, request.request@.questions.len());
}

/// Refuses an envelope with the wrong type, a blank session id, no
/// questions, or blank or repeated question ids.
pub fn validate_socket_request(request: &AskSocketRequest) -> (r: Result<(), ProtocolError>)
    ensures
        match r {
            Ok(()) => request_fault(*request).is_none(),
            Err(e) => request_fault(*request) == Some(e),
        },
{
    let expected = String::from_str(ASK_REQUEST_TYPE);
    if request.request_type != expected {
        return Err(ProtocolError::UnsupportedType);
    }
    if is_blank(request.ask_id.as_str()) {
        return Err(ProtocolError::BlankAskId);
    }
    let questions = &request.request.questions;
    if questions.len() == 0 {
        return Err(ProtocolError::NoQuestions);
    }
    let ghost qs = request.request@.questions;
    let mut k: usize = 0;
    while k < questions.len()
        invariant
            k <= questions@.len(),
            qs == request.request@.questions,
            questions == request.request.questions,
            question_ids_fault(qs, k as nat).is_none(),
            request.request_type@ == ASK_REQUEST_TYPE@,
            !blank(request.ask_id@),
            qs.len() > 0,
        decreases questions@.len() - k,
    {
        assert(qs[k as int] == questions@[k as int]@);
        if is_blank(questions[k].id.as_str()) {
            proof {
                lemma_ids_fault_persists(qs, (k + 1) as nat, qs.len());
            }
            return Err(ProtocolError::BlankQuestionId);
        }
        let mut j: usize = 0;
        while j < k
            invariant
                j <= k < questions@.len(),
                qs == request.request@.questions,
                questions == request.request.questions,
                forall|b: int| 0 <= b < j ==> #[trigger] qs[b].id != qs[k as int].id,
                question_ids_fault(qs, k as nat).is_none(),
                !blank(qs[k as int].id),
                request.request_type@ == ASK_REQUEST_TYPE@,
                !blank(request.ask_id@),
                qs.len() > 0,
            decreases k - j,
        {
            assert(qs[j as int] == questions@[j as int]@);
            if questions[j].id == questions[k].id {
                assert(qs[j as int].id == qs[k as int].id);
                assert(id_taken_before(qs, k as int));
                proof {
                    lemma_ids_fault_persists(qs, (k + 1) as nat, qs.len());
                }
                return Err(ProtocolError::DuplicateQuestionId);
            }
            j += 1;
        }
        k += 1;
    }
    Ok(())
}

/// The response that tells a requester its session expired.
pub fn build_expired_response(ask_id: &str) -> (r: AskResponseBatch)
    ensures
        r.ask_id@ == ask_id@,
        r.answers@.len() == 0,
        r.note.is_none(),
        r.status == AskResponseStatus::Expired,
        r.answered_at_iso.is_none(),
        r.source@ == ASK_RESPONSE_SOURCE@,
{
    AskResponseBatch {
        ask_id: String::from_str(ask_id),
        answers: Vec::new(),
        note: None,
        status: AskResponseStatus::Expired,
        answered_at_iso: None,
        source: String::from_str(ASK_RESPONSE_SOURCE),
    }
}

} // verus!
