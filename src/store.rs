//! The pending-session store: the single owner of every session from
//! registration until it is resolved, swept, or removed.
use vstd::prelude::*;
use crate::clock::{
    expired_at, expiry_text, format_iso_utc, is_past_retention, is_session_expired, iso_or_epoch,
    parse_requested_at_iso, past_retention, rfc3339_instant, session_expiry_iso,
};
use crate::model::{
    AskRequestBatch, AskResponseBatch, AskSessionCreatedEventPayload, AskSocketRequest,
    PendingAskSessionView, RequestView,
};
use crate::order::{lemma_text_le_total, lemma_text_le_trans, text_le, text_precedes_or_equals};
use crate::protocol::{build_expired_response, ASK_RESPONSE_SOURCE};
use crate::model::{AnswerView, AskResponseStatus, SubmitAskResponsePayload, SubmitAskResponseStatus, answers_view};
use crate::answers::{
    AnswerError, AnswerFault, lemma_labels_from_options, note_fault, validate_and_normalize_answers, validate_required_note,
    validated_answers,
};
use crate::text::{normalize_optional_text, normalized_text, opt_text};

verus! {

/// A registered session: its batch, when it was asked, its timeout, and the
/// sink through which its one resolution is delivered.
pub struct PendingAskSession<S> {
    pub ask_id: String,
    pub request: AskRequestBatch,
    pub requested_at: i128,
    pub requested_at_iso: String,
    pub timeout_ms: u64,
    pub response_sender: S,
}

/// A resolution to hand to the sink of a session that has left the store.
pub struct Delivery<S> {
    pub sender: S,
    pub response: AskResponseBatch,
}

/// Why a session could not be registered.
#[derive(Debug, Clone, PartialEq, Eq)]
pub enum StoreError {
    /// A live session already has this id.
    DuplicateSession { ask_id: String },
}

/// Why a submission was refused.
#[derive(Debug, Clone, PartialEq, Eq)]
pub enum SubmitError {
    /// No live session has the id: unknown, or already resolved.
    NotFound { ask_id: String },
    /// The session had expired; it is resolved as expired instead.
    Expired,
    /// The answers or the note do not fit the session's batch.
    Invalid(AnswerError),
}

/// What a submission did: its result for the submitter, and the resolution
/// to deliver, if the session was resolved.
pub struct SubmitOutcome<S> {
    pub result: Result<(), SubmitError>,
    pub delivery: Option<Delivery<S>>,
}

/// A snapshot of the pending sessions, and the resolutions of the sessions
/// that the sweep before it removed.
pub struct Listing<S> {
    pub sessions: Vec<PendingAskSessionView>,
    pub expired: Vec<Delivery<S>>,
}

/// The pending sessions, kept ordered by their request timestamp text.
pub struct AskRuntimeState<S> {
    sessions: Vec<PendingAskSession<S>>,
}

impl<S> View for AskRuntimeState<S> {
    type V = Seq<PendingAskSession<S>>;

    closed spec fn view(&self) -> Seq<PendingAskSession<S>> {
        self.sessions@
    }
}

/// Some session has the id.
pub open spec fn contains_id<S>(s: Seq<PendingAskSession<S>>, id: Seq<char>) -> bool {
    exists|i: int| 0 <= i < s.len() && #[trigger] s[i].ask_id@ == id
}

/// No two sessions share an id.
pub open spec fn unique_ids<S>(s: Seq<PendingAskSession<S>>) -> bool {
    forall|i: int, j: int|
        0 <= i < s.len() && 0 <= j < s.len() && i != j ==> #[trigger] s[i].ask_id@
            != #[trigger] s[j].ask_id@
}

/// Sessions are ordered by their request timestamp text.
pub open spec fn sorted_by_time<S>(s: Seq<PendingAskSession<S>>) -> bool {
    forall|i: int, j: int|
        0 <= i < j < s.len() ==> text_le(
            #[trigger] s[i].requested_at_iso@,
            #[trigger] s[j].requested_at_iso@,
        )
}

/// Where a session with the given timestamp text goes: after every session
/// whose text sorts before or equal to it.
pub open spec fn insert_pos<S>(s: Seq<PendingAskSession<S>>, key: Seq<char>) -> nat
    decreases s.len(),
{
    if s.len() == 0 {
        0
    } else if text_le(s.last().requested_at_iso@, key) {
        s.len()
    } else {
        insert_pos(s.drop_last(), key)
    }
}

/// The sessions after registering `x`.
pub open spec fn inserted<S>(s: Seq<PendingAskSession<S>>, x: PendingAskSession<S>) -> Seq<
    PendingAskSession<S>,
> {
    s.insert(insert_pos(s, x.requested_at_iso@) as int, x)
}

/// A session that the sweep at `now` removes.
pub open spec fn stale<S>(x: PendingAskSession<S>, now: i128) -> bool {
    past_retention(x.requested_at, x.timeout_ms, now)
}

/// The sessions that survive a sweep at `now`, in order.
pub open spec fn swept<S>(s: Seq<PendingAskSession<S>>, now: i128) -> Seq<PendingAskSession<S>>
    decreases s.len(),
{
    if s.len() == 0 {
        s
    } else if stale(s.last(), now) {
        swept(s.drop_last(), now)
    } else {
        swept(s.drop_last(), now).push(s.last())
    }
}

/// The sessions that a sweep at `now` removes, in order.
pub open spec fn stale_part<S>(s: Seq<PendingAskSession<S>>, now: i128) -> Seq<
    PendingAskSession<S>,
>
    decreases s.len(),
{
    if s.len() == 0 {
        s
    } else if stale(s.last(), now) {
        stale_part(s.drop_last(), now).push(s.last())
    } else {
        stale_part(s.drop_last(), now)
    }
}

/// How many sessions have the id.
pub open spec fn count_id<S>(s: Seq<PendingAskSession<S>>, id: Seq<char>) -> nat
    decreases s.len(),
{
    if s.len() == 0 {
        0
    } else {
        count_id(s.drop_last(), id) + if s.last().ask_id@ == id {
            1nat
        } else {
            0nat
        }
    }
}

/// The session that a request registers at `now`.
pub open spec fn session_of<S>(request: AskSocketRequest, sender: S, now: i128) -> PendingAskSession<
    S,
> {
    PendingAskSession {
        ask_id: request.ask_id,
        request: request.request,
        requested_at: match rfc3339_instant(request.requested_at_iso@) {
            Some(t) => t,
            None => now,
        },
        requested_at_iso: request.requested_at_iso,
        timeout_ms: request.timeout_ms,
        response_sender: sender,
    }
}

/// The text of the first question, if any.
pub open spec fn first_question_text(request: RequestView) -> Option<Seq<char>> {
    if request.questions.len() > 0 {
        Some(request.questions[0].question)
    } else {
        None
    }
}

/// A listed snapshot shows the session as it stands at `now`.
pub open spec fn shows<S>(v: PendingAskSessionView, x: PendingAskSession<S>, now: i128) -> bool {
    &&& v.ask_id@ == x.ask_id@
    &&& v.request@ == x.request@
    &&& v.requested_at_iso@ == x.requested_at_iso@
    &&& v.timeout_ms == x.timeout_ms
    &&& opt_text(v.expires_at_iso) == expiry_text(x.requested_at, x.timeout_ms)
    &&& v.is_expired == expired_at(x.requested_at, x.timeout_ms, now)
}

/// The resolution that tells a session's requester it expired.
pub open spec fn expired_response(r: AskResponseBatch, ask_id: Seq<char>) -> bool {
    &&& r.ask_id@ == ask_id
    &&& r.answers@.len() == 0
    &&& r.note.is_none()
    &&& r.status == AskResponseStatus::Expired
    &&& r.answered_at_iso.is_none()
    &&& r.source@ == ASK_RESPONSE_SOURCE@
}

/// What a pass of the sweeper returns: one expiry resolution per removed
/// session, to its own sink, in store order.
pub open spec fn expiry_deliveries<S>(d: Seq<Delivery<S>>, removed: Seq<PendingAskSession<S>>) -> bool {
    &&& d.len() == removed.len()
    &&& forall|i: int|
        0 <= i < d.len() ==> (#[trigger] d[i]).sender == removed[i].response_sender
            && expired_response(d[i].response, removed[i].ask_id@)
}

/// The position of the session with the id (the only one, in a valid store).
pub open spec fn index_of<S>(s: Seq<PendingAskSession<S>>, id: Seq<char>) -> int {
    choose|i: int| 0 <= i < s.len() && #[trigger] s[i].ask_id@ == id
}

/// The resolution of an answered session.
pub open spec fn answered_response(
    r: AskResponseBatch,
    ask_id: Seq<char>,
    answers: Seq<AnswerView>,
    note: Option<Seq<char>>,
    now: i128,
) -> bool {
    &&& r.ask_id@ == ask_id
    &&& answers_view(r.answers@) == answers
    &&& opt_text(r.note) == note
    &&& r.status == AskResponseStatus::Answered
    &&& opt_text(r.answered_at_iso) == Some(iso_or_epoch(now))
    &&& r.source@ == ASK_RESPONSE_SOURCE@
}

/// The resolution of a cancelled session.
pub open spec fn cancelled_response(
    r: AskResponseBatch,
    ask_id: Seq<char>,
    note: Option<Seq<char>>,
    now: i128,
) -> bool {
    &&& r.ask_id@ == ask_id
    &&& r.answers@.len() == 0
    &&& opt_text(r.note) == note
    &&& r.status == AskResponseStatus::Cancelled
    &&& opt_text(r.answered_at_iso) == Some(iso_or_epoch(now))
    &&& r.source@ == ASK_RESPONSE_SOURCE@
}

/// The session is removed and its resolution goes to its own sink.
pub open spec fn resolved_to<S>(
    old_s: Seq<PendingAskSession<S>>,
    new_s: Seq<PendingAskSession<S>>,
    i: int,
    out: SubmitOutcome<S>,
) -> bool {
    &&& new_s == old_s.remove(i)
    &&& out.delivery matches Some(d) && d.sender == old_s[i].response_sender
}

/// The submission is refused and nothing changes.
pub open spec fn refused_unchanged<S>(
    old_s: Seq<PendingAskSession<S>>,
    new_s: Seq<PendingAskSession<S>>,
    out: SubmitOutcome<S>,
) -> bool {
    &&& new_s == old_s
    &&& out.delivery.is_none()
    &&& out.result.is_err()
}

/// What a submission at `now` does to the store `old_s`, leaving `new_s`.
pub open spec fn submit_effect<S>(
    old_s: Seq<PendingAskSession<S>>,
    payload: SubmitAskResponsePayload,
    now: i128,
    new_s: Seq<PendingAskSession<S>>,
    out: SubmitOutcome<S>,
) -> bool {
    if !contains_id(old_s, payload.ask_id@) {
        &&& refused_unchanged(old_s, new_s, out)
        &&& out.result matches Err(SubmitError::NotFound { ask_id }) && ask_id@ == payload.ask_id@
    } else {
        let i = index_of(old_s, payload.ask_id@);
        let x = old_s[i];
        let note = normalized_text(opt_text(payload.note));
        if expired_at(x.requested_at, x.timeout_ms, now) {
            &&& resolved_to(old_s, new_s, i, out)
            &&& out.result matches Err(SubmitError::Expired)
            &&& expired_response(out.delivery.unwrap().response, x.ask_id@)
        } else if payload.status == SubmitAskResponseStatus::Cancelled {
            &&& resolved_to(old_s, new_s, i, out)
            &&& out.result is Ok
            &&& cancelled_response(out.delivery.unwrap().response, x.ask_id@, note, now)
        } else {
            match validated_answers(x.request@.questions, answers_view(payload.answers@)) {
                Err(f) => {
                    &&& refused_unchanged(old_s, new_s, out)
                    &&& out.result matches Err(SubmitError::Invalid(e)) && e@ == f
                },
                Ok(answers) => if note_fault(x.request@, note) {
                    &&& refused_unchanged(old_s, new_s, out)
                    &&& out.result matches Err(SubmitError::Invalid(e)) && e@
                        == AnswerFault::NoteRequired
                } else {
                    &&& resolved_to(old_s, new_s, i, out)
                    &&& out.result is Ok
                    &&& answered_response(
                        out.delivery.unwrap().response,
                        x.ask_id@,
                        answers,
                        note,
                        now,
                    )
                },
            }
        }
    }
}

/// Removing one session keeps the store's order and its ids distinct.
proof fn lemma_remove_keeps_wf<S>(s: Seq<PendingAskSession<S>>, i: int)
    requires
        0 <= i < s.len(),
        unique_ids(s),
        sorted_by_time(s),
    ensures
        unique_ids(s.remove(i)),
        sorted_by_time(s.remove(i)),
{
    let t = s.remove(i);
    assert forall|a: int, b: int| 0 <= a < t.len() && 0 <= b < t.len() && a != b implies #[trigger] t[a].ask_id@
        != #[trigger] t[b].ask_id@ by {
        let x = if a < i { a } else { a + 1 };
        let y = if b < i { b } else { b + 1 };
        assert(t[a] == s[x] && t[b] == s[y]);
    }
    assert forall|a: int, b: int| 0 <= a < b < t.len() implies text_le(
        #[trigger] t[a].requested_at_iso@,
        #[trigger] t[b].requested_at_iso@,
    ) by {
        let x = if a < i { a } else { a + 1 };
        let y = if b < i { b } else { b + 1 };
        assert(t[a] == s[x] && t[b] == s[y]);
    }
}

proof fn lemma_index_of_unique<S>(s: Seq<PendingAskSession<S>>, id: Seq<char>, k: int)
    requires
        unique_ids(s),
        0 <= k < s.len(),
        s[k].ask_id@ == id,
    ensures
        index_of(s, id) == k,
{
    let c = index_of(s, id);
    if c != k {
        assert(s[c].ask_id@ == s[k].ask_id@);
    }
}

proof fn lemma_swept_step<S>(s: Seq<PendingAskSession<S>>, i: int, now: i128)
    requires
        0 <= i < s.len(),
    ensures
        swept(s.take(i + 1), now) == (if stale(s[i], now) {
            swept(s.take(i), now)
        } else {
            swept(s.take(i), now).push(s[i])
        }),
        stale_part(s.take(i + 1), now) == (if stale(s[i], now) {
            stale_part(s.take(i), now).push(s[i])
        } else {
            stale_part(s.take(i), now)
        }),
{
    assert(s.take(i + 1).drop_last() =~= s.take(i));
}

proof fn lemma_swept_members<S>(s: Seq<PendingAskSession<S>>, now: i128)
    ensures
        forall|k: int| 0 <= k < swept(s, now).len() ==> exists|j: int| 0 <= j < s.len()
            && #[trigger] swept(s, now)[k] == s[j] && !stale(s[j], now),
    decreases s.len(),
{
    if s.len() > 0 {
        lemma_swept_members(s.drop_last(), now);
        let t = swept(s.drop_last(), now);
        assert forall|k: int| 0 <= k < swept(s, now).len() implies exists|j: int| 0 <= j < s.len()
            && #[trigger] swept(s, now)[k] == s[j] && !stale(s[j], now) by {
            if k < t.len() {
                let j = choose|j: int| 0 <= j < s.drop_last().len()
                    && #[trigger] t[k] == s.drop_last()[j] && !stale(s.drop_last()[j], now);
                assert(swept(s, now)[k] == s[j]);
            } else {
                assert(swept(s, now)[k] == s[s.len() - 1]);
            }
        }
    }
}

/// A sweep keeps the store's order and its ids distinct.
proof fn lemma_swept_keeps_wf<S>(s: Seq<PendingAskSession<S>>, now: i128)
    requires
        unique_ids(s),
        sorted_by_time(s),
    ensures
        unique_ids(swept(s, now)),
        sorted_by_time(swept(s, now)),
    decreases s.len(),
{
    if s.len() > 0 {
        let d = s.drop_last();
        assert forall|a: int, b: int| 0 <= a < d.len() && 0 <= b < d.len() && a != b implies #[trigger] d[a].ask_id@
            != #[trigger] d[b].ask_id@ by {
            assert(d[a] == s[a] && d[b] == s[b]);
        }
        assert forall|a: int, b: int| 0 <= a < b < d.len() implies text_le(
            #[trigger] d[a].requested_at_iso@,
            #[trigger] d[b].requested_at_iso@,
        ) by {
            assert(d[a] == s[a] && d[b] == s[b]);
        }
        lemma_swept_keeps_wf(d, now);
        lemma_swept_members(d, now);
        let t = swept(d, now);
        if !stale(s.last(), now) {
            let u = swept(s, now);
            let n = s.len() - 1;
            assert(u == t.push(s[n]));
            assert forall|a: int| 0 <= a < t.len() implies (#[trigger] u[a]).ask_id@ != s[n].ask_id@
                && text_le(u[a].requested_at_iso@, s[n].requested_at_iso@) by {
                let j = choose|j: int| 0 <= j < d.len() && #[trigger] t[a] == d[j] && !stale(d[j], now);
                assert(u[a] == t[a]);
                assert(d[j] == s[j]);
                assert(text_le(s[j].requested_at_iso@, s[n].requested_at_iso@));
            }
            assert forall|a: int, b: int| 0 <= a < u.len() && 0 <= b < u.len() && a != b implies #[trigger] u[a].ask_id@
                != #[trigger] u[b].ask_id@ by {
                if a < t.len() && b < t.len() {
                    assert(u[a] == t[a] && u[b] == t[b]);
                } else if a < t.len() {
                    assert(u[b] == s[n]);
                } else {
                    assert(u[a] == s[n]);
                }
            }
            assert forall|a: int, b: int| 0 <= a < b < u.len() implies text_le(
                #[trigger] u[a].requested_at_iso@,
                #[trigger] u[b].requested_at_iso@,
            ) by {
                if b < t.len() {
                    assert(u[a] == t[a] && u[b] == t[b]);
                    assert(text_le(t[a].requested_at_iso@, t[b].requested_at_iso@));
                } else {
                    assert(u[b] == s[n]);
                    assert(text_le(u[a].requested_at_iso@, s[n].requested_at_iso@));
                }
            }
        }
    }
}

proof fn lemma_insert_pos<S>(s: Seq<PendingAskSession<S>>, key: Seq<char>)
    ensures
        insert_pos(s, key) <= s.len(),
        forall|j: int| insert_pos(s, key) <= j < s.len() ==> !text_le(#[trigger] s[j].requested_at_iso@, key),
        insert_pos(s, key) > 0 ==> text_le(s[insert_pos(s, key) - 1].requested_at_iso@, key),
    decreases s.len(),
{
    if s.len() > 0 && !text_le(s.last().requested_at_iso@, key) {
        let d = s.drop_last();
        lemma_insert_pos(d, key);
        assert forall|j: int| insert_pos(s, key) <= j < s.len() implies !text_le(
            #[trigger] s[j].requested_at_iso@,
            key,
        ) by {
            if j < d.len() {
                assert(s[j] == d[j]);
            }
        }
        if insert_pos(s, key) > 0 {
            assert(s[insert_pos(s, key) - 1] == d[insert_pos(s, key) - 1]);
        }
    }
}

/// Registering a session keeps the store ordered.
proof fn lemma_inserted_sorted<S>(s: Seq<PendingAskSession<S>>, x: PendingAskSession<S>)
    requires
        sorted_by_time(s),
    ensures
        sorted_by_time(inserted(s, x)),
{
    let key = x.requested_at_iso@;
    let p = insert_pos(s, key) as int;
    lemma_insert_pos(s, key);
    let t = inserted(s, x);
    assert forall|a: int, b: int| 0 <= a < b < t.len() implies text_le(
        #[trigger] t[a].requested_at_iso@,
        #[trigger] t[b].requested_at_iso@,
    ) by {
        if b < p {
            assert(t[a] == s[a] && t[b] == s[b]);
        } else if b == p {
            assert(t[a] == s[a]);
            if a < p - 1 {
                lemma_text_le_trans(s[a].requested_at_iso@, s[p - 1].requested_at_iso@, key);
            }
        } else if a == p {
            assert(t[b] == s[b - 1]);
            lemma_text_le_total(s[b - 1].requested_at_iso@, key);
        } else if a < p {
            assert(t[a] == s[a] && t[b] == s[b - 1]);
        } else {
            assert(t[a] == s[a - 1] && t[b] == s[b - 1]);
        }
    }
}

impl<S> AskRuntimeState<S> {
    /// The store's invariant: distinct ids, ordered by timestamp text.
    pub closed spec fn wf(&self) -> bool {
        unique_ids(self.sessions@) && sorted_by_time(self.sessions@)
    }

    /// An empty store.
    pub fn new() -> (r: Self)
        ensures
            r.wf(),
            r@.len() == 0,
    {
        AskRuntimeState { sessions: Vec::new() }
    }

    /// The number of pending sessions.
    pub fn len(&self) -> (r: usize)
        ensures
            r == self@.len(),
    {
        self.sessions.len()
    }

    fn find(&self, ask_id: &str) -> (r: Option<usize>)
        requires
            self.wf(),
        ensures
            match r {
                Some(i) => i < self@.len() && self@[i as int].ask_id@ == ask_id@,
                None => !contains_id(self@, ask_id@),
            },
    {
        let key = String::from_str(ask_id);
        let mut i: usize = 0;
        while i < self.sessions.len()
            invariant
                key@ == ask_id@,
                i <= self.sessions@.len(),
                forall|k: int| 0 <= k < i ==> #[trigger] self.sessions@[k].ask_id@ != ask_id@,
            decreases self.sessions@.len() - i,
        {
            if self.sessions[i].ask_id == key {
                return Some(i);
            }
            i += 1;
        }
        None
    }

    /// Registers the session that `request` describes, or refuses it when a
    /// live session has its id; returns the notice for the presentation layer.
    pub fn insert_pending_session(
        &mut self,
        request: AskSocketRequest,
        response_sender: S,
        now: i128,
    ) -> (r: Result<AskSessionCreatedEventPayload, StoreError>)
        requires
            old(self).wf(),
        ensures
            final(self).wf(),
            contains_id(old(self)@, request.ask_id@) ==> {
                &&& r matches Err(StoreError::DuplicateSession { ask_id }) && ask_id@ == request.ask_id@
                &&& final(self)@ == old(self)@
            },
            !contains_id(old(self)@, request.ask_id@) ==> {
                &&& r matches Ok(notice) && {
                    &&& notice.ask_id@ == request.ask_id@
                    &&& notice.requested_at_iso@ == request.requested_at_iso@
                    &&& opt_text(notice.first_question_text) == first_question_text(request.request@)
                }
                &&& final(self)@ == inserted(old(self)@, session_of(request, response_sender, now))
            },
    {
        if let Some(_) = self.find(request.ask_id.as_str()) {
            return Err(StoreError::DuplicateSession { ask_id: request.ask_id });
        }
        let requested_at = parse_requested_at_iso(request.requested_at_iso.as_str(), now);
        let first_question_text = if request.request.questions.len() > 0 {
            Some(request.request.questions[0].question.clone())
        } else {
            None
        };
        let notice = AskSessionCreatedEventPayload {
            ask_id: request.ask_id.clone(),
            requested_at_iso: request.requested_at_iso.clone(),
            first_question_text,
        };
        let ghost expected = session_of(request, response_sender, now);
        let session = PendingAskSession {
            ask_id: request.ask_id,
            request: request.request,
            requested_at,
            requested_at_iso: request.requested_at_iso,
            timeout_ms: request.timeout_ms,
            response_sender,
        };
        assert(session == expected);
        let ghost old_s = self.sessions@;
        let mut pos = self.sessions.len();
        assert(old_s.take(pos as int) =~= old_s);
        while pos > 0 && !text_precedes_or_equals(
            self.sessions[pos - 1].requested_at_iso.as_str(),
            session.requested_at_iso.as_str(),
        )
            invariant
                pos <= self.sessions@.len(),
                self.sessions@ == old_s,
                insert_pos(old_s, session.requested_at_iso@) == insert_pos(
                    old_s.take(pos as int),
                    session.requested_at_iso@,
                ),
            decreases pos,
        {
            assert(old_s.take(pos as int).drop_last() =~= old_s.take(pos - 1));
            pos -= 1;
        }
        proof {
            if pos > 0 {
                assert(old_s.take(pos as int).last() == old_s[pos - 1]);
            }
            assert(old_s.take(old_s.len() as int) =~= old_s);
            lemma_inserted_sorted(old_s, session);
        }
        self.sessions.insert(pos, session);
        proof {
            let t = self.sessions@;
            assert(t == inserted(old_s, session));
            assert forall|a: int, b: int| 0 <= a < t.len() && 0 <= b < t.len() && a != b implies #[trigger] t[a].ask_id@
                != #[trigger] t[b].ask_id@ by {
                let p = pos as int;
                if a != p && b != p {
                    let x = if a < p { a } else { a - 1 };
                    let y = if b < p { b } else { b - 1 };
                    assert(t[a] == old_s[x] && t[b] == old_s[y]);
                } else if a == p {
                    let y = if b < p { b } else { b - 1 };
                    assert(t[b] == old_s[y]);
                } else {
                    let x = if a < p { a } else { a - 1 };
                    assert(t[a] == old_s[x]);
                }
            }
        }
        Ok(notice)
    }

    /// Takes the session with the id out of the store, if it is there.
    pub fn remove_pending_session(&mut self, ask_id: &str) -> (r: Option<PendingAskSession<S>>)
        requires
            old(self).wf(),
        ensures
            final(self).wf(),
            contains_id(old(self)@, ask_id@) ==> {
                let i = index_of(old(self)@, ask_id@);
                &&& r == Some(old(self)@[i])
                &&& final(self)@ == old(self)@.remove(i)
            },
            !contains_id(old(self)@, ask_id@) ==> r.is_none() && final(self)@ == old(self)@,
    {
        match self.find(ask_id) {
            Some(i) => {
                proof {
                    lemma_index_of_unique(self.sessions@, ask_id@, i as int);
                    lemma_remove_keeps_wf(self.sessions@, i as int);
                }
                Some(self.sessions.remove(i))
            },
            None => None,
        }
    }

    /// Removes every session whose retention window has passed at `now`,
    /// and returns an expiry resolution for each, addressed to its sink.
    pub fn sweep_expired_sessions(&mut self, now: i128) -> (r: Vec<Delivery<S>>)
        requires
            old(self).wf(),
        ensures
            final(self).wf(),
            final(self)@ == swept(old(self)@, now),
            expiry_deliveries(r@, stale_part(old(self)@, now)),
    {
        let ghost orig = self.sessions@;
        let mut kept: Vec<PendingAskSession<S>> = Vec::new();
        let mut out: Vec<Delivery<S>> = Vec::new();
        let ghost mut i: int = 0;
        assert(orig.subrange(0, orig.len() as int) =~= orig);
        assert(orig.take(0) =~= Seq::<PendingAskSession<S>>::empty());
        while self.sessions.len() > 0
            invariant
                0 <= i <= orig.len(),
                self.sessions@ == orig.subrange(i, orig.len() as int),
                kept@ == swept(orig.take(i), now),
                expiry_deliveries(out@, stale_part(orig.take(i), now)),
            decreases self.sessions@.len(),
        {
            proof {
                lemma_swept_step(orig, i, now);
            }
            let x = self.sessions.remove(0);
            assert(x == orig[i]);
            if is_past_retention(x.requested_at, x.timeout_ms, now) {
                let response = build_expired_response(x.ask_id.as_str());
                let ghost before = out@;
                out.push(Delivery { sender: x.response_sender, response });
                proof {
                    let removed = stale_part(orig.take(i + 1), now);
                    assert forall|k: int| 0 <= k < out@.len() implies (#[trigger] out@[k]).sender
                        == removed[k].response_sender && expired_response(
                        out@[k].response,
                        removed[k].ask_id@,
                    ) by {
                        if k < before.len() {
                            assert(out@[k] == before[k]);
                        }
                    }
                }
            } else {
                kept.push(x);
            }
            proof {
                i = i + 1;
                assert(self.sessions@ =~= orig.subrange(i, orig.len() as int));
            }
        }
        proof {
            assert(orig.take(i) =~= orig);
            lemma_swept_keeps_wf(orig, now);
        }
        self.sessions = kept;
        out
    }

    /// Sweeps at `now`, then snapshots the pending sessions in order of
    /// their request timestamp text.
    pub fn list_pending_sessions(&mut self, now: i128) -> (r: Listing<S>)
        requires
            old(self).wf(),
        ensures
            final(self).wf(),
            final(self)@ == swept(old(self)@, now),
            expiry_deliveries(r.expired@, stale_part(old(self)@, now)),
            r.sessions@.len() == final(self)@.len(),
            forall|i: int|
                0 <= i < r.sessions@.len() ==> shows(#[trigger] r.sessions@[i], final(self)@[i], now),
            forall|i: int, j: int|
                0 <= i < j < r.sessions@.len() ==> text_le(
                    #[trigger] r.sessions@[i].requested_at_iso@,
                    #[trigger] r.sessions@[j].requested_at_iso@,
                ),
    {
        let expired = self.sweep_expired_sessions(now);
        let mut sessions: Vec<PendingAskSessionView> = Vec::new();
        let mut i: usize = 0;
        while i < self.sessions.len()
            invariant
                self.wf(),
                i <= self.sessions@.len(),
                sessions@.len() == i,
                forall|k: int| 0 <= k < i ==> shows(#[trigger] sessions@[k], self.sessions@[k], now),
            decreases self.sessions@.len() - i,
        {
            let x = &self.sessions[i];
            let view = PendingAskSessionView {
                ask_id: x.ask_id.clone(),
                request: x.request.duplicate(),
                requested_at_iso: x.requested_at_iso.clone(),
                timeout_ms: x.timeout_ms,
                expires_at_iso: session_expiry_iso(x.requested_at, x.timeout_ms),
                is_expired: is_session_expired(x.requested_at, x.timeout_ms, now),
            };
            sessions.push(view);
            i += 1;
        }
        proof {
            assert forall|a: int, b: int| 0 <= a < b < sessions@.len() implies text_le(
                #[trigger] sessions@[a].requested_at_iso@,
                #[trigger] sessions@[b].requested_at_iso@,
            ) by {
                assert(shows(sessions@[a], self.sessions@[a], now));
                assert(shows(sessions@[b], self.sessions@[b], now));
            }
        }
        Listing { sessions, expired }
    }

    /// Applies an operator's submission at `now`. An expired session is
    /// resolved as expired and the submission refused; a cancellation
    /// resolves it at once; answers resolve it only when they and the note
    /// pass validation, and otherwise leave it pending.
    pub fn submit_response(&mut self, payload: SubmitAskResponsePayload, now: i128) -> (r:
        SubmitOutcome<S>)
        requires
            old(self).wf(),
        ensures
            final(self).wf(),
            submit_effect(old(self)@, payload, now, final(self)@, r),
    {
        let ghost old_s = self.sessions@;
        let ghost p = payload;
        let idx = match self.find(payload.ask_id.as_str()) {
            Some(i) => i,
            None => {
                return SubmitOutcome {
                    result: Err(SubmitError::NotFound { ask_id: payload.ask_id }),
                    delivery: None,
                };
            },
        };
        proof {
            lemma_index_of_unique(old_s, payload.ask_id@, idx as int);
            lemma_remove_keeps_wf(old_s, idx as int);
        }
        if is_session_expired(self.sessions[idx].requested_at, self.sessions[idx].timeout_ms, now) {
            let removed = self.sessions.remove(idx);
            let response = build_expired_response(removed.ask_id.as_str());
            return SubmitOutcome {
                result: Err(SubmitError::Expired),
                delivery: Some(Delivery { sender: removed.response_sender, response }),
            };
        }
        let note = normalize_optional_text(payload.note);
        let (answers, status) = match payload.status {
            SubmitAskResponseStatus::Answered => {
                let answers = match validate_and_normalize_answers(
                    &self.sessions[idx].request,
                    payload.answers,
                ) {
                    Ok(a) => a,
                    Err(e) => {
                        return SubmitOutcome { result: Err(SubmitError::Invalid(e)), delivery: None };
                    },
                };
                let note_ref = match &note {
                    Some(n) => Some(n),
                    None => None,
                };
                match validate_required_note(&self.sessions[idx].request, note_ref) {
                    Ok(()) => {},
                    Err(e) => {
                        return SubmitOutcome { result: Err(SubmitError::Invalid(e)), delivery: None };
                    },
                }
                (answers, AskResponseStatus::Answered)
            },
            SubmitAskResponseStatus::Cancelled => (Vec::new(), AskResponseStatus::Cancelled),
        };
        let removed = self.sessions.remove(idx);
        let response = AskResponseBatch {
            ask_id: removed.ask_id,
            answers,
            note,
            status,
            answered_at_iso: Some(format_iso_utc(now)),
            source: String::from_str(ASK_RESPONSE_SOURCE),
        };
        proof {
            if status == AskResponseStatus::Cancelled {
                assert(answers_view(response.answers@) =~= Seq::<AnswerView>::empty());
            }
        }
        SubmitOutcome {
            result: Ok(()),
            delivery: Some(Delivery { sender: removed.response_sender, response }),
        }
    }
}

proof fn lemma_count_zero<S>(s: Seq<PendingAskSession<S>>, id: Seq<char>)
    ensures
        count_id(s, id) == 0 <==> !contains_id(s, id),
    decreases s.len(),
{
    if s.len() > 0 {
        let d = s.drop_last();
        lemma_count_zero(d, id);
        if contains_id(d, id) {
            let i = choose|i: int| 0 <= i < d.len() && #[trigger] d[i].ask_id@ == id;
            assert(s[i].ask_id@ == id);
        }
        if contains_id(s, id) && s.last().ask_id@ != id {
            let i = choose|i: int| 0 <= i < s.len() && #[trigger] s[i].ask_id@ == id;
            assert(d[i].ask_id@ == id);
        }
    }
}

proof fn lemma_count_insert<S>(s: Seq<PendingAskSession<S>>, p: int, x: PendingAskSession<S>, id: Seq<char>)
    requires
        0 <= p <= s.len(),
    ensures
        count_id(s.insert(p, x), id) == count_id(s, id) + if x.ask_id@ == id {
            1nat
        } else {
            0nat
        },
    decreases s.len(),
{
    if p == s.len() {
        assert(s.insert(p, x).drop_last() =~= s);
    } else {
        lemma_count_insert(s.drop_last(), p, x, id);
        assert(s.insert(p, x).drop_last() =~= s.drop_last().insert(p, x));
    }
}

proof fn lemma_count_split<S>(s: Seq<PendingAskSession<S>>, now: i128, id: Seq<char>)
    ensures
        count_id(swept(s, now), id) + count_id(stale_part(s, now), id) == count_id(s, id),
    decreases s.len(),
{
    if s.len() > 0 {
        lemma_count_split(s.drop_last(), now, id);
        if stale(s.last(), now) {
            assert(stale_part(s, now).drop_last() =~= stale_part(s.drop_last(), now));
        } else {
            assert(swept(s, now).drop_last() =~= swept(s.drop_last(), now));
        }
    }
}

proof fn lemma_stale_part_count<S>(s: Seq<PendingAskSession<S>>, now: i128, id: Seq<char>)
    ensures
        (forall|k: int| 0 <= k < s.len() && #[trigger] s[k].ask_id@ == id ==> !stale(s[k], now))
            ==> count_id(stale_part(s, now), id) == 0,
        (exists|k: int| 0 <= k < s.len() && #[trigger] s[k].ask_id@ == id && stale(s[k], now))
            ==> count_id(stale_part(s, now), id) >= 1,
    decreases s.len(),
{
    if s.len() > 0 {
        let d = s.drop_last();
        lemma_stale_part_count(d, now, id);
        if stale(s.last(), now) {
            assert(stale_part(s, now).drop_last() =~= stale_part(d, now));
        }
        if forall|k: int| 0 <= k < s.len() && #[trigger] s[k].ask_id@ == id ==> !stale(s[k], now) {
            assert forall|k: int| 0 <= k < d.len() && #[trigger] d[k].ask_id@ == id implies !stale(d[k], now) by {
                assert(s[k] == d[k]);
            }
        }
        if exists|k: int| 0 <= k < s.len() && #[trigger] s[k].ask_id@ == id && stale(s[k], now) {
            let k = choose|k: int| 0 <= k < s.len() && #[trigger] s[k].ask_id@ == id && stale(s[k], now);
            if k < d.len() {
                assert(d[k] == s[k]);
            }
        }
    }
}

proof fn lemma_stale_listed<S>(s: Seq<PendingAskSession<S>>, now: i128, k: int)
    requires
        0 <= k < s.len(),
        stale(s[k], now),
    ensures
        exists|j: int| 0 <= j < stale_part(s, now).len() && #[trigger] stale_part(s, now)[j] == s[k],
    decreases s.len(),
{
    let d = s.drop_last();
    if k == s.len() - 1 {
        let j = stale_part(s, now).len() - 1;
        assert(stale_part(s, now)[j] == s[k]);
    } else {
        assert(d[k] == s[k]);
        lemma_stale_listed(d, now, k);
        let j = choose|j: int| 0 <= j < stale_part(d, now).len() && #[trigger] stale_part(d, now)[j] == d[k];
        if stale(s.last(), now) {
            assert(stale_part(s, now) == stale_part(d, now).push(s.last()));
            assert(stale_part(s, now)[j] == stale_part(d, now)[j]);
        } else {
            assert(stale_part(s, now) == stale_part(d, now));
        }
        assert(stale_part(s, now)[j] == s[k]);
    }
}

/// After a session is registered in a store that did not hold its id, a
/// listing that follows shows exactly one session with that id, unless the
/// listing comes so late that the session is already past its retention.
pub proof fn lemma_insert_then_list_shows_one<S>(
    store: AskRuntimeState<S>,
    request: AskSocketRequest,
    sender: S,
    inserted_at: i128,
    listed_at: i128,
)
    requires
        store.wf(),
        !contains_id(store@, request.ask_id@),
        !stale(session_of(request, sender, inserted_at), listed_at),
    ensures
        count_id(
            swept(inserted(store@, session_of(request, sender, inserted_at)), listed_at),
            request.ask_id@,
        ) == 1,
{
    let x = session_of(request, sender, inserted_at);
    let id = request.ask_id@;
    let s = store@;
    let p = insert_pos(s, x.requested_at_iso@) as int;
    lemma_insert_pos(s, x.requested_at_iso@);
    let t = inserted(s, x);
    lemma_count_zero(s, id);
    lemma_count_insert(s, p, x, id);
    assert forall|k: int| 0 <= k < t.len() && #[trigger] t[k].ask_id@ == id implies !stale(t[k], listed_at) by {
        if k != p {
            let j = if k < p { k } else { k - 1 };
            assert(t[k] == s[j]);
        }
    }
    lemma_stale_part_count(t, listed_at, id);
    lemma_count_split(t, listed_at, id);
}

/// Registering a second session under a live id is refused (the first
/// session is still there) and the store keeps exactly one session with that
/// id: the first.
pub proof fn lemma_duplicate_insert_refused<S>(
    store: AskRuntimeState<S>,
    first: AskSocketRequest,
    first_sender: S,
    second: AskSocketRequest,
    at: i128,
)
    requires
        store.wf(),
        !contains_id(store@, first.ask_id@),
        second.ask_id@ == first.ask_id@,
    ensures
        ({
            let t = inserted(store@, session_of(first, first_sender, at));
            &&& contains_id(t, second.ask_id@)
            &&& count_id(t, first.ask_id@) == 1
            &&& t[index_of(t, first.ask_id@)] == session_of(first, first_sender, at)
        }),
{
    let x = session_of(first, first_sender, at);
    let id = first.ask_id@;
    let s = store@;
    let p = insert_pos(s, x.requested_at_iso@) as int;
    lemma_insert_pos(s, x.requested_at_iso@);
    let t = inserted(s, x);
    lemma_count_zero(s, id);
    lemma_count_insert(s, p, x, id);
    assert(t[p] == x);
    assert(contains_id(t, id));
    let c = index_of(t, id);
    if c != p {
        let j = if c < p { c } else { c - 1 };
        assert(t[c] == s[j]);
    }
}

/// A submission of answers that fail validation is refused, and the session
/// stays in the store, to be listed again while its retention lasts.
pub proof fn lemma_rejected_answers_keep_session<S>(
    store: AskRuntimeState<S>,
    payload: SubmitAskResponsePayload,
    now: i128,
    after: Seq<PendingAskSession<S>>,
    out: SubmitOutcome<S>,
    listed_at: i128,
)
    requires
        store.wf(),
        submit_effect(store@, payload, now, after, out),
        contains_id(store@, payload.ask_id@),
        payload.status == SubmitAskResponseStatus::Answered,
        ({
            let x = store@[index_of(store@, payload.ask_id@)];
            &&& !expired_at(x.requested_at, x.timeout_ms, now)
            &&& validated_answers(x.request@.questions, answers_view(payload.answers@)).is_err()
        }),
    ensures
        out.result matches Err(SubmitError::Invalid(_)),
        out.delivery.is_none(),
        after == store@,
        !stale(store@[index_of(store@, payload.ask_id@)], listed_at) ==> count_id(
            swept(after, listed_at),
            payload.ask_id@,
        ) == 1,
{
    let s = store@;
    let id = payload.ask_id@;
    let i = index_of(s, id);
    assert(s[i].ask_id@ == id);
    if !stale(s[i], listed_at) {
        assert forall|k: int| 0 <= k < s.len() && #[trigger] s[k].ask_id@ == id implies !stale(s[k], listed_at) by {
            if k != i {
                assert(s[k].ask_id@ != s[i].ask_id@);
            }
        }
        assert(count_id(s, id) == 1) by {
            let d = s.remove(i);
            assert(!contains_id(d, id)) by {
                if contains_id(d, id) {
                    let k = choose|k: int| 0 <= k < d.len() && #[trigger] d[k].ask_id@ == id;
                    let j = if k < i { k } else { k + 1 };
                    assert(d[k] == s[j]);
                }
            }
            lemma_count_zero(d, id);
            lemma_count_insert(d, i, s[i], id);
            assert(d.insert(i, s[i]) =~= s);
        }
        lemma_stale_part_count(s, listed_at, id);
        lemma_count_split(s, listed_at, id);
    }
}

/// A session past its retention window is gone after the sweep, which sends
/// an expiry resolution to that session's own sink; a submission for it
/// afterwards finds nothing.
pub proof fn lemma_swept_session_not_found<S>(
    store: AskRuntimeState<S>,
    ask_id: Seq<char>,
    now: i128,
    deliveries: Seq<Delivery<S>>,
)
    requires
        store.wf(),
        contains_id(store@, ask_id),
        stale(store@[index_of(store@, ask_id)], now),
        expiry_deliveries(deliveries, stale_part(store@, now)),
    ensures
        !contains_id(swept(store@, now), ask_id),
        exists|j: int|
            0 <= j < deliveries.len() && (#[trigger] deliveries[j]).sender
                == store@[index_of(store@, ask_id)].response_sender && expired_response(
                deliveries[j].response,
                ask_id,
            ),
{
    let s = store@;
    let i = index_of(s, ask_id);
    assert(s[i].ask_id@ == ask_id);
    assert(count_id(s, ask_id) == 1) by {
        let d = s.remove(i);
        assert(!contains_id(d, ask_id)) by {
            if contains_id(d, ask_id) {
                let k = choose|k: int| 0 <= k < d.len() && #[trigger] d[k].ask_id@ == ask_id;
                let j = if k < i { k } else { k + 1 };
                assert(d[k] == s[j]);
            }
        }
        lemma_count_zero(d, ask_id);
        lemma_count_insert(d, i, s[i], ask_id);
        assert(d.insert(i, s[i]) =~= s);
    }
    lemma_stale_part_count(s, now, ask_id);
    lemma_count_split(s, now, ask_id);
    lemma_count_zero(swept(s, now), ask_id);
    lemma_stale_listed(s, now, i);
    let j = choose|j: int| 0 <= j < stale_part(s, now).len() && #[trigger] stale_part(s, now)[j] == s[i];
    assert(deliveries[j].sender == s[i].response_sender);
}

/// A submission for a session that has expired is refused, the session
/// leaves the store, and its own sink receives an expiry resolution; a
/// second submission for it finds nothing.
pub proof fn lemma_expired_submission_resolves_expired<S>(
    store: AskRuntimeState<S>,
    payload: SubmitAskResponsePayload,
    now: i128,
    after: Seq<PendingAskSession<S>>,
    out: SubmitOutcome<S>,
)
    requires
        store.wf(),
        submit_effect(store@, payload, now, after, out),
        contains_id(store@, payload.ask_id@),
        ({
            let x = store@[index_of(store@, payload.ask_id@)];
            expired_at(x.requested_at, x.timeout_ms, now)
        }),
    ensures
        out.result matches Err(SubmitError::Expired),
        out.delivery matches Some(d) && d.sender == store@[index_of(
            store@,
            payload.ask_id@,
        )].response_sender && d.response.status == AskResponseStatus::Expired,
        !contains_id(after, payload.ask_id@),
{
    let s = store@;
    let id = payload.ask_id@;
    let i = index_of(s, id);
    assert(s[i].ask_id@ == id);
    if contains_id(after, id) {
        let k = choose|k: int| 0 <= k < after.len() && #[trigger] after[k].ask_id@ == id;
        let j = if k < i { k } else { k + 1 };
        assert(after[k] == s[j]);
    }
}

/// An accepted submission of answers resolves the session as answered, and
/// the resolution's labels come from the options the answers select.
pub proof fn lemma_answered_submission_labels<S>(
    store: AskRuntimeState<S>,
    payload: SubmitAskResponsePayload,
    now: i128,
    after: Seq<PendingAskSession<S>>,
    out: SubmitOutcome<S>,
)
    requires
        store.wf(),
        submit_effect(store@, payload, now, after, out),
        out.result is Ok,
        payload.status == SubmitAskResponseStatus::Answered,
    ensures
        out.delivery matches Some(d) && {
            let x = store@[index_of(store@, payload.ask_id@)];
            let qs = x.request@.questions;
            let got = answers_view(d.response.answers@);
            &&& d.sender == x.response_sender
            &&& d.response.status == AskResponseStatus::Answered
            &&& got.len() == qs.len()
            &&& forall|k: int|
                0 <= k < got.len() ==> {
                    &&& (#[trigger] got[k]).id == qs[k].id
                    &&& !got[k].used_other ==> got[k].selected_index is Some
                        && got[k].selected_index->Some_0 < qs[k].options.len()
                        && got[k].selected_label
                        == qs[k].options[got[k].selected_index->Some_0 as int].label
                }
        },
{
    let x = store@[index_of(store@, payload.ask_id@)];
    lemma_labels_from_options(x.request@.questions, answers_view(payload.answers@));
}

/// Whenever a submission produces a resolution, the session has left the
/// store, so no later submission or sweep can resolve it again; the
/// resolution goes to that session's own sink.
pub proof fn lemma_resolution_removes_session<S>(
    store: AskRuntimeState<S>,
    payload: SubmitAskResponsePayload,
    now: i128,
    after: Seq<PendingAskSession<S>>,
    out: SubmitOutcome<S>,
)
    requires
        store.wf(),
        submit_effect(store@, payload, now, after, out),
        out.delivery is Some,
    ensures
        contains_id(store@, payload.ask_id@),
        !contains_id(after, payload.ask_id@),
        out.delivery->Some_0.sender == store@[index_of(store@, payload.ask_id@)].response_sender,
{
    let s = store@;
    let id = payload.ask_id@;
    let i = index_of(s, id);
    assert(s[i].ask_id@ == id);
    assert(after == s.remove(i));
    if contains_id(after, id) {
        let k = choose|k: int| 0 <= k < after.len() && #[trigger] after[k].ask_id@ == id;
        let j = if k < i { k } else { k + 1 };
        assert(after[k] == s[j]);
    }
}

} // verus!
