use vstd::prelude::*;
use crate::frame::DirtyRect;
use crate::framebuffer::FrameBuffer;
use crate::input::{FastPathInput, InputEvent, spec_fastpath};
use crate::session::{RdpError, RdpClient, ReadErrorKind, StageOutput, StepResult, outputs_handled, read_failure_handled};
use crate::stage::{decoded_pixels, input_encoded, pdu_processed};
use ironrdp_session::ActiveStage;
use ironrdp_session::image::DecodedImage;

verus! {

/// A registered session: its id, its state, and the transport that carries it.
pub struct SessionEntry<T> {
    pub id: String,
    pub session: RdpClient,
    pub transport: T,
}

/// The registry of open sessions, keyed by session id.
pub struct RdpManager<T> {
    sessions: Vec<SessionEntry<T>>,
}

/// Whether an entry of `s` has id `id`.
pub open spec fn has_in<T>(s: Seq<SessionEntry<T>>, id: Seq<char>) -> bool {
    exists|i: int| 0 <= i < s.len() && (#[trigger] s[i]).id@ == id
}

/// The entry of `s` with id `id`.
pub open spec fn entry_in<T>(s: Seq<SessionEntry<T>>, id: Seq<char>) -> SessionEntry<T> {
    s[choose|i: int| 0 <= i < s.len() && (#[trigger] s[i]).id@ == id]
}

/// No two entries of `s` share an id.
pub open spec fn unique_ids<T>(s: Seq<SessionEntry<T>>) -> bool {
    forall|i: int, j: int|
        0 <= i < s.len() && 0 <= j < s.len() && (#[trigger] s[i]).id@ == (#[trigger] s[j]).id@ ==> i == j
}

/// `after` holds the same ids as `before`, except perhaps `key`, with the same entries.
pub open spec fn others_kept<T>(before: Seq<SessionEntry<T>>, after: Seq<SessionEntry<T>>, key: Seq<char>) -> bool {
    forall|other: Seq<char>|
        other != key ==> (#[trigger] has_in(after, other) == has_in(before, other)) && (has_in(before, other)
            ==> entry_in(after, other) == entry_in(before, other))
}

proof fn lemma_entry_at<T>(s: Seq<SessionEntry<T>>, id: Seq<char>, i: int)
    requires
        unique_ids(s),
        0 <= i < s.len(),
        s[i].id@ == id,
    ensures
        has_in(s, id),
        entry_in(s, id) == s[i],
{
    let j = choose|j: int| 0 <= j < s.len() && (#[trigger] s[j]).id@ == id;
    assert(s[j].id@ == s[i].id@);
}

/// Replacing the entry at `i` by one with the same id keeps every other entry.
proof fn lemma_replaced<T>(before: Seq<SessionEntry<T>>, i: int, e: SessionEntry<T>)
    requires
        unique_ids(before),
        0 <= i < before.len(),
        e.id@ == before[i].id@,
    ensures
        unique_ids(before.update(i, e)),
        has_in(before.update(i, e), e.id@),
        entry_in(before.update(i, e), e.id@) == e,
        others_kept(before, before.update(i, e), e.id@),
{
    let after = before.update(i, e);
    assert forall|a: int, b: int| 0 <= a < after.len() && 0 <= b < after.len() && (#[trigger] after[a]).id@
        == (#[trigger] after[b]).id@ implies a == b by {
        assert(after[a].id@ == before[a].id@ && after[b].id@ == before[b].id@);
    }
    lemma_entry_at(after, e.id@, i);
    assert forall|other: Seq<char>| other != e.id@ implies (#[trigger] has_in(after, other) == has_in(before, other))
        && (has_in(before, other) ==> entry_in(after, other) == entry_in(before, other)) by {
        if has_in(after, other) {
            let k = choose|k: int| 0 <= k < after.len() && (#[trigger] after[k]).id@ == other;
            assert(k != i);
            assert(before[k] == after[k]);
        }
        if has_in(before, other) {
            let k = choose|k: int| 0 <= k < before.len() && (#[trigger] before[k]).id@ == other;
            assert(k != i);
            assert(before[k] == after[k]);
            lemma_entry_at(after, other, k);
            lemma_entry_at(before, other, k);
        }
    }
}

/// Appending an entry under a new id keeps every other entry.
proof fn lemma_pushed<T>(before: Seq<SessionEntry<T>>, e: SessionEntry<T>)
    requires
        unique_ids(before),
        !has_in(before, e.id@),
    ensures
        unique_ids(before.push(e)),
        has_in(before.push(e), e.id@),
        entry_in(before.push(e), e.id@) == e,
        others_kept(before, before.push(e), e.id@),
{
    let after = before.push(e);
    let n = before.len() as int;
    assert forall|a: int, b: int| 0 <= a < after.len() && 0 <= b < after.len() && (#[trigger] after[a]).id@
        == (#[trigger] after[b]).id@ implies a == b by {
        if a < n && b < n {
            assert(after[a] == before[a] && after[b] == before[b]);
        } else if a < n {
            assert(after[a] == before[a]);
        } else if b < n {
            assert(after[b] == before[b]);
        }
    }
    lemma_entry_at(after, e.id@, n);
    assert forall|other: Seq<char>| other != e.id@ implies (#[trigger] has_in(after, other) == has_in(before, other))
        && (has_in(before, other) ==> entry_in(after, other) == entry_in(before, other)) by {
        if has_in(after, other) {
            let k = choose|k: int| 0 <= k < after.len() && (#[trigger] after[k]).id@ == other;
            assert(k != n);
            assert(before[k] == after[k]);
        }
        if has_in(before, other) {
            let k = choose|k: int| 0 <= k < before.len() && (#[trigger] before[k]).id@ == other;
            assert(before[k] == after[k]);
            lemma_entry_at(after, other, k);
            lemma_entry_at(before, other, k);
        }
    }
}

/// Removing the entry at `i` removes its id and keeps every other entry.
proof fn lemma_removed<T>(before: Seq<SessionEntry<T>>, i: int)
    requires
        unique_ids(before),
        0 <= i < before.len(),
    ensures
        unique_ids(before.remove(i)),
        !has_in(before.remove(i), before[i].id@),
        others_kept(before, before.remove(i), before[i].id@),
{
    let after = before.remove(i);
    let key = before[i].id@;
    assert forall|a: int, b: int| 0 <= a < after.len() && 0 <= b < after.len() && (#[trigger] after[a]).id@
        == (#[trigger] after[b]).id@ implies a == b by {
        let a0 = if a < i { a } else { a + 1 };
        let b0 = if b < i { b } else { b + 1 };
        assert(after[a] == before[a0] && after[b] == before[b0]);
    }
    if has_in(after, key) {
        let k = choose|k: int| 0 <= k < after.len() && (#[trigger] after[k]).id@ == key;
        let k0 = if k < i { k } else { k + 1 };
        assert(before[k0] == after[k]);
    }
    assert forall|other: Seq<char>| other != key implies (#[trigger] has_in(after, other) == has_in(before, other))
        && (has_in(before, other) ==> entry_in(after, other) == entry_in(before, other)) by {
        if has_in(after, other) {
            let k = choose|k: int| 0 <= k < after.len() && (#[trigger] after[k]).id@ == other;
            let k0 = if k < i { k } else { k + 1 };
            assert(before[k0] == after[k]);
        }
        if has_in(before, other) {
            let k0 = choose|k: int| 0 <= k < before.len() && (#[trigger] before[k]).id@ == other;
            assert(k0 != i);
            let k = if k0 < i { k0 } else { k0 - 1 };
            assert(after[k] == before[k0]);
            lemma_entry_at(after, other, k);
            lemma_entry_at(before, other, k0);
        }
    }
}

impl<T> RdpManager<T> {
    /// The registered entries.
    pub closed spec fn entries(&self) -> Seq<SessionEntry<T>> {
        self.sessions@
    }

    /// Whether a session is registered under `id`.
    pub open spec fn has(&self, id: Seq<char>) -> bool {
        has_in(self.entries(), id)
    }

    /// The entry registered under `id`.
    pub open spec fn entry(&self, id: Seq<char>) -> SessionEntry<T> {
        entry_in(self.entries(), id)
    }

    /// No two entries share an id.
    pub open spec fn wf(&self) -> bool {
        unique_ids(self.entries())
    }

    /// Whether the pacing loop of `id` may still act and emit: the session is registered
    /// and connected.
    pub open spec fn live(&self, id: Seq<char>) -> bool {
        self.has(id) && self.entry(id).session.spec_connected()
    }

    /// An empty registry.
    pub fn new() -> (r: Self)
        ensures
            r.wf(),
            r.entries().len() == 0,
    {
        RdpManager { sessions: Vec::new() }
    }

    /// The position of the entry registered under `id`.
    fn find(&self, id: &String) -> (r: Option<usize>)
        requires
            self.wf(),
        ensures
            match r {
                Some(i) => i < self.entries().len() && self.entries()[i as int].id@ == id@ && self.has(id@)
                    && self.entry(id@) == self.entries()[i as int],
                None => !self.has(id@),
            },
    {
        let mut i: usize = 0;
        while i < self.sessions.len()
            invariant
                self.wf(),
                i <= self.sessions@.len(),
                forall|k: int| 0 <= k < i ==> (#[trigger] self.sessions@[k]).id@ != id@,
            decreases self.sessions@.len() - i,
        {
            if self.sessions[i].id == *id {
                proof {
                    lemma_entry_at(self.entries(), id@, i as int);
                }
                return Some(i);
            }
            i = i + 1;
        }
        None
    }

    /// Registers a newly connected session under `id`, replacing any session registered
    /// under it before, and returns the session's size.
    pub fn create_session(&mut self, id: String, session: RdpClient, transport: T) -> (r: (u16, u16))
        requires
            old(self).wf(),
        ensures
            final(self).wf(),
            r == (session.spec_width(), session.spec_height()),
            final(self).has(id@),
            final(self).entry(id@).session == session,
            others_kept(old(self).entries(), final(self).entries(), id@),
    {
        let w = session.width();
        let h = session.height();
        let entry = SessionEntry { id, session, transport };
        let ghost e = entry;
        match self.find(&entry.id) {
            Some(i) => {
                self.sessions.set(i, entry);
                proof {
                    lemma_replaced(old(self).entries(), i as int, e);
                }
            },
            None => {
                self.sessions.push(entry);
                proof {
                    lemma_pushed(old(self).entries(), e);
                }
            },
        }
        (w, h)
    }

    /// The input to send for `event` on session `id`; fails when no session is
    /// registered under `id` or it is disconnected.
    pub fn send_input(&self, id: &String, event: InputEvent) -> (r: Result<FastPathInput, RdpError>)
        requires
            self.wf(),
        ensures
            !self.has(id@) ==> r == Err::<FastPathInput, RdpError>(RdpError::SessionNotFound),
            self.has(id@) ==> r == if self.entry(id@).session.spec_connected() {
                Ok(spec_fastpath(event))
            } else {
                Err::<FastPathInput, RdpError>(RdpError::NotConnected)
            },
    {
        match self.find(id) {
            Some(i) => self.sessions[i].session.send_input(event),
            None => Err(RdpError::SessionNotFound),
        }
    }

    /// The size of session `id`.
    pub fn get_dimensions(&self, id: &String) -> (r: Result<(u16, u16), RdpError>)
        requires
            self.wf(),
        ensures
            !self.has(id@) ==> r == Err::<(u16, u16), RdpError>(RdpError::SessionNotFound),
            self.has(id@) ==> r == Ok::<(u16, u16), RdpError>(
                (self.entry(id@).session.spec_width(), self.entry(id@).session.spec_height()),
            ),
    {
        match self.find(id) {
            Some(i) => Ok((self.sessions[i].session.width(), self.sessions[i].session.height())),
            None => Err(RdpError::SessionNotFound),
        }
    }

    /// The transport of session `id`.
    pub fn transport(&self, id: &String) -> (r: Option<&T>)
        requires
            self.wf(),
        ensures
            !self.has(id@) ==> r is None,
            self.has(id@) ==> r == Some(&self.entry(id@).transport),
    {
        match self.find(id) {
            Some(i) => Some(&self.sessions[i].transport),
            None => None,
        }
    }

    /// Whether the pacing loop of session `id` may go on and emit.
    pub fn is_live(&self, id: &String) -> (r: bool)
        requires
            self.wf(),
        ensures
            r == self.live(id@),
    {
        match self.find(id) {
            Some(i) => self.sessions[i].session.is_connected(),
            None => false,
        }
    }

    /// Removes session `id`, handing back its transport to be shut down. Sessions under
    /// other ids stay as they are.
    pub fn close_session(&mut self, id: &String) -> (r: Option<T>)
        requires
            old(self).wf(),
        ensures
            final(self).wf(),
            !final(self).has(id@),
            r is Some <==> old(self).has(id@),
            others_kept(old(self).entries(), final(self).entries(), id@),
    {
        match self.find(id) {
            Some(i) => {
                let removed = self.sessions.remove(i);
                proof {
                    lemma_removed(old(self).entries(), i as int);
                }
                Some(removed.transport)
            },
            None => None,
        }
    }

    /// Replaces the state of the session at `i` after `f` changed it.
    fn put_back(&mut self, i: usize, entry: SessionEntry<T>, Ghost(before): Ghost<Seq<SessionEntry<T>>>)
        requires
            unique_ids(before),
            i < before.len(),
            old(self).entries() == before.remove(i as int),
            entry.id@ == before[i as int].id@,
        ensures
            final(self).wf(),
            final(self).entries() == before.update(i as int, entry),
            has_in(final(self).entries(), entry.id@),
            entry_in(final(self).entries(), entry.id@) == entry,
            others_kept(before, final(self).entries(), entry.id@),
            forall|other: Seq<char>| #[trigger] has_in(final(self).entries(), other) == has_in(before, other),
    {
        self.sessions.insert(i, entry);
        proof {
            assert(self.sessions@ =~= before.update(i as int, entry));
            lemma_replaced(before, i as int, entry);
            assert forall|other: Seq<char>| #[trigger] has_in(self.entries(), other) == has_in(before, other) by {
                if other == entry.id@ {
                    assert(before[i as int].id@ == other);
                }
            }
        }
    }

    /// Marks session `id` disconnected, if it is registered.
    pub fn disconnect(&mut self, id: &String)
        requires
            old(self).wf(),
        ensures
            final(self).wf(),
            !final(self).live(id@),
            forall|other: Seq<char>| #[trigger] final(self).has(other) == old(self).has(other),
            others_kept(old(self).entries(), final(self).entries(), id@),
    {
        match self.find(id) {
            Some(i) => {
                let mut entry = self.sessions.remove(i);
                entry.session.disconnect();
                self.put_back(i, entry, Ghost(old(self).entries()));
            },
            None => {},
        }
    }

    /// Acts on the outputs of one protocol step of session `id` (see
    /// `RdpClient::handle_outputs`); fails when no session is registered under `id`.
    pub fn handle_outputs(&mut self, id: &String, outputs: Vec<StageOutput>, frame: &FrameBuffer) -> (r: Result<
        StepResult,
        RdpError,
    >)
        requires
            old(self).wf(),
            frame.wf(),
        ensures
            final(self).wf(),
            forall|other: Seq<char>| #[trigger] final(self).has(other) == old(self).has(other),
            others_kept(old(self).entries(), final(self).entries(), id@),
            !old(self).has(id@) ==> r == Err::<StepResult, RdpError>(RdpError::SessionNotFound),
            old(self).has(id@) ==> r is Ok && outputs_handled(
                old(self).entry(id@).session,
                final(self).entry(id@).session,
                outputs@,
                *frame,
                r->Ok_0,
            ),
    {
        match self.find(id) {
            Some(i) => {
                let mut entry = self.sessions.remove(i);
                let step = entry.session.handle_outputs(outputs, frame);
                self.put_back(i, entry, Ghost(old(self).entries()));
                Ok(step)
            },
            None => Err(RdpError::SessionNotFound),
        }
    }

    /// Acts on a failed read of session `id` (see `RdpClient::read_failed`); fails
    /// when no session is registered under `id`.
    pub fn read_failed(&mut self, id: &String, kind: ReadErrorKind, detail: String) -> (r: Result<
        Option<Vec<DirtyRect>>,
        RdpError,
    >)
        requires
            old(self).wf(),
        ensures
            final(self).wf(),
            forall|other: Seq<char>| #[trigger] final(self).has(other) == old(self).has(other),
            others_kept(old(self).entries(), final(self).entries(), id@),
            !old(self).has(id@) ==> r == Err::<Option<Vec<DirtyRect>>, RdpError>(RdpError::SessionNotFound),
            old(self).has(id@) ==> read_failure_handled(
                old(self).entry(id@).session,
                final(self).entry(id@).session,
                kind,
                detail,
                r,
            ),
    {
        match self.find(id) {
            Some(i) => {
                let mut entry = self.sessions.remove(i);
                let ghost d = detail;
                let outcome = entry.session.read_failed(kind, detail);
                self.put_back(i, entry, Ghost(old(self).entries()));
                outcome
            },
            None => Err(RdpError::SessionNotFound),
        }
    }
}

impl<T> RdpManager<T> {
    /// Whether a session is registered under `id`.
    pub fn contains(&self, id: &String) -> (r: bool)
        requires
            self.wf(),
        ensures
            r == self.has(id@),
    {
        self.find(id).is_some()
    }

    /// Acts on the state machine's answer to one PDU of session `id`, the decoded image
    /// being `image` (see `RdpClient::apply_step`); a disconnected session takes no
    /// step, and an unknown id fails.
    pub fn apply_step(
        &mut self,
        id: &String,
        outcome: Result<Vec<StageOutput>, String>,
        image: &DecodedImage,
        frame: &mut FrameBuffer,
    ) -> (r: Result<StepResult, RdpError>)
        requires
            old(self).wf(),
            old(frame).wf(),
            old(self).has(id@) ==> old(frame).width == old(self).entry(id@).session.spec_width()
                && old(frame).height == old(self).entry(id@).session.spec_height(),
        ensures
            final(self).wf(),
            final(frame).wf(),
            forall|other: Seq<char>| #[trigger] final(self).has(other) == old(self).has(other),
            others_kept(old(self).entries(), final(self).entries(), id@),
            !old(self).has(id@) ==> r == Err::<StepResult, RdpError>(RdpError::SessionNotFound) && *final(frame)
                == *old(frame),
            old(self).has(id@) ==> exists|pixels: Seq<u8>|
                pdu_processed(
                    old(self).entry(id@).session,
                    final(self).entry(id@).session,
                    outcome,
                    pixels,
                    *old(frame),
                    *final(frame),
                    r,
                ),
    {
        match self.find(id) {
            Some(i) => {
                let mut entry = self.sessions.remove(i);
                let ghost before = entry.session;
                let ghost answer = outcome;
                let ghost mut px: Seq<u8> = Seq::empty();
                let r = if entry.session.is_connected() {
                    let pixels = decoded_pixels(image);
                    proof {
                        px = pixels@;
                    }
                    entry.session.apply_step(outcome, pixels, frame)
                } else {
                    Ok(StepResult { responses: Vec::new(), update: None })
                };
                assert(pdu_processed(before, entry.session, answer, px, *old(frame), *frame, r));
                let ghost after = entry.session;
                assert(before == old(self).entry(id@).session);
                self.put_back(i, entry, Ghost(old(self).entries()));
                assert(self.entry(id@).session == after);
                r
            },
            None => Err(RdpError::SessionNotFound),
        }
    }

    /// The frames that carry `event` to session `id`, encoded by its protocol state
    /// machine; fails when no session is registered under `id` or it is disconnected.
    pub fn encode_input(&self, id: &String, stage: &mut ActiveStage, image: &mut DecodedImage, event: InputEvent) -> (r:
        Result<Vec<Vec<u8>>, RdpError>)
        requires
            self.wf(),
        ensures
            !self.has(id@) ==> r == Err::<Vec<Vec<u8>>, RdpError>(RdpError::SessionNotFound),
            self.has(id@) ==> input_encoded(self.entry(id@).session, r),
    {
        match self.find(id) {
            Some(i) => {
                let input = self.sessions[i].session.send_input(event)?;
                self.sessions[i].session.encode_input(stage, image, input)
            },
            None => Err(RdpError::SessionNotFound),
        }
    }
}

/// Once a session is closed, input for its id is refused as not found, and its pacing
/// loop may no longer act or emit.
pub proof fn lemma_closed_session_is_gone<T>(m: RdpManager<T>, id: Seq<char>)
    requires
        m.wf(),
        !m.has(id),
    ensures
        !m.live(id),
{
}

} // verus!
