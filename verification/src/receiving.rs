//! The inbound session store: the receiving sessions that were admitted, each
//! under its conversation and session identifier, with the message indices it
//! has surfaced.

use crate::bytes::same_bytes;
use crate::error::CryptoError;
use crate::inbound::{imported_view, megolm_text, text_of, InboundSession, InboundSessionView};
use crate::keyed::{
    as_map, distinct_keys, lemma_absent_key, lemma_empty_is_empty, lemma_entry_in_map,
    lemma_push_is_insert, lemma_update_is_insert,
};
use crate::wire::WireMessage;
use vstd::prelude::*;

verus! {

/// An admitted receiving session and what it has surfaced.
pub struct Admitted {
    conversation_id: String,
    session: InboundSession,
    surfaced: Vec<u32>,
}

/// An admitted receiving session, as the contracts see it.
pub struct AdmittedView {
    /// The key material that the session was made of.
    pub key: Seq<u8>,
    /// The first message index that the session can decrypt.
    pub first_known_index: u32,
    /// The indices of the messages that were handed to the caller.
    pub surfaced: Set<u32>,
}

impl AdmittedView {
    /// The session `imported`, which has surfaced nothing.
    pub open spec fn fresh(imported: InboundSessionView) -> AdmittedView {
        AdmittedView {
            key: imported.key,
            first_known_index: imported.first_known_index,
            surfaced: Set::empty(),
        }
    }

    /// The session after the message at `index` was surfaced.
    pub open spec fn surfacing(self, index: u32) -> AdmittedView {
        AdmittedView { surfaced: self.surfaced.insert(index), ..self }
    }
}

/// The characters of a text that was returned, or the error in its place.
pub open spec fn returned_text(result: Result<String, CryptoError>) -> Result<
    Seq<char>,
    CryptoError,
> {
    match result {
        Ok(text) => Ok(text@),
        Err(error) => Err(error),
    }
}

/// What `Admitted::conclude` decides: the result, and the session afterwards.
pub open spec fn conclusion(session: AdmittedView, index: u32, plaintext: Option<Seq<char>>) -> (
    Result<Seq<char>, CryptoError>,
    AdmittedView,
) {
    if session.surfaced.contains(index) {
        (Err(CryptoError::ReplayedMessage), session)
    } else {
        match plaintext {
            Some(text) => (Ok(text), session.surfacing(index)),
            None => (Err(CryptoError::DecryptionFailed), session),
        }
    }
}

impl View for Admitted {
    type V = AdmittedView;

    closed spec fn view(&self) -> AdmittedView {
        AdmittedView {
            key: self.session@.key,
            first_known_index: self.session@.first_known_index,
            surfaced: self.surfaced@.to_set(),
        }
    }
}

impl Admitted {
    /// The conversation and session identifier under which the session stands.
    pub closed spec fn key(&self) -> (Seq<char>, Seq<u8>) {
        (self.conversation_id@, self.session@.session_id)
    }

    /// Admits `session` for `conversation_id`; it has surfaced nothing.
    pub fn new(conversation_id: String, session: InboundSession) -> (admitted: Admitted)
        ensures
            admitted.key() == (conversation_id@, session@.session_id),
            admitted@ == AdmittedView::fresh(session@),
    {
        let admitted = Admitted { conversation_id, session, surfaced: Vec::new() };
        assert(admitted.surfaced@.to_set() =~= Set::<u32>::empty());
        admitted
    }

    /// Whether the message at `index` was surfaced before.
    pub fn has_surfaced(&self, index: u32) -> (seen: bool)
        ensures
            seen == self@.surfaced.contains(index),
    {
        let mut i: usize = 0;
        while i < self.surfaced.len()
            invariant
                i <= self.surfaced.len(),
                forall|j: int| 0 <= j < i ==> self.surfaced@[j] != index,
            decreases self.surfaced.len() - i,
        {
            if self.surfaced[i] == index {
                assert(self.surfaced@.contains(index));
                return true;
            }
            i = i + 1;
        }
        assert(!self.surfaced@.contains(index));
        false
    }

    /// Settles what became of the message at `index`, given what the ratchet
    /// made of it: `plaintext` holds its text, or `None` where the ratchet
    /// rejected it. A replay is refused whatever the ratchet said; a rejected
    /// message leaves no trace; an accepted one is surfaced and its index
    /// remembered.
    pub fn conclude(&mut self, index: u32, plaintext: Option<String>) -> (result: Result<
        String,
        CryptoError,
    >)
        ensures
            final(self).key() == old(self).key(),
            (returned_text(result), final(self)@) == conclusion(
                old(self)@,
                index,
                text_of(plaintext),
            ),
    {
        if self.has_surfaced(index) {
            return Err(CryptoError::ReplayedMessage);
        }
        match plaintext {
            Some(text) => {
                self.surfaced.push(index);
                proof {
                    assert(self.surfaced@.to_set() =~= old(self).surfaced@.to_set().insert(index))
                        by {
                        let before = old(self).surfaced@;
                        let after = self.surfaced@;
                        assert forall|v: u32| after.contains(v) <==> (v == index
                            || before.contains(v)) by {
                            if after.contains(v) {
                                let i = choose|i: int| 0 <= i < after.len() && after[i] == v;
                                if i < before.len() {
                                    assert(before[i] == v);
                                }
                            }
                            if v == index {
                                assert(after[before.len() as int] == v);
                            }
                            if before.contains(v) {
                                let i = choose|i: int| 0 <= i < before.len() && before[i] == v;
                                assert(after[i] == v);
                            }
                        }
                    }
                }
                Ok(text)
            },
            None => Err(CryptoError::DecryptionFailed),
        }
    }

    /// Decrypts `message`, unless it is a replay: the ratchet is not asked then.
    pub fn receive(&mut self, message: &WireMessage) -> (result: Result<String, CryptoError>)
        ensures
            final(self).key() == old(self).key(),
            (returned_text(result), final(self)@) == conclusion(
                old(self)@,
                message.index_spec(),
                megolm_text(old(self)@.key, message.bytes_spec()),
            ),
            result is Ok ==> old(self)@.first_known_index <= message.index_spec(),
    {
        let index = message.index();
        if self.has_surfaced(index) {
            return Err(CryptoError::ReplayedMessage);
        }
        let plaintext = self.session.decrypt(message);
        self.conclude(index, plaintext)
    }
}

/// The store as a map from conversation and session identifier to the session.
pub type InboundStoreView = Map<(Seq<char>, Seq<u8>), AdmittedView>;

/// The store of admitted receiving sessions.
pub struct InboundStore {
    sessions: Vec<Admitted>,
}

impl View for InboundStore {
    type V = InboundStoreView;

    closed spec fn view(&self) -> InboundStoreView {
        as_map(self.pairs())
    }
}

/// What `InboundStore::accept` decides: the result, and the store afterwards.
pub open spec fn admission(
    store: InboundStoreView,
    conversation_id: Seq<char>,
    session_id: Seq<u8>,
    imported: Option<InboundSessionView>,
) -> (Result<(), CryptoError>, InboundStoreView) {
    if conversation_id.len() == 0 {
        (Err(CryptoError::InvalidConversationId), store)
    } else if store.dom().contains((conversation_id, session_id)) {
        (Err(CryptoError::DuplicateSession), store)
    } else {
        match imported {
            Some(session) if session.session_id == session_id => (
                Ok(()),
                store.insert((conversation_id, session_id), AdmittedView::fresh(session)),
            ),
            _ => (Err(CryptoError::InvalidKeyMaterial), store),
        }
    }
}

/// What receiving a message at `index` under a session decides, given what
/// the ratchet made of the message: the result, and the store afterwards.
pub open spec fn reception(
    store: InboundStoreView,
    conversation_id: Seq<char>,
    session_id: Seq<u8>,
    index: u32,
    plaintext: Option<Seq<char>>,
) -> (Result<Seq<char>, CryptoError>, InboundStoreView) {
    let key = (conversation_id, session_id);
    if !store.dom().contains(key) {
        (Err(CryptoError::UnknownSession), store)
    } else {
        let (result, session) = conclusion(store[key], index, plaintext);
        (result, store.insert(key, session))
    }
}

impl InboundStore {
    closed spec fn pairs(&self) -> Seq<((Seq<char>, Seq<u8>), AdmittedView)> {
        Seq::new(self.sessions.len() as nat, |i: int| (self.sessions[i].key(), self.sessions[i]@))
    }

    /// No conversation and session identifier has two entries.
    pub closed spec fn well_formed(&self) -> bool {
        distinct_keys(self.pairs())
    }

    /// An empty store.
    pub fn new() -> (store: InboundStore)
        ensures
            store.well_formed(),
            store@ == InboundStoreView::empty(),
    {
        let store = InboundStore { sessions: Vec::new() };
        proof {
            lemma_empty_is_empty(store.pairs());
        }
        store
    }

    fn position(&self, conversation_id: &String, session_id: &[u8]) -> (found: Option<usize>)
        requires
            self.well_formed(),
        ensures
            match found {
                Some(i) => {
                    &&& i < self.sessions.len()
                    &&& self.sessions[i as int].key() == (conversation_id@, session_id@)
                    &&& self@.dom().contains((conversation_id@, session_id@))
                    &&& self@[(conversation_id@, session_id@)] == self.sessions[i as int]@
                },
                None => !self@.dom().contains((conversation_id@, session_id@)),
            },
    {
        let mut i: usize = 0;
        while i < self.sessions.len()
            invariant
                i <= self.sessions.len(),
                self.well_formed(),
                forall|j: int|
                    0 <= j < i ==> (#[trigger] self.pairs()[j]).0 != (
                        conversation_id@,
                        session_id@,
                    ),
            decreases self.sessions.len() - i,
        {
            let entry = &self.sessions[i];
            if entry.conversation_id == *conversation_id && same_bytes(
                entry.session.session_id().as_slice(),
                session_id,
            ) {
                proof {
                    lemma_entry_in_map(self.pairs(), i as int);
                }
                return Some(i);
            }
            i = i + 1;
        }
        proof {
            lemma_absent_key(self.pairs(), (conversation_id@, session_id@));
        }
        None
    }

    /// Whether a session is admitted under the conversation and identifier.
    pub fn contains(&self, conversation_id: &str, session_id: &[u8]) -> (found: bool)
        requires
            self.well_formed(),
        ensures
            found == self@.dom().contains((conversation_id@, session_id@)),
    {
        self.position(&conversation_id.to_owned(), session_id).is_some()
    }

    /// Whether the session under the conversation and identifier has surfaced
    /// the message at `index`; `false` where there is no such session.
    pub fn has_surfaced(&self, conversation_id: &str, session_id: &[u8], index: u32) -> (seen:
        bool)
        requires
            self.well_formed(),
        ensures
            seen == (self@.dom().contains((conversation_id@, session_id@)) && self@[(
                conversation_id@,
                session_id@,
            )].surfaced.contains(index)),
    {
        match self.position(&conversation_id.to_owned(), session_id) {
            Some(i) => self.sessions[i].has_surfaced(index),
            None => false,
        }
    }

    /// Admits the session that importing a key gave, under the identifier that
    /// its sender advertised. An admitted session is never replaced.
    pub fn accept(
        &mut self,
        conversation_id: &str,
        session_id: &[u8],
        imported: Option<InboundSession>,
    ) -> (result: Result<(), CryptoError>)
        requires
            old(self).well_formed(),
        ensures
            final(self).well_formed(),
            (result, final(self)@) == admission(
                old(self)@,
                conversation_id@,
                session_id@,
                imported_view(imported),
            ),
    {
        if conversation_id.is_empty() {
            return Err(CryptoError::InvalidConversationId);
        }
        let key = conversation_id.to_owned();
        if self.position(&key, session_id).is_some() {
            return Err(CryptoError::DuplicateSession);
        }
        match imported {
            Some(session) => {
                if same_bytes(session.session_id().as_slice(), session_id) {
                    let admitted = Admitted::new(key, session);
                    proof {
                        lemma_absent_key(old(self).pairs(), admitted.key());
                        lemma_push_is_insert(old(self).pairs(), admitted.key(), admitted@);
                    }
                    self.sessions.push(admitted);
                    proof {
                        assert(self.pairs() =~= old(self).pairs().push((admitted.key(), admitted@)));
                    }
                    Ok(())
                } else {
                    Err(CryptoError::InvalidKeyMaterial)
                }
            },
            None => Err(CryptoError::InvalidKeyMaterial),
        }
    }

    /// Decrypts `message` with the session under the conversation and
    /// identifier, unless there is none or the message is a replay.
    pub fn receive(&mut self, conversation_id: &str, session_id: &[u8], message: &WireMessage) -> (result:
        Result<String, CryptoError>)
        requires
            old(self).well_formed(),
        ensures
            final(self).well_formed(),
            (returned_text(result), final(self)@) == reception(
                old(self)@,
                conversation_id@,
                session_id@,
                message.index_spec(),
                megolm_text(old(self)@[(conversation_id@, session_id@)].key, message.bytes_spec()),
            ),
            result is Ok ==> old(self)@[(conversation_id@, session_id@)].first_known_index
                <= message.index_spec(),
    {
        match self.position(&conversation_id.to_owned(), session_id) {
            Some(i) => {
                let ghost key = (conversation_id@, session_id@);
                let result = self.sessions[i].receive(message);
                proof {
                    let after = self.sessions[i as int]@;
                    assert(self.pairs() =~= old(self).pairs().update(i as int, (key, after)));
                    lemma_update_is_insert(old(self).pairs(), i as int, after);
                }
                result
            },
            None => Err(CryptoError::UnknownSession),
        }
    }
}

} // verus!
