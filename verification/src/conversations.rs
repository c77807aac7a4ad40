//! The outbound session table: for each conversation its current sending
//! session, and the sessions that one superseded, kept until they are expired.

use crate::bytes::{copy_bytes, same_bytes};
use crate::keyed::{
    as_map, distinct_keys, lemma_absent_key, lemma_empty_is_empty, lemma_entry_in_map,
    lemma_push_is_insert, lemma_update_is_insert,
};
use crate::outbound::{OutboundSession, OutboundSessionView};
use vstd::prelude::*;

verus! {

/// The sending sessions of one conversation.
pub struct Conversation {
    conversation_id: String,
    current: OutboundSession,
    superseded: Vec<OutboundSession>,
}

/// The sending sessions of one conversation, as the contracts see them.
pub struct ConversationView {
    /// The session that encrypts now.
    pub current: OutboundSessionView,
    /// The sessions before it, oldest first.
    pub superseded: Seq<OutboundSessionView>,
}

impl ConversationView {
    /// A conversation that has only had the session `first`.
    pub open spec fn opened(first: OutboundSessionView) -> ConversationView {
        ConversationView { current: first, superseded: Seq::empty() }
    }

    /// The conversation after `next` has taken the place of the current session.
    pub open spec fn rotated(self, next: OutboundSessionView) -> ConversationView {
        ConversationView { current: next, superseded: self.superseded.push(self.current) }
    }

    /// The conversation after its current session has encrypted once more.
    pub open spec fn advanced(self) -> ConversationView {
        ConversationView { current: self.current.advanced(), ..self }
    }

    /// The conversation without the sessions it had superseded.
    pub open spec fn expired(self) -> ConversationView {
        ConversationView { superseded: Seq::empty(), ..self }
    }

    /// Whether every session of the conversation is one that a ratchet made.
    pub open spec fn genuine(self) -> bool {
        &&& self.current.genuine()
        &&& forall|i: int|
            0 <= i < self.superseded.len() ==> (#[trigger] self.superseded[i]).genuine()
    }

    /// Whether the conversation holds a session with the identifier, be it
    /// current or superseded.
    pub open spec fn holds(self, session_id: Seq<u8>) -> bool {
        ||| self.current.session_id == session_id
        ||| exists|i: int|
            0 <= i < self.superseded.len() && (#[trigger] self.superseded[i]).session_id
                == session_id
    }
}

impl View for Conversation {
    type V = ConversationView;

    closed spec fn view(&self) -> ConversationView {
        ConversationView {
            current: self.current@,
            superseded: Seq::new(self.superseded.len() as nat, |i: int| self.superseded[i]@),
        }
    }
}

/// The table of sending sessions, one entry a conversation.
pub struct OutboundTable {
    conversations: Vec<Conversation>,
}

/// The table as a map from conversation identifier to the conversation's sessions.
pub type OutboundTableView = Map<Seq<char>, ConversationView>;

/// Whether `conversation_id` has a current session that can still encrypt.
pub open spec fn can_encrypt(table: OutboundTableView, conversation_id: Seq<char>) -> bool {
    &&& table.dom().contains(conversation_id)
    &&& table[conversation_id].current.usable()
}

/// The table after the session `fresh` has become the current one of
/// `conversation_id`.
pub open spec fn table_after_create(
    table: OutboundTableView,
    conversation_id: Seq<char>,
    fresh: OutboundSessionView,
) -> OutboundTableView {
    if table.dom().contains(conversation_id) {
        table.insert(conversation_id, table[conversation_id].rotated(fresh))
    } else {
        table.insert(conversation_id, ConversationView::opened(fresh))
    }
}

/// The table after the superseded sessions of `conversation_id` are dropped.
pub open spec fn table_after_expiry(
    table: OutboundTableView,
    conversation_id: Seq<char>,
) -> OutboundTableView {
    if table.dom().contains(conversation_id) {
        table.insert(conversation_id, table[conversation_id].expired())
    } else {
        table
    }
}

impl View for OutboundTable {
    type V = OutboundTableView;

    closed spec fn view(&self) -> OutboundTableView {
        as_map(self.pairs())
    }
}

impl OutboundTable {
    closed spec fn pairs(&self) -> Seq<(Seq<char>, ConversationView)> {
        Seq::new(
            self.conversations.len() as nat,
            |i: int| (self.conversations[i].conversation_id@, self.conversations[i]@),
        )
    }

    /// No conversation has two entries, and every session is one that a
    /// ratchet made.
    pub closed spec fn well_formed(&self) -> bool {
        &&& distinct_keys(self.pairs())
        &&& forall|i: int|
            0 <= i < self.conversations.len() ==> (#[trigger] self.conversations[i]@).genuine()
    }

    /// An empty table.
    pub fn new() -> (table: OutboundTable)
        ensures
            table.well_formed(),
            table@ == OutboundTableView::empty(),
    {
        let table = OutboundTable { conversations: Vec::new() };
        proof {
            lemma_empty_is_empty(table.pairs());
        }
        table
    }

    fn position(&self, conversation_id: &String) -> (found: Option<usize>)
        requires
            self.well_formed(),
        ensures
            match found {
                Some(i) => {
                    &&& i < self.conversations.len()
                    &&& self.conversations[i as int].conversation_id@ == conversation_id@
                    &&& self@.dom().contains(conversation_id@)
                    &&& self@[conversation_id@] == self.conversations[i as int]@
                    &&& self@[conversation_id@].genuine()
                },
                None => !self@.dom().contains(conversation_id@),
            },
    {
        let mut i: usize = 0;
        while i < self.conversations.len()
            invariant
                i <= self.conversations.len(),
                self.well_formed(),
                forall|j: int| 0 <= j < i ==> (#[trigger] self.pairs()[j]).0 != conversation_id@,
            decreases self.conversations.len() - i,
        {
            if self.conversations[i].conversation_id == *conversation_id {
                proof {
                    lemma_entry_in_map(self.pairs(), i as int);
                }
                return Some(i);
            }
            i = i + 1;
        }
        proof {
            lemma_absent_key(self.pairs(), conversation_id@);
        }
        None
    }

    /// Whether the conversation has a sending session.
    pub fn contains(&self, conversation_id: &str) -> (found: bool)
        requires
            self.well_formed(),
        ensures
            found == self@.dom().contains(conversation_id@),
    {
        self.position(&conversation_id.to_owned()).is_some()
    }

    /// The identifier and the message count of the conversation's current
    /// session.
    pub fn current(&self, conversation_id: &str) -> (found: Option<(Vec<u8>, u32)>)
        requires
            self.well_formed(),
        ensures
            found is Some <==> self@.dom().contains(conversation_id@),
            found matches Some((session_id, message_count)) ==> {
                &&& session_id@ == self@[conversation_id@].current.session_id
                &&& message_count == self@[conversation_id@].current.message_count
                &&& self@[conversation_id@].genuine()
            },
    {
        match self.position(&conversation_id.to_owned()) {
            Some(i) => {
                let session = &self.conversations[i].current;
                Some((copy_bytes(session.session_id()), session.message_count()))
            },
            None => None,
        }
    }

    /// The number of superseded sessions that the conversation still keeps.
    pub fn superseded_count(&self, conversation_id: &str) -> (count: usize)
        requires
            self.well_formed(),
        ensures
            count == if self@.dom().contains(conversation_id@) {
                self@[conversation_id@].superseded.len()
            } else {
                0
            },
    {
        match self.position(&conversation_id.to_owned()) {
            Some(i) => self.conversations[i].superseded.len(),
            None => 0,
        }
    }

    /// Makes a new session the current one of `conversation_id`, and returns
    /// its identifier. The session it supersedes, if any, is kept.
    pub fn create(&mut self, conversation_id: &str) -> (session_id: Vec<u8>)
        requires
            old(self).well_formed(),
        ensures
            final(self).well_formed(),
            final(self)@.dom().contains(conversation_id@),
            ({
                let fresh = final(self)@[conversation_id@].current;
                &&& fresh.session_id == session_id@
                &&& fresh.message_count == 0
                &&& fresh.genuine()
                &&& final(self)@ == table_after_create(old(self)@, conversation_id@, fresh)
            }),
    {
        let key = conversation_id.to_owned();
        let mut session = OutboundSession::start();
        let session_id = copy_bytes(session.session_id());
        let ghost fresh = session@;
        match self.position(&key) {
            Some(i) => {
                let ghost before = self.conversations[i as int]@;
                core::mem::swap(&mut self.conversations[i].current, &mut session);
                self.conversations[i].superseded.push(session);
                proof {
                    let after = self.conversations[i as int]@;
                    assert(after.superseded =~= before.superseded.push(before.current));
                    assert(after == before.rotated(fresh));
                    assert(self.pairs() =~= old(self).pairs().update(
                        i as int,
                        (conversation_id@, after),
                    ));
                    lemma_update_is_insert(old(self).pairs(), i as int, after);
                    lemma_entry_in_map(self.pairs(), i as int);
                    assert(after.genuine());
                    assert forall|k: int| 0 <= k < self.conversations.len() implies (
                    #[trigger] self.conversations[k]@).genuine() by {
                        if k != i {
                            assert(self.conversations[k] == old(self).conversations[k]);
                        }
                    }
                }
            },
            None => {
                let conversation = Conversation {
                    conversation_id: key,
                    current: session,
                    superseded: Vec::new(),
                };
                proof {
                    assert(conversation@.superseded =~= Seq::empty());
                    lemma_absent_key(old(self).pairs(), conversation_id@);
                    lemma_push_is_insert(old(self).pairs(), conversation_id@, conversation@);
                }
                self.conversations.push(conversation);
                proof {
                    assert(self.pairs() =~= old(self).pairs().push(
                        (conversation_id@, conversation@),
                    ));
                    lemma_entry_in_map(self.pairs(), self.conversations.len() - 1);
                    assert forall|k: int| 0 <= k < self.conversations.len() implies (
                    #[trigger] self.conversations[k]@).genuine() by {
                        if k < old(self).conversations.len() {
                            assert(self.conversations[k] == old(self).conversations[k]);
                        }
                    }
                }
            },
        }
        session_id
    }

    /// Encrypts `plaintext` under the current session of `conversation_id`, and
    /// returns that session's identifier and the message. `None`, and nothing
    /// changed, where the conversation has no session that can still encrypt.
    pub fn encrypt(&mut self, conversation_id: &str, plaintext: &str) -> (sealed: Option<
        (Vec<u8>, Vec<u8>),
    >)
        requires
            old(self).well_formed(),
        ensures
            final(self).well_formed(),
            sealed is Some <==> can_encrypt(old(self)@, conversation_id@),
            sealed is None ==> final(self)@ == old(self)@,
            sealed matches Some((session_id, message)) ==> {
                let before = old(self)@[conversation_id@];
                &&& final(self)@ == old(self)@.insert(conversation_id@, before.advanced())
                &&& session_id@ == before.current.session_id
                &&& before.current.genuine()
                &&& before.current.encrypts(plaintext@, message@)
            },
    {
        match self.position(&conversation_id.to_owned()) {
            Some(i) => {
                let ghost before = self.conversations[i as int]@;
                match self.conversations[i].current.encrypt(plaintext) {
                    Some(message) => {
                        let session_id = copy_bytes(self.conversations[i].current.session_id());
                        proof {
                            let after = self.conversations[i as int]@;
                            assert(after.superseded =~= before.superseded);
                            assert(after == before.advanced());
                            assert(self.pairs() =~= old(self).pairs().update(
                                i as int,
                                (conversation_id@, after),
                            ));
                            lemma_update_is_insert(old(self).pairs(), i as int, after);
                            assert forall|k: int|
                                0 <= k < self.conversations.len() implies (
                            #[trigger] self.conversations[k]@).genuine() by {
                                if k != i {
                                    assert(self.conversations[k] == old(self).conversations[k]);
                                }
                            }
                        }
                        Some((session_id, message))
                    },
                    None => {
                        proof {
                            let after = self.conversations[i as int]@;
                            assert(after.superseded =~= before.superseded);
                            assert(self.pairs() =~= old(self).pairs());
                            assert forall|k: int|
                                0 <= k < self.conversations.len() implies (
                            #[trigger] self.conversations[k]@).genuine() by {
                                if k != i {
                                    assert(self.conversations[k] == old(self).conversations[k]);
                                }
                            }
                        }
                        None
                    },
                }
            },
            None => None,
        }
    }

    /// The genesis key of the conversation's current session, beside the
    /// session's identifier: the key for devices that are to read every
    /// message of the session.
    pub fn genesis_key(&self, conversation_id: &str) -> (found: Option<(Vec<u8>, Vec<u8>)>)
        requires
            self.well_formed(),
        ensures
            found is Some <==> self@.dom().contains(conversation_id@),
            found matches Some((session_id, key)) ==> {
                &&& session_id@ == self@[conversation_id@].current.session_id
                &&& key@ == self@[conversation_id@].current.genesis_key
                &&& self@[conversation_id@].current.genuine()
            },
    {
        match self.position(&conversation_id.to_owned()) {
            Some(i) => {
                let session = &self.conversations[i].current;
                Some((copy_bytes(session.session_id()), copy_bytes(session.genesis_key())))
            },
            None => None,
        }
    }

    /// The key of the conversation's current session, for devices that are to
    /// read what it encrypts from now on, beside the session's identifier.
    pub fn export_key(&self, conversation_id: &str) -> (exported: Option<(Vec<u8>, Vec<u8>)>)
        requires
            self.well_formed(),
        ensures
            exported is Some <==> self@.dom().contains(conversation_id@),
            exported matches Some((session_id, key)) ==> {
                &&& session_id@ == self@[conversation_id@].current.session_id
                &&& self@[conversation_id@].current.opened_by(key@)
            },
    {
        match self.position(&conversation_id.to_owned()) {
            Some(i) => {
                let session = &self.conversations[i].current;
                Some((copy_bytes(session.session_id()), session.export_key()))
            },
            None => None,
        }
    }

    /// The key of the session of `conversation_id` that has the identifier
    /// `session_id`, be it current or superseded: a superseded session can
    /// still hand out its key, from the index at which it stopped.
    pub fn export_key_of(&self, conversation_id: &str, session_id: &[u8]) -> (key: Option<Vec<u8>>)
        requires
            self.well_formed(),
        ensures
            key is Some <==> self@.dom().contains(conversation_id@) && self@[conversation_id@].holds(
                session_id@,
            ),
            key matches Some(bytes) ==> self@[conversation_id@].hands_out(session_id@, bytes@),
    {
        match self.position(&conversation_id.to_owned()) {
            Some(i) => {
                let conversation = &self.conversations[i];
                if same_bytes(conversation.current.session_id().as_slice(), session_id) {
                    return Some(conversation.current.export_key());
                }
                let mut j: usize = 0;
                while j < conversation.superseded.len()
                    invariant
                        j <= conversation.superseded.len(),
                        self@.dom().contains(conversation_id@),
                        self@[conversation_id@] == conversation@,
                        conversation@.current.session_id != session_id@,
                        conversation@.superseded.len() == conversation.superseded.len(),
                        forall|k: int|
                            0 <= k < conversation.superseded.len()
                                ==> #[trigger] conversation@.superseded[k]
                                == conversation.superseded[k]@,
                        forall|k: int|
                            0 <= k < j ==> (#[trigger] conversation@.superseded[k]).session_id
                                != session_id@,
                    decreases conversation.superseded.len() - j,
                {
                    if same_bytes(conversation.superseded[j].session_id().as_slice(), session_id) {
                        assert(conversation@.superseded[j as int].session_id == session_id@);
                        let key = conversation.superseded[j].export_key();
                        assert(conversation@.superseded[j as int].opened_by(key@));
                        return Some(key);
                    }
                    j = j + 1;
                }
                None
            },
            None => None,
        }
    }

    /// Drops the superseded sessions of `conversation_id`, and returns how many
    /// there were.
    pub fn expire_superseded(&mut self, conversation_id: &str) -> (dropped: usize)
        requires
            old(self).well_formed(),
        ensures
            final(self).well_formed(),
            final(self)@ == table_after_expiry(old(self)@, conversation_id@),
            dropped == if old(self)@.dom().contains(conversation_id@) {
                old(self)@[conversation_id@].superseded.len()
            } else {
                0
            },
    {
        match self.position(&conversation_id.to_owned()) {
            Some(i) => {
                let ghost before = self.conversations[i as int]@;
                let dropped = self.conversations[i].superseded.len();
                self.conversations[i].superseded.clear();
                proof {
                    let after = self.conversations[i as int]@;
                    assert(after.superseded =~= Seq::empty());
                    assert(after == before.expired());
                    assert(self.pairs() =~= old(self).pairs().update(
                        i as int,
                        (conversation_id@, after),
                    ));
                    lemma_update_is_insert(old(self).pairs(), i as int, after);
                    assert forall|k: int| 0 <= k < self.conversations.len() implies (
                    #[trigger] self.conversations[k]@).genuine() by {
                        if k != i {
                            assert(self.conversations[k] == old(self).conversations[k]);
                        }
                    }
                }
                dropped
            },
            None => 0,
        }
    }
}

impl ConversationView {
    /// Whether `key` opens a session of the conversation that has the
    /// identifier `session_id`, be it current or superseded, from the index
    /// at which that session stands.
    pub open spec fn hands_out(self, session_id: Seq<u8>, key: Seq<u8>) -> bool {
        ||| self.current.session_id == session_id && self.current.opened_by(key)
        ||| exists|i: int|
            0 <= i < self.superseded.len() && (#[trigger] self.superseded[i]).session_id
                == session_id && self.superseded[i].opened_by(key)
    }
}

} // verus!
