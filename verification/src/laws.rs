//! What holds of the session manager whatever the ratchets do, proved over
//! the model of its states and operations.

use crate::conversations::can_encrypt;
use crate::envelope::{lemma_sealed_opens, DecryptionResultView, EncryptedMessageView};
use crate::error::CryptoError;
use crate::hex_text::lemma_hex_encoding_injective;
use crate::identity::{lemma_published_is_well_formed, AccountView};
use crate::inbound::opened;
use crate::model::{after, after_all, ManagerView, Operation};
use vstd::prelude::*;
use vstd::utf8::{encode_utf8_decode_utf8, encode_utf8_valid_utf8};

verus! {

/// Whether the operation creates a sending session for the conversation.
pub open spec fn creates_for(operation: Operation, conversation_id: Seq<char>) -> bool {
    match operation {
        Operation::Create { conversation_id: created, .. } => created == conversation_id,
        _ => false,
    }
}

/// Whether the operation admits a receiving session under the conversation
/// and session identifier.
pub open spec fn admits_under(operation: Operation, key: (Seq<char>, Seq<u8>)) -> bool {
    match operation {
        Operation::Accept { conversation_id, session_id, .. } => (conversation_id, session_id)
            == key,
        _ => false,
    }
}

/// Whether a history holds a creation of a sending session for the conversation.
pub open spec fn creates(history: Seq<Operation>, conversation_id: Seq<char>) -> bool {
    exists|i: int| 0 <= i < history.len() && creates_for(#[trigger] history[i], conversation_id)
}

/// Only a creation gives a conversation a sending session, and nothing takes
/// it away.
pub proof fn lemma_step_keeps_conversations(
    state: ManagerView,
    operation: Operation,
    conversation_id: Seq<char>,
)
    ensures
        state.outbound.dom().contains(conversation_id) ==> after(
            state,
            operation,
        ).outbound.dom().contains(conversation_id),
        after(state, operation).outbound.dom().contains(conversation_id)
            && !state.outbound.dom().contains(conversation_id) ==> creates_for(
            operation,
            conversation_id,
        ),
        after(state, operation).account == state.account,
        after(state, operation).user_id == state.user_id,
        after(state, operation).device_id == state.device_id,
{
}

/// A conversation for which no session was created has none.
pub proof fn lemma_no_conversation_before_create(
    state: ManagerView,
    history: Seq<Operation>,
    conversation_id: Seq<char>,
)
    requires
        !state.outbound.dom().contains(conversation_id),
        !creates(history, conversation_id),
    ensures
        !after_all(state, history).outbound.dom().contains(conversation_id),
    decreases history.len(),
{
    if history.len() > 0 {
        let earlier = history.drop_last();
        assert forall|i: int| 0 <= i < earlier.len() implies !creates_for(
            #[trigger] earlier[i],
            conversation_id,
        ) by {
            assert(earlier[i] == history[i]);
        }
        lemma_no_conversation_before_create(state, earlier, conversation_id);
        lemma_step_keeps_conversations(
            after_all(state, earlier),
            history.last(),
            conversation_id,
        );
        assert(history[history.len() - 1] == history.last());
    }
}

/// Before a sending session was created for a conversation, encryption for
/// it fails with `NoSession`: whatever else a manager has done since it was
/// made, the only result that encryption may then return is that error, and
/// the manager stays as it is.
pub proof fn law_no_session_before_create(
    start: ManagerView,
    history: Seq<Operation>,
    conversation_id: Seq<char>,
    content: Seq<char>,
    result: Result<EncryptedMessageView, CryptoError>,
)
    requires
        start == ManagerView::fresh(start.user_id, start.device_id, start.account),
        !creates(history, conversation_id),
        after_all(start, history).seals(conversation_id, content, result),
    ensures
        result == Err::<EncryptedMessageView, CryptoError>(CryptoError::NoSession),
        after_all(start, history).encrypting(conversation_id) == after_all(start, history),
{
    lemma_no_conversation_before_create(start, history, conversation_id);
}

/// The number of messages that the conversation's current sending session
/// has encrypted; zero where the conversation has none.
pub open spec fn sent(state: ManagerView, conversation_id: Seq<char>) -> nat {
    if state.outbound.dom().contains(conversation_id) {
        state.outbound[conversation_id].current.message_count
    } else {
        0
    }
}

/// One operation adds at most one to a session's message count.
pub proof fn lemma_step_counts(state: ManagerView, operation: Operation, conversation_id: Seq<char>)
    ensures
        sent(after(state, operation), conversation_id) <= sent(state, conversation_id) + 1,
{
}

/// After a history, a session has encrypted at most as many messages more
/// as the history is long, and its conversation still has a session.
pub proof fn lemma_history_counts(
    state: ManagerView,
    history: Seq<Operation>,
    conversation_id: Seq<char>,
)
    ensures
        sent(after_all(state, history), conversation_id) <= sent(state, conversation_id)
            + history.len(),
        state.outbound.dom().contains(conversation_id) ==> after_all(
            state,
            history,
        ).outbound.dom().contains(conversation_id),
    decreases history.len(),
{
    if history.len() > 0 {
        let before = after_all(state, history.drop_last());
        lemma_history_counts(state, history.drop_last(), conversation_id);
        lemma_step_counts(before, history.last(), conversation_id);
        lemma_step_keeps_conversations(before, history.last(), conversation_id);
    }
}

/// Once a sending session was created for a conversation, the conversation
/// has a session whatever the manager does afterwards, and encryption for it
/// fails with `NoSession` only where the session that is then current has
/// used up its indices; a session that was just created has used none.
pub proof fn law_session_after_create(
    state: ManagerView,
    conversation_id: Seq<char>,
    session_id: Seq<u8>,
    genesis_key: Seq<u8>,
    history: Seq<Operation>,
    content: Seq<char>,
    result: Result<EncryptedMessageView, CryptoError>,
)
    requires
        conversation_id.len() > 0,
        after_all(state.creating(conversation_id, session_id, genesis_key).1, history).seals(
            conversation_id,
            content,
            result,
        ),
    ensures
        state.creating(conversation_id, session_id, genesis_key).0 == Ok::<Seq<u8>, CryptoError>(
            session_id,
        ),
        sent(state.creating(conversation_id, session_id, genesis_key).1, conversation_id) == 0,
        after_all(
            state.creating(conversation_id, session_id, genesis_key).1,
            history,
        ).outbound.dom().contains(conversation_id),
        result is Ok <==> sent(
            after_all(state.creating(conversation_id, session_id, genesis_key).1, history),
            conversation_id,
        ) < u32::MAX,
        result is Err ==> result == Err::<EncryptedMessageView, CryptoError>(
            CryptoError::NoSession,
        ),
        sent(
            after_all(state.creating(conversation_id, session_id, genesis_key).1, history),
            conversation_id,
        ) <= history.len(),
{
    let created = state.creating(conversation_id, session_id, genesis_key).1;
    assert(created.outbound.dom().contains(conversation_id));
    assert(sent(created, conversation_id) == 0);
    lemma_history_counts(created, history, conversation_id);
}

/// While no session is created for a conversation, the session it has stays
/// the same and its message count does not go down.
pub proof fn lemma_session_stays(
    state: ManagerView,
    history: Seq<Operation>,
    conversation_id: Seq<char>,
)
    requires
        state.outbound.dom().contains(conversation_id),
        !creates(history, conversation_id),
    ensures
        after_all(state, history).outbound.dom().contains(conversation_id),
        after_all(state, history).outbound[conversation_id].current.session_id
            == state.outbound[conversation_id].current.session_id,
        sent(after_all(state, history), conversation_id) >= sent(state, conversation_id),
        after_all(state, history).outbound[conversation_id].current.genesis_key
            == state.outbound[conversation_id].current.genesis_key,
        after_all(state, history).identity() == state.identity(),
    decreases history.len(),
{
    if history.len() > 0 {
        let earlier = history.drop_last();
        assert forall|i: int| 0 <= i < earlier.len() implies !creates_for(
            #[trigger] earlier[i],
            conversation_id,
        ) by {
            assert(earlier[i] == history[i]);
        }
        lemma_session_stays(state, earlier, conversation_id);
        assert(history[history.len() - 1] == history.last());
    }
}

/// Two encryptions under one sending session never return the same
/// ciphertext, whatever was encrypted and whatever the manager did between
/// them: the second message carries a later index than the first.
pub proof fn law_ciphertexts_differ(
    state: ManagerView,
    conversation_id: Seq<char>,
    first_content: Seq<char>,
    first: EncryptedMessageView,
    between: Seq<Operation>,
    second_content: Seq<char>,
    second: EncryptedMessageView,
)
    requires
        !creates(between, conversation_id),
        state.seals(conversation_id, first_content, Ok(first)),
        after_all(state.encrypting(conversation_id), between).seals(
            conversation_id,
            second_content,
            Ok(second),
        ),
    ensures
        first.ciphertext != second.ciphertext,
        first.session_id == second.session_id,
        first.sender_key == second.sender_key,
{
    let advanced = state.encrypting(conversation_id);
    assert(sent(advanced, conversation_id) == sent(state, conversation_id) + 1);
    lemma_session_stays(advanced, between, conversation_id);
    let later = after_all(advanced, between);
    assert(can_encrypt(later.outbound, conversation_id));
    let first_message = first.message()->0;
    let second_message = second.message()->0;
    assert(first_message != second_message);
    if first.ciphertext == second.ciphertext {
        lemma_hex_encoding_injective(first_message, second_message);
    }
}

/// The genesis key of a sending session is admitted by any manager that
/// has no session under the conversation and the session's identifier, and
/// the session admitted has that key and has surfaced nothing.
pub proof fn law_genesis_key_is_admitted(
    sender: ManagerView,
    conversation_id: Seq<char>,
    receiver: ManagerView,
)
    requires
        conversation_id.len() > 0,
        sender.outbound.dom().contains(conversation_id),
        sender.outbound[conversation_id].current.genuine(),
        !receiver.inbound.dom().contains(
            (conversation_id, sender.outbound[conversation_id].current.session_id),
        ),
    ensures
        ({
            let current = sender.outbound[conversation_id].current;
            let admitted = receiver.accepting(
                conversation_id,
                current.session_id,
                opened(current.genesis_key),
            );
            let key = (conversation_id, current.session_id);
            &&& admitted.0 == Ok::<(), CryptoError>(())
            &&& admitted.1.inbound.dom().contains(key)
            &&& admitted.1.inbound[key].key == current.genesis_key
            &&& admitted.1.inbound[key].first_known_index == 0
            &&& admitted.1.inbound[key].surfaced == Set::<u32>::empty()
        }),
{
}

/// Round trip: a manager that admitted a sending session by its genesis key
/// decrypts every envelope that the session made, as long as it has not
/// surfaced the envelope's index: it returns the text that was encrypted,
/// the key-agreement key of the sending device, and the index of the message
/// in its session, and then remembers the index. In what order the envelopes
/// arrive makes no difference.
pub proof fn law_round_trip(
    sender: ManagerView,
    conversation_id: Seq<char>,
    content: Seq<char>,
    envelope: EncryptedMessageView,
    receiver: ManagerView,
)
    requires
        sender.account.well_formed(),
        sender.seals(conversation_id, content, Ok(envelope)),
        receiver.inbound.dom().contains(
            (conversation_id, sender.outbound[conversation_id].current.session_id),
        ),
        receiver.inbound[(
            conversation_id,
            sender.outbound[conversation_id].current.session_id,
        )].key == sender.outbound[conversation_id].current.genesis_key,
        !receiver.inbound[(
            conversation_id,
            sender.outbound[conversation_id].current.session_id,
        )].surfaced.contains(sender.outbound[conversation_id].current.message_count as u32),
    ensures
        ({
            let current = sender.outbound[conversation_id].current;
            let index = current.message_count as u32;
            let read = receiver.reading(envelope, conversation_id);
            &&& read.0 == Ok::<DecryptionResultView, CryptoError>(
                DecryptionResultView {
                    plaintext: content,
                    sender_key: sender.identity().curve25519_key,
                    message_index: index,
                },
            )
            &&& envelope.sender_key == sender.identity().curve25519_key
            &&& read.1.inbound[(conversation_id, current.session_id)].surfaced.contains(index)
            &&& read.1.inbound[(conversation_id, current.session_id)].key == current.genesis_key
            &&& read.1.inbound.dom().contains((conversation_id, current.session_id))
        }),
{
    let current = sender.outbound[conversation_id].current;
    let message = envelope.message()->0;
    lemma_sealed_opens(message, sender.identity().curve25519_key, current.session_id);
    lemma_published_is_well_formed(sender.account, sender.user_id, sender.device_id);
    encode_utf8_valid_utf8(content);
    encode_utf8_decode_utf8(content);
}

/// A message that arrives after a later one of its session is read all the
/// same: where a manager admitted the session by its genesis key and has
/// decrypted the second of two envelopes that the session made, it decrypts
/// the first to the text that was encrypted, with the first's own, lower,
/// index, unless it had surfaced that index before.
pub proof fn law_out_of_order(
    sender: ManagerView,
    conversation_id: Seq<char>,
    first_content: Seq<char>,
    first: EncryptedMessageView,
    between: Seq<Operation>,
    second_content: Seq<char>,
    second: EncryptedMessageView,
    receiver: ManagerView,
)
    requires
        sender.account.well_formed(),
        !creates(between, conversation_id),
        sender.seals(conversation_id, first_content, Ok(first)),
        after_all(sender.encrypting(conversation_id), between).seals(
            conversation_id,
            second_content,
            Ok(second),
        ),
        receiver.inbound.dom().contains(
            (conversation_id, sender.outbound[conversation_id].current.session_id),
        ),
        receiver.inbound[(
            conversation_id,
            sender.outbound[conversation_id].current.session_id,
        )].key == sender.outbound[conversation_id].current.genesis_key,
        receiver.reading(second, conversation_id).0 is Ok,
        !receiver.inbound[(
            conversation_id,
            sender.outbound[conversation_id].current.session_id,
        )].surfaced.contains(sender.outbound[conversation_id].current.message_count as u32),
    ensures
        receiver.reading(second, conversation_id).1.reading(first, conversation_id).0 == Ok::<
            DecryptionResultView,
            CryptoError,
        >(
            DecryptionResultView {
                plaintext: first_content,
                sender_key: sender.identity().curve25519_key,
                message_index: sender.outbound[conversation_id].current.message_count as u32,
            },
        ),
        receiver.reading(second, conversation_id).0->Ok_0.message_index
            > sender.outbound[conversation_id].current.message_count,
{
    let current = sender.outbound[conversation_id].current;
    let advanced = sender.encrypting(conversation_id);
    lemma_session_stays(advanced, between, conversation_id);
    let later = after_all(advanced, between);
    assert(later.account == sender.account) by {
        lemma_account_stays(advanced, between);
    }
    let later_current = later.outbound[conversation_id].current;
    lemma_sealed_opens(
        second.message()->0,
        later.identity().curve25519_key,
        later_current.session_id,
    );
    lemma_published_is_well_formed(later.account, later.user_id, later.device_id);
    let after_second = receiver.reading(second, conversation_id).1;
    law_round_trip(sender, conversation_id, first_content, first, after_second);
}

/// The account and the names of a manager stay what they are.
pub proof fn lemma_account_stays(state: ManagerView, history: Seq<Operation>)
    ensures
        after_all(state, history).account == state.account,
        after_all(state, history).user_id == state.user_id,
        after_all(state, history).device_id == state.device_id,
    decreases history.len(),
{
    if history.len() > 0 {
        lemma_account_stays(state, history.drop_last());
    }
}

/// When decryption succeeds: exactly where the session that the envelope
/// names is admitted for the conversation, the envelope is addressed and
/// carries a Megolm message, the message's index was not surfaced, and the
/// session reads a text in the message. The index is then surfaced, and
/// nothing else changes.
pub proof fn law_delivery_is_decided(
    state: ManagerView,
    envelope: EncryptedMessageView,
    conversation_id: Seq<char>,
)
    ensures
        state.reading(envelope, conversation_id).0 is Ok <==> {
            &&& envelope.session() is Some
            &&& state.inbound.dom().contains((conversation_id, envelope.session()->0))
            &&& envelope.addressed()
            &&& envelope.message_index() is Some
            &&& !state.inbound[(
                conversation_id,
                envelope.session()->0,
            )].surfaced.contains(envelope.message_index()->0)
            &&& state.text_under(envelope, conversation_id, envelope.message()->0) is Some
        },
        state.reading(envelope, conversation_id).0 matches Ok(decrypted) ==> {
            let key = (conversation_id, envelope.session()->0);
            &&& decrypted.plaintext == state.text_under(
                envelope,
                conversation_id,
                envelope.message()->0,
            )->0
            &&& decrypted.sender_key == envelope.sender_key
            &&& decrypted.message_index == envelope.message_index()->0
            &&& state.reading(envelope, conversation_id).1 == (ManagerView {
                inbound: state.inbound.insert(
                    key,
                    state.inbound[key].surfacing(decrypted.message_index),
                ),
                ..state
            })
        },
        state.reading(envelope, conversation_id).0 is Err ==> state.reading(
            envelope,
            conversation_id,
        ).1 == state,
{
    if state.reading(envelope, conversation_id).0 is Err {
        assert(state.reading(envelope, conversation_id).1.inbound =~= state.inbound);
    }
}

/// Creating sending sessions leaves every receiving session as it is, and
/// keeps each session it supersedes: after two creations for a conversation,
/// what decrypting any envelope returns is what it would have returned
/// before them, and the first of the two sessions is among the superseded
/// ones until they are expired.
pub proof fn law_rotation_keeps_sessions(
    state: ManagerView,
    conversation_id: Seq<char>,
    first_id: Seq<u8>,
    first_key: Seq<u8>,
    second_id: Seq<u8>,
    second_key: Seq<u8>,
    envelope: EncryptedMessageView,
    received_for: Seq<char>,
)
    requires
        conversation_id.len() > 0,
    ensures
        ({
            let once = state.creating(conversation_id, first_id, first_key).1;
            let twice = once.creating(conversation_id, second_id, second_key).1;
            &&& twice.inbound == state.inbound
            &&& twice.reading(envelope, received_for).0 == state.reading(envelope, received_for).0
            &&& once.outbound[conversation_id].current.genesis_key == first_key
            &&& twice.outbound[conversation_id].current.session_id == second_id
            &&& twice.outbound[conversation_id].superseded.last() == once.outbound[conversation_id].current
            &&& once.outbound[conversation_id].current.session_id == first_id
            &&& twice.expiring(conversation_id).outbound[conversation_id].superseded.len() == 0
        }),
{
}

/// Decrypting the same envelope twice succeeds at most the first time: the
/// second time it is refused as a replay.
pub proof fn law_second_delivery_is_a_replay(
    state: ManagerView,
    envelope: EncryptedMessageView,
    conversation_id: Seq<char>,
)
    requires
        state.reading(envelope, conversation_id).0 is Ok,
    ensures
        state.reading(envelope, conversation_id).1.reading(envelope, conversation_id).0 == Err::<
            DecryptionResultView,
            CryptoError,
        >(CryptoError::ReplayedMessage),
{
}

/// An envelope that was decrypted is refused as a replay when it is
/// presented again, whatever the ratchet makes of it the second time and
/// whatever the manager did in between.
pub proof fn law_replay_is_refused(
    state: ManagerView,
    envelope: EncryptedMessageView,
    conversation_id: Seq<char>,
    index: Option<u32>,
    first_plaintext: Option<Seq<char>>,
    between: Seq<Operation>,
    second_plaintext: Option<Seq<char>>,
)
    requires
        state.decrypting(envelope, conversation_id, index, first_plaintext).0 is Ok,
    ensures
        after_all(
            state.decrypting(envelope, conversation_id, index, first_plaintext).1,
            between,
        ).decrypting(envelope, conversation_id, index, second_plaintext).0 == Err::<
            DecryptionResultView,
            CryptoError,
        >(CryptoError::ReplayedMessage),
{
    let surfaced = state.decrypting(envelope, conversation_id, index, first_plaintext).1;
    let session_id = envelope.session()->0;
    let key = (conversation_id, session_id);
    assert(surfaced.inbound.dom().contains(key));
    assert(surfaced.inbound[key].surfaced.contains(index->0));
    lemma_surfaced_stays(surfaced, between, key, index->0);
}

/// An admitted receiving session stays admitted, and what it has surfaced
/// stays surfaced.
pub proof fn lemma_surfaced_stays(
    state: ManagerView,
    history: Seq<Operation>,
    key: (Seq<char>, Seq<u8>),
    index: u32,
)
    requires
        state.inbound.dom().contains(key),
    ensures
        after_all(state, history).inbound.dom().contains(key),
        after_all(state, history).inbound[key].first_known_index
            == state.inbound[key].first_known_index,
        state.inbound[key].surfaced.contains(index) ==> after_all(
            state,
            history,
        ).inbound[key].surfaced.contains(index),
    decreases history.len(),
{
    if history.len() > 0 {
        lemma_surfaced_stays(state, history.drop_last(), key, index);
    }
}

/// An envelope whose session was never admitted for the conversation is
/// refused with `UnknownSession`, whatever else it holds and whatever the
/// ratchets would make of it; the manager stays as it is.
pub proof fn law_unknown_session(
    state: ManagerView,
    envelope: EncryptedMessageView,
    conversation_id: Seq<char>,
    index: Option<u32>,
    plaintext: Option<Seq<char>>,
)
    requires
        envelope.session() matches Some(session_id) ==> !state.inbound.dom().contains(
            (conversation_id, session_id),
        ),
    ensures
        state.decrypting(envelope, conversation_id, index, plaintext) == (
            Err::<DecryptionResultView, CryptoError>(CryptoError::UnknownSession),
            state,
        ),
        state.reading(envelope, conversation_id) == (
            Err::<DecryptionResultView, CryptoError>(CryptoError::UnknownSession),
            state,
        ),
{
}

/// Only an admission admits: a manager that was made and has since done
/// anything but admit a session under the conversation and identifier has
/// none there.
pub proof fn law_never_admitted(
    user_id: Seq<char>,
    device_id: Seq<char>,
    account: AccountView,
    history: Seq<Operation>,
    key: (Seq<char>, Seq<u8>),
)
    requires
        forall|i: int| 0 <= i < history.len() ==> !admits_under(#[trigger] history[i], key),
    ensures
        !after_all(ManagerView::fresh(user_id, device_id, account), history).inbound.dom().contains(
            key,
        ),
    decreases history.len(),
{
    if history.len() > 0 {
        let earlier = history.drop_last();
        assert forall|i: int| 0 <= i < earlier.len() implies !admits_under(
            #[trigger] earlier[i],
            key,
        ) by {
            assert(earlier[i] == history[i]);
        }
        law_never_admitted(user_id, device_id, account, earlier, key);
        assert(history[history.len() - 1] == history.last());
    }
}

} // verus!
