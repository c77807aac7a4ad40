//! The identity of a device: its account of long-term keys, and what it
//! publishes of them, in hexadecimal text.

use crate::hex_text::{
    encode_hex, hex_encoding, is_hex_text, is_lower_hex_digit, lemma_hex_round_trip,
};
use vodozemac::olm::Account;
use vstd::prelude::*;

verus! {

/// Bytes in a public key of either kind.
pub const PUBLIC_KEY_LENGTH: usize = 32;

#[verifier::external_type_specification]
#[verifier::external_body]
pub struct ExAccount(vodozemac::olm::Account);

/// The long-term key pairs of a device, with their public halves.
///
/// `ed25519` and `curve25519` are read from the account when it is made, and
/// written nowhere else.
pub struct DeviceAccount {
    ed25519: [u8; 32],
    curve25519: [u8; 32],
    account: Account,
}

/// The public keys of a device account.
pub struct AccountView {
    /// The public key with which the device signs.
    pub signing_key: Seq<u8>,
    /// The public key with which the device agrees on shared secrets.
    pub agreement_key: Seq<u8>,
}

impl AccountView {
    /// Both keys have the length of a public key.
    pub open spec fn well_formed(self) -> bool {
        &&& self.signing_key.len() == PUBLIC_KEY_LENGTH
        &&& self.agreement_key.len() == PUBLIC_KEY_LENGTH
    }
}

impl View for DeviceAccount {
    type V = AccountView;

    closed spec fn view(&self) -> AccountView {
        AccountView { signing_key: self.ed25519@, agreement_key: self.curve25519@ }
    }
}

impl DeviceAccount {
    /// An account with freshly drawn key pairs.
    pub fn generate() -> (account: DeviceAccount)
        ensures
            account@.well_formed(),
    {
        let account = generate_account();
        proof {
            account.lemma_well_formed();
        }
        account
    }

    /// The public key with which the device signs.
    pub fn signing_key(&self) -> (key: &[u8; 32])
        ensures
            key@ == self@.signing_key,
    {
        &self.ed25519
    }

    /// The public key with which the device agrees on shared secrets.
    pub fn agreement_key(&self) -> (key: &[u8; 32])
        ensures
            key@ == self@.agreement_key,
    {
        &self.curve25519
    }

    /// The keys of an account have the length of a public key.
    pub proof fn lemma_well_formed(&self)
        ensures
            self@.well_formed(),
    {
        broadcast use vstd::array::array_len_matches_n;

        assert(self.ed25519@.len() == 32);
        assert(self.curve25519@.len() == 32);
    }
}

/// The identity that a device publishes.
#[derive(Debug)]
pub struct DeviceKeys {
    pub user_id: String,
    pub device_id: String,
    /// Signing public key, hexadecimal.
    pub ed25519_key: String,
    /// Key-agreement public key, hexadecimal.
    pub curve25519_key: String,
}

/// What a `DeviceKeys` holds, as text.
pub struct DeviceKeysView {
    pub user_id: Seq<char>,
    pub device_id: Seq<char>,
    pub ed25519_key: Seq<char>,
    pub curve25519_key: Seq<char>,
}

/// Text that may stand for a public key: sixty-four hexadecimal digits of
/// either letter case.
pub open spec fn is_key_text(text: Seq<char>) -> bool {
    &&& text.len() == 2 * PUBLIC_KEY_LENGTH
    &&& is_hex_text(text)
}

/// Text of a public key as this library writes it: sixty-four hexadecimal
/// digits in lower case.
pub open spec fn is_public_key_text(text: Seq<char>) -> bool {
    &&& text.len() == 2 * PUBLIC_KEY_LENGTH
    &&& forall|i: int| 0 <= i < text.len() ==> is_lower_hex_digit(#[trigger] text[i])
}

/// The identity that `user_id`'s device `device_id` publishes of its account:
/// the two public keys in lower-case hexadecimal text.
pub open spec fn published(account: AccountView, user_id: Seq<char>, device_id: Seq<char>) -> DeviceKeysView {
    DeviceKeysView {
        user_id,
        device_id,
        ed25519_key: hex_encoding(account.signing_key),
        curve25519_key: hex_encoding(account.agreement_key),
    }
}

/// What a well-formed account publishes is well-formed, and its keys pass for
/// key text in an envelope.
pub proof fn lemma_published_is_well_formed(
    account: AccountView,
    user_id: Seq<char>,
    device_id: Seq<char>,
)
    requires
        account.well_formed(),
    ensures
        published(account, user_id, device_id).well_formed(),
        is_key_text(published(account, user_id, device_id).ed25519_key),
        is_key_text(published(account, user_id, device_id).curve25519_key),
{
    lemma_hex_round_trip(account.signing_key);
    lemma_hex_round_trip(account.agreement_key);
}

impl DeviceKeysView {
    /// Both keys are well-formed.
    pub open spec fn well_formed(self) -> bool {
        &&& is_public_key_text(self.ed25519_key)
        &&& is_public_key_text(self.curve25519_key)
    }
}

impl View for DeviceKeys {
    type V = DeviceKeysView;

    open spec fn view(&self) -> DeviceKeysView {
        DeviceKeysView {
            user_id: self.user_id@,
            device_id: self.device_id@,
            ed25519_key: self.ed25519_key@,
            curve25519_key: self.curve25519_key@,
        }
    }
}

impl Clone for DeviceKeys {
    fn clone(&self) -> (copy: Self)
        ensures
            copy@ == self@,
    {
        DeviceKeys {
            user_id: self.user_id.clone(),
            device_id: self.device_id.clone(),
            ed25519_key: self.ed25519_key.clone(),
            curve25519_key: self.curve25519_key.clone(),
        }
    }
}

impl DeviceKeys {
    /// The identity of `user_id`'s device `device_id` with the given public keys.
    pub fn from_public_keys(
        user_id: String,
        device_id: String,
        ed25519: &[u8; 32],
        curve25519: &[u8; 32],
    ) -> (keys: DeviceKeys)
        ensures
            keys@ == published(
                AccountView { signing_key: ed25519@, agreement_key: curve25519@ },
                user_id@,
                device_id@,
            ),
            keys@.well_formed(),
    {
        proof {
            broadcast use vstd::array::array_len_matches_n;

            assert(ed25519@.len() == 32);
            assert(curve25519@.len() == 32);
            lemma_published_is_well_formed(
                AccountView { signing_key: ed25519@, agreement_key: curve25519@ },
                user_id@,
                device_id@,
            );
        }
        DeviceKeys {
            user_id,
            device_id,
            ed25519_key: encode_hex(ed25519.as_slice()),
            curve25519_key: encode_hex(curve25519.as_slice()),
        }
    }

    /// The identity that `user_id`'s device `device_id` publishes of `account`.
    pub fn publish(user_id: String, device_id: String, account: &DeviceAccount) -> (keys:
        DeviceKeys)
        ensures
            keys@ == published(account@, user_id@, device_id@),
            keys@.well_formed(),
    {
        DeviceKeys::from_public_keys(
            user_id,
            device_id,
            account.signing_key(),
            account.agreement_key(),
        )
    }
}

/// `Account::new`, then `Account::identity_keys` read off the new account:
/// an account with freshly drawn keys, beside the bytes of its signing key and
/// of its key-agreement key. The keys are random, so nothing is promised of
/// them.
#[verifier::external_body]
fn generate_account() -> DeviceAccount {
    let account = Account::new();
    let keys = account.identity_keys();
    DeviceAccount {
        ed25519: *keys.ed25519.as_bytes(),
        curve25519: keys.curve25519.to_bytes(),
        account,
    }
}

} // verus!
