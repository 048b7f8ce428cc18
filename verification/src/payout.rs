//! Signing identities: the per-invoice publication keys and the app-wide
//! payout identity, and the steps of connecting a Stripe payout account.

use vstd::prelude::*;
use crate::keys::{hex_bytes, hex_decodable, hex_text, is_valid_secret_key, lemma_hex_round_trip, public_key_of, Signer};
use crate::lifecycle::GATEWAY_ENV;
use crate::model::{AddieIdentity, BdoKeypair, PayoutStatus, StripeConnectResult};
use crate::string_map::StringMap;

verus! {

/// A stored private key in hex text that decodes to a valid secret key.
pub open spec fn usable_key_text(s: Seq<char>) -> bool {
    hex_decodable(s) && is_valid_secret_key(hex_bytes(s))
}

/// The key pair of a signing key, as hex text.
pub fn keypair_of(s: &Signer) -> (r: BdoKeypair)
    ensures
        r.private_key_hex@ == hex_text(s@),
        r.pub_key_hex@ == hex_text(public_key_of(s@)),
        usable_key_text(r.private_key_hex@),
        hex_bytes(r.private_key_hex@) == s@,
{
    BdoKeypair { private_key_hex: s.private_key_hex(), pub_key_hex: s.public_key_hex() }
}

/// The signing key of invoice `invoice_id`: rebuilt from its stored key pair
/// when there is one (failing when that key does not decode), otherwise drawn
/// fresh and stored. The flag tells whether `keys` changed and must be saved.
pub fn bdo_session_for(keys: &mut StringMap<BdoKeypair>, invoice_id: &str) -> (r: Result<(Signer, bool), String>)
    ensures
        old(keys).view().dom().contains(invoice_id@) ==> {
            &&& final(keys).view() == old(keys).view()
            &&& (r is Ok <==> usable_key_text(old(keys).view()[invoice_id@].private_key_hex@))
            &&& (r matches Ok((s, changed)) ==> !changed && s@ == hex_bytes(
                old(keys).view()[invoice_id@].private_key_hex@,
            ))
        },
        !old(keys).view().dom().contains(invoice_id@) ==> {
            &&& r matches Ok((s, changed)) && changed && final(keys).view()
                == old(keys).view().insert(invoice_id@, final(keys).view()[invoice_id@])
                && final(keys).view()[invoice_id@].private_key_hex@ == hex_text(s@)
                && final(keys).view()[invoice_id@].pub_key_hex@ == hex_text(public_key_of(s@))
            &&& usable_key_text(final(keys).view()[invoice_id@].private_key_hex@)
        },
{
    match keys.get(invoice_id) {
        Some(existing) => {
            match Signer::from_hex(existing.private_key_hex.as_str()) {
                Ok(s) => Ok((s, false)),
                Err(e) => Err(e),
            }
        },
        None => {
            let signer = Signer::generate();
            let pair = keypair_of(&signer);
            keys.insert(String::from_str(invoice_id), pair);
            Ok((signer, true))
        },
    }
}

/// A key stored as the hex text of a signing key is rebuilt, on the next
/// lookup, as that same key: the text is usable and decodes to it.
pub proof fn lemma_stored_key_reloads(secret: Seq<u8>)
    requires
        is_valid_secret_key(secret),
    ensures
        usable_key_text(hex_text(secret)),
        hex_bytes(hex_text(secret)) == secret,
{
    lemma_hex_round_trip(secret);
}

/// A payout identity for a signing key: its key pair, nothing connected yet.
pub fn new_addie_identity(s: &Signer) -> (r: AddieIdentity)
    ensures
        r.private_key_hex@ == hex_text(s@),
        r.pub_key_hex@ == hex_text(public_key_of(s@)),
        usable_key_text(r.private_key_hex@),
        r.addie_uuid.is_none(),
        r.stripe_account_id.is_none(),
{
    AddieIdentity {
        private_key_hex: s.private_key_hex(),
        pub_key_hex: s.public_key_hex(),
        addie_uuid: None,
        stripe_account_id: None,
    }
}

/// The payout signing key: rebuilt from the stored identity (failing when
/// its key does not decode), or drawn fresh with a new identity. The flag
/// tells whether the identity is new and must be saved.
pub fn addie_session_for(existing: Option<AddieIdentity>) -> (r: Result<(Signer, AddieIdentity, bool), String>)
    ensures
        match existing {
            Some(id) => {
                &&& (r is Ok <==> usable_key_text(id.private_key_hex@))
                &&& r matches Ok((s, kept, changed)) ==> kept == id && !changed && s@ == hex_bytes(
                    id.private_key_hex@,
                )
            },
            None => r matches Ok((s, fresh, changed)) && changed && fresh.addie_uuid.is_none()
                && fresh.stripe_account_id.is_none() && fresh.private_key_hex@ == hex_text(s@)
                && fresh.pub_key_hex@ == hex_text(public_key_of(s@)) && usable_key_text(fresh.private_key_hex@),
        },
{
    match existing {
        Some(id) => {
            match Signer::from_hex(id.private_key_hex.as_str()) {
                Ok(s) => Ok((s, id, false)),
                Err(e) => Err(e),
            }
        },
        None => {
            let signer = Signer::generate();
            let identity = new_addie_identity(&signer);
            Ok((signer, identity, true))
        },
    }
}

/// The payout identity stored for the current environment.
pub fn identity_for_env(identities: &StringMap<AddieIdentity>) -> (r: Option<&AddieIdentity>)
    ensures
        r == (if identities.view().dom().contains(GATEWAY_ENV@) {
            Some(&identities.view()[GATEWAY_ENV@])
        } else {
            None
        }),
{
    identities.get(GATEWAY_ENV)
}

/// Stores the payout identity under the current environment, leaving those
/// of other environments as they were.
pub fn store_identity(identities: &mut StringMap<AddieIdentity>, identity: AddieIdentity)
    ensures
        final(identities).view() == old(identities).view().insert(GATEWAY_ENV@, identity),
{
    identities.insert(String::from_str(GATEWAY_ENV), identity);
}

/// Payout state for display: connected once a Stripe account was recorded.
pub fn payout_status(identity: Option<&AddieIdentity>) -> (r: PayoutStatus)
    ensures
        match identity {
            Some(i) => r.connected == i.stripe_account_id.is_some() && r.pub_key == Some(i.pub_key_hex),
            None => !r.connected && r.pub_key.is_none(),
        },
{
    match identity {
        Some(i) => PayoutStatus { connected: i.stripe_account_id.is_some(), pub_key: Some(i.pub_key_hex.clone()) },
        None => PayoutStatus { connected: false, pub_key: None },
    }
}

/// Whether Stripe is connected on the identity (false without one).
pub fn stripe_connected(identity: Option<&AddieIdentity>) -> (r: bool)
    ensures
        r == (match identity {
            Some(i) => i.stripe_account_id.is_some(),
            None => false,
        }),
{
    match identity {
        Some(i) => i.stripe_account_id.is_some(),
        None => false,
    }
}

/// Whether a payout user still has to be created for the identity.
pub fn needs_addie_user(identity: &AddieIdentity) -> (r: bool)
    ensures
        r == identity.addie_uuid.is_none(),
{
    identity.addie_uuid.is_none()
}

/// Records the payout user created for the identity.
pub fn record_addie_user(identity: &mut AddieIdentity, uuid: String)
    ensures
        final(identity).addie_uuid == Some(uuid),
        final(identity).private_key_hex == old(identity).private_key_hex,
        final(identity).pub_key_hex == old(identity).pub_key_hex,
        final(identity).stripe_account_id == old(identity).stripe_account_id,
{
    identity.addie_uuid = Some(uuid);
}

/// Refusal when an identity has no payout user.
pub open spec fn missing_uuid_text() -> Seq<char> {
    "Addie identity missing uuid"@
}

/// The payout user of the identity.
pub fn addie_uuid_of(identity: &AddieIdentity) -> (r: Result<String, String>)
    ensures
        match identity.addie_uuid {
            Some(u) => r == Ok::<String, String>(u),
            None => r matches Err(e) && e@ == missing_uuid_text(),
        },
{
    match &identity.addie_uuid {
        Some(u) => Ok(u.clone()),
        None => Err(String::from_str("Addie identity missing uuid")),
    }
}

/// Records the Stripe account requested for the identity, so that a retry
/// does not create another one.
pub fn record_stripe_account(identity: &mut AddieIdentity, stripe_account_id: String)
    ensures
        final(identity).stripe_account_id == Some(stripe_account_id),
        final(identity).private_key_hex == old(identity).private_key_hex,
        final(identity).pub_key_hex == old(identity).pub_key_hex,
        final(identity).addie_uuid == old(identity).addie_uuid,
{
    identity.stripe_account_id = Some(stripe_account_id);
}

/// What starting a Stripe connection reports back.
pub fn connect_result(onboarding_url: Option<String>, already_connected: bool) -> (r: StripeConnectResult)
    ensures
        r.onboarding_url == onboarding_url,
        r.already_connected == already_connected,
{
    StripeConnectResult { onboarding_url, already_connected }
}

} // verus!
