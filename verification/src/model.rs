//! The records the app keeps: invoices and estimates, payout identity, and the
//! shared canonical profile.

use vstd::prelude::*;
use crate::string_map::StringMap;

verus! {

/// Whether a document is a billable Invoice or a prospective Estimate.
/// Both share the same record and differ in the status transitions allowed
/// and the actions offered. Estimates can be converted into invoices;
/// invoices cannot become estimates.
#[derive(Clone, Copy, Debug, PartialEq, Eq, Structural)]
pub enum DocumentKind {
    Invoice,
    Estimate,
}

impl Default for DocumentKind {
    fn default() -> (r: Self)
        ensures
            r == DocumentKind::Invoice,
    {
        DocumentKind::Invoice
    }
}

/// Lifecycle state of an invoice or estimate.
///
/// - Invoice: `Pending` (default), then one of `PaidStripe`, `PaidManual`,
///   `Waived`, `Canceled`; any of these can be moved back to `Pending`.
/// - Estimate: `Active`, then `Converted` once an invoice was made from it.
///
/// "Past due" is not stored: it is derived from `Pending` and the due date.
#[derive(Clone, Copy, Debug, PartialEq, Eq, Structural)]
pub enum InvoiceStatus {
    Pending,
    PaidStripe,
    PaidManual,
    Waived,
    Canceled,
    Active,
    Converted,
}

impl Default for InvoiceStatus {
    fn default() -> (r: Self)
        ensures
            r == InvoiceStatus::Pending,
    {
        InvoiceStatus::Pending
    }
}

/// An invoice or an estimate.
#[derive(Debug, Clone)]
pub struct Invoice {
    pub id: String,
    /// `Invoice` unless the record is a prospective quote.
    pub kind: DocumentKind,
    pub description: String,
    pub amount_cents: u64,
    pub currency: String,
    /// Snapshotted from the canonical profile at creation time.
    pub from_name: Option<String>,
    pub to_name: Option<String>,
    /// Published-record uuid, keyed by gateway environment.
    pub bdo_uuid_by_env: StringMap<String>,
    /// Permanent URL for viewing the invoice.
    pub share_url: Option<String>,
    /// Permanent URL for paying the invoice online (invoices only).
    pub pay_url: Option<String>,
    /// Payout public key snapshotted at creation time when payouts were connected.
    pub creator_addie_pub_key: Option<String>,
    pub status: InvoiceStatus,
    /// Optional due date, epoch milliseconds as a decimal string.
    pub due_date: Option<String>,
    /// Reason attached to a status change.
    pub status_note: Option<String>,
    pub paid_at: Option<String>,
    /// On a converted estimate: the id of the invoice made from it.
    pub converted_to_invoice_id: Option<String>,
    /// When the invoiced work was performed (epoch milliseconds).
    pub work_performed_at: String,
    pub created_at: String,
    /// Old records stored `paid: true` instead of a status.
    pub legacy_paid: bool,
}

/// The currency every new invoice is made in.
pub open spec fn default_currency_text() -> Seq<char> {
    seq!['u', 's', 'd']
}

/// The currency every new invoice is made in: "usd".
pub fn default_currency() -> (r: String)
    ensures
        r@ == default_currency_text(),
{
    let r = String::from_str("usd");
    proof {
        reveal_strlit("usd");
    }
    r
}

impl Default for Invoice {
    fn default() -> (r: Self)
        ensures
            r.id@ == Seq::<char>::empty(),
            r.kind == DocumentKind::Invoice,
            r.description@ == Seq::<char>::empty(),
            r.amount_cents == 0,
            r.currency@ == Seq::<char>::empty(),
            r.from_name.is_none(),
            r.to_name.is_none(),
            r.bdo_uuid_by_env.view() == Map::<Seq<char>, String>::empty(),
            r.share_url.is_none(),
            r.pay_url.is_none(),
            r.creator_addie_pub_key.is_none(),
            r.status == InvoiceStatus::Pending,
            r.due_date.is_none(),
            r.status_note.is_none(),
            r.paid_at.is_none(),
            r.converted_to_invoice_id.is_none(),
            r.work_performed_at@ == Seq::<char>::empty(),
            r.created_at@ == Seq::<char>::empty(),
            !r.legacy_paid,
    {
        Invoice {
            id: String::new(),
            kind: DocumentKind::Invoice,
            description: String::new(),
            amount_cents: 0,
            currency: String::new(),
            from_name: None,
            to_name: None,
            bdo_uuid_by_env: StringMap::new(),
            share_url: None,
            pay_url: None,
            creator_addie_pub_key: None,
            status: InvoiceStatus::Pending,
            due_date: None,
            status_note: None,
            paid_at: None,
            converted_to_invoice_id: None,
            work_performed_at: String::new(),
            created_at: String::new(),
            legacy_paid: false,
        }
    }
}

/// The status an old record gets on read: a legacy paid flag on a pending
/// record becomes `PaidStripe`; any other status is kept.
pub open spec fn migrated_status(status: InvoiceStatus, legacy_paid: bool) -> InvoiceStatus {
    if legacy_paid && status == InvoiceStatus::Pending {
        InvoiceStatus::PaidStripe
    } else {
        status
    }
}

/// Every field but `status` and `legacy_paid` is the same in both records.
pub open spec fn same_but_status(a: Invoice, b: Invoice) -> bool {
    &&& a.id == b.id
    &&& a.kind == b.kind
    &&& a.description == b.description
    &&& a.amount_cents == b.amount_cents
    &&& a.currency == b.currency
    &&& a.from_name == b.from_name
    &&& a.to_name == b.to_name
    &&& a.bdo_uuid_by_env == b.bdo_uuid_by_env
    &&& a.share_url == b.share_url
    &&& a.pay_url == b.pay_url
    &&& a.creator_addie_pub_key == b.creator_addie_pub_key
    &&& a.due_date == b.due_date
    &&& a.status_note == b.status_note
    &&& a.paid_at == b.paid_at
    &&& a.converted_to_invoice_id == b.converted_to_invoice_id
    &&& a.work_performed_at == b.work_performed_at
    &&& a.created_at == b.created_at
}

impl Invoice {
    /// One-shot migration of an old `{paid: true/false}` record to a status:
    /// paid becomes `PaidStripe` unless the record already carries a
    /// non-pending status; the legacy flag is cleared.
    pub fn migrate_legacy_status(&mut self)
        ensures
            final(self).status == migrated_status(old(self).status, old(self).legacy_paid),
            !final(self).legacy_paid,
            same_but_status(*final(self), *old(self)),
    {
        if self.legacy_paid && self.status == InvoiceStatus::Pending {
            self.status = InvoiceStatus::PaidStripe;
        }
        self.legacy_paid = false;
    }

    /// True for any status that means "no more money coming via Stripe":
    /// every status but `Pending`.
    pub fn is_terminal(&self) -> (r: bool)
        ensures
            r == (self.status != InvoiceStatus::Pending),
    {
        self.status != InvoiceStatus::Pending
    }
}

/// Migrating a record twice is the same as migrating it once.
pub proof fn lemma_migration_idempotent(status: InvoiceStatus, legacy_paid: bool)
    ensures
        migrated_status(migrated_status(status, legacy_paid), false) == migrated_status(status, legacy_paid),
        migrated_status(status, false) == status,
        status != InvoiceStatus::Pending ==> migrated_status(status, legacy_paid) == status,
{
}

/// Migrates every record of a freshly read store.
pub fn migrate_legacy_statuses(invoices: &mut Vec<Invoice>)
    ensures
        final(invoices)@.len() == old(invoices)@.len(),
        forall|i: int|
            0 <= i < old(invoices)@.len() ==> {
                &&& (#[trigger] final(invoices)@[i]).status == migrated_status(
                    old(invoices)@[i].status,
                    old(invoices)@[i].legacy_paid,
                )
                &&& !final(invoices)@[i].legacy_paid
                &&& same_but_status(final(invoices)@[i], old(invoices)@[i])
            },
{
    let ghost before = invoices@;
    let mut i: usize = 0;
    while i < invoices.len()
        invariant
            i <= invoices@.len(),
            invoices@.len() == before.len(),
            forall|j: int|
                0 <= j < i ==> {
                    &&& (#[trigger] invoices@[j]).status == migrated_status(
                        before[j].status,
                        before[j].legacy_paid,
                    )
                    &&& !invoices@[j].legacy_paid
                    &&& same_but_status(invoices@[j], before[j])
                },
            forall|j: int| i <= j < invoices@.len() ==> #[trigger] invoices@[j] == before[j],
        decreases invoices@.len() - i,
    {
        let legacy = invoices[i].legacy_paid;
        let pending = invoices[i].status == InvoiceStatus::Pending;
        let new_status = if legacy && pending { InvoiceStatus::PaidStripe } else { invoices[i].status };
        let mut record = invoices.remove(i);
        record.status = new_status;
        record.legacy_paid = false;
        invoices.insert(i, record);
        i = i + 1;
    }
}

/// Payout connection state shown to the user.
#[derive(Clone, Debug)]
pub struct PayoutStatus {
    pub connected: bool,
    pub pub_key: Option<String>,
}

/// What starting a Stripe connection gave back.
#[derive(Clone, Debug)]
pub struct StripeConnectResult {
    /// Absent only when an already-connected account was found.
    pub onboarding_url: Option<String>,
    pub already_connected: bool,
}

/// One named field of the canonical profile.
#[derive(Clone, Debug)]
pub struct CanonicalField {
    pub slug: String,
    pub name: String,
    pub value: String,
}

/// A postal address on the canonical profile.
#[derive(Clone, Debug)]
pub struct Address {
    pub street: String,
    pub unit: Option<String>,
    pub city: String,
    pub state: String,
    pub zip: String,
}

/// The profile record that sibling apps share.
#[derive(Clone, Debug)]
pub struct CanonicalProfile {
    pub photo: Option<String>,
    pub fields: Vec<CanonicalField>,
    pub address: Option<Address>,
    pub idothis_categories: Option<Vec<String>>,
    pub service_zip: Option<String>,
    pub idothis_rate_cents: Option<u64>,
    /// `None` means "never set", which is not the same as `Some(false)`.
    pub stripe_connected: Option<bool>,
    pub updated_at: Option<String>,
}

/// A stored per-invoice signing key pair, hex encoded.
#[derive(Clone, Debug)]
pub struct BdoKeypair {
    pub private_key_hex: String,
    pub pub_key_hex: String,
}

/// The app-wide payout identity.
#[derive(Clone, Debug)]
pub struct AddieIdentity {
    pub private_key_hex: String,
    pub pub_key_hex: String,
    pub addie_uuid: Option<String>,
    pub stripe_account_id: Option<String>,
}

} // verus!
