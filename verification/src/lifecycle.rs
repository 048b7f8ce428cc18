//! The life of an invoice record: creation, publication links, status
//! changes, estimate conversion, and online-payment polling.

use vstd::prelude::*;
use crate::model::{
    default_currency, default_currency_text, AddieIdentity, DocumentKind, Invoice, InvoiceStatus,
};
use crate::string_map::StringMap;
use crate::text::str_eq;
use crate::keys::{hex_text, signature_of, Signer};

verus! {

/// Gateway serving published invoice records.
pub const GATEWAY_BDO_URL: &'static str = "https://dev.8as.world/bdo/";

/// Gateway serving the payout service.
pub const GATEWAY_ADDIE_URL: &'static str = "https://dev.8as.world/addie/";

/// Where a published invoice is viewed.
pub const SAVAGE_URL: &'static str = "https://dev.8as.world/savage/";

/// Where an invoice is paid online.
pub const EUMACHIA_PAY_URL: &'static str = "https://dev.8as.world/eumachia/pay/";

/// The record hash under which invoices are published.
pub const BDO_HASH: &'static str = "gelder-invoice";

/// The gateway deployment that cached record uuids belong to.
pub const GATEWAY_ENV: &'static str = "dev-8as-world";

/// Where Stripe sends the user back after onboarding.
pub const STRIPE_ONBOARDING_RETURN_URL: &'static str = "gelder://stripe-return";

/// The status a new document starts in.
pub open spec fn initial_status_of(kind: DocumentKind) -> InvoiceStatus {
    match kind {
        DocumentKind::Invoice => InvoiceStatus::Pending,
        DocumentKind::Estimate => InvoiceStatus::Active,
    }
}

/// The status a new document starts in: `Pending` for an invoice, `Active`
/// for an estimate.
pub fn initial_status(kind: DocumentKind) -> (r: InvoiceStatus)
    ensures
        r == initial_status_of(kind),
{
    match kind {
        DocumentKind::Invoice => InvoiceStatus::Pending,
        DocumentKind::Estimate => InvoiceStatus::Active,
    }
}

/// The payout key a new invoice snapshots: the identity's public key, only
/// when Stripe is connected on it.
pub fn creator_pub_key(identity: Option<AddieIdentity>) -> (r: Option<String>)
    ensures
        r == (match identity {
            Some(i) => if i.stripe_account_id is Some { Some(i.pub_key_hex) } else { None },
            None => None,
        }),
{
    match identity {
        Some(i) => {
            if i.stripe_account_id.is_some() {
                Some(i.pub_key_hex)
            } else {
                None
            }
        },
        None => None,
    }
}

/// A newly created, not yet published document.
pub fn new_invoice(
    id: String,
    kind: Option<DocumentKind>,
    description: String,
    amount_cents: u64,
    to_name: Option<String>,
    from_name: Option<String>,
    work_performed_at: String,
    due_date: Option<String>,
    creator_addie_pub_key: Option<String>,
    created_at: String,
) -> (r: Invoice)
    ensures
        r.id == id,
        r.kind == (match kind { Some(k) => k, None => DocumentKind::Invoice }),
        r.description == description,
        r.amount_cents == amount_cents,
        r.currency@ == default_currency_text(),
        r.from_name == from_name,
        r.to_name == to_name,
        r.bdo_uuid_by_env.view() == Map::<Seq<char>, String>::empty(),
        r.share_url.is_none(),
        r.pay_url.is_none(),
        r.creator_addie_pub_key == creator_addie_pub_key,
        r.status == initial_status_of(r.kind),
        r.due_date == due_date,
        r.status_note.is_none(),
        r.paid_at.is_none(),
        r.converted_to_invoice_id.is_none(),
        r.work_performed_at == work_performed_at,
        r.created_at == created_at,
        !r.legacy_paid,
{
    let kind = match kind {
        Some(k) => k,
        None => DocumentKind::Invoice,
    };
    Invoice {
        id,
        kind,
        description,
        amount_cents,
        currency: default_currency(),
        from_name,
        to_name,
        bdo_uuid_by_env: StringMap::new(),
        share_url: None,
        pay_url: None,
        creator_addie_pub_key,
        status: initial_status(kind),
        due_date,
        status_note: None,
        paid_at: None,
        converted_to_invoice_id: None,
        work_performed_at,
        created_at,
        legacy_paid: false,
    }
}

/// The message a publication link is signed over: timestamp, uuid, hash.
pub open spec fn signing_message_text(timestamp: Seq<char>, uuid: Seq<char>) -> Seq<char> {
    timestamp + uuid + BDO_HASH@
}

/// The link for viewing a published invoice.
pub open spec fn share_url_text(uuid: Seq<char>, timestamp: Seq<char>, signature: Seq<char>) -> Seq<char> {
    SAVAGE_URL@ + "user/"@ + uuid + "/bdo?timestamp="@ + timestamp + "&hash="@ + BDO_HASH@ + "&signature="@
        + signature
}

/// The link for paying a published invoice.
pub open spec fn pay_url_text(uuid: Seq<char>, timestamp: Seq<char>, signature: Seq<char>) -> Seq<char> {
    EUMACHIA_PAY_URL@ + uuid + "?hash="@ + BDO_HASH@ + "&timestamp="@ + timestamp + "&signature="@ + signature
}

/// Where the payment state of a published invoice is polled.
pub open spec fn status_url_text(uuid: Seq<char>) -> Seq<char> {
    EUMACHIA_PAY_URL@ + uuid + "/status"@
}

/// The message to sign for publication links.
pub fn signing_message(timestamp: &str, uuid: &str) -> (r: String)
    ensures
        r@ == signing_message_text(timestamp@, uuid@),
{
    let mut r = String::from_str(timestamp);
    r.append(uuid);
    r.append(BDO_HASH);
    r
}

/// The view link of a published invoice.
pub fn share_url(uuid: &str, timestamp: &str, signature: &str) -> (r: String)
    ensures
        r@ == share_url_text(uuid@, timestamp@, signature@),
{
    let mut r = String::from_str(SAVAGE_URL);
    r.append("user/");
    r.append(uuid);
    r.append("/bdo?timestamp=");
    r.append(timestamp);
    r.append("&hash=");
    r.append(BDO_HASH);
    r.append("&signature=");
    r.append(signature);
    r
}

/// The pay link of a published invoice.
pub fn pay_url(uuid: &str, timestamp: &str, signature: &str) -> (r: String)
    ensures
        r@ == pay_url_text(uuid@, timestamp@, signature@),
{
    let mut r = String::from_str(EUMACHIA_PAY_URL);
    r.append(uuid);
    r.append("?hash=");
    r.append(BDO_HASH);
    r.append("&timestamp=");
    r.append(timestamp);
    r.append("&signature=");
    r.append(signature);
    r
}

/// The payment-status endpoint of a published invoice.
pub fn status_url(uuid: &str) -> (r: String)
    ensures
        r@ == status_url_text(uuid@),
{
    let mut r = String::from_str(EUMACHIA_PAY_URL);
    r.append(uuid);
    r.append("/status");
    r
}

/// Every field but the published-record uuids and the two links is the same
/// in both records.
pub open spec fn same_but_links(a: Invoice, b: Invoice) -> bool {
    a == (Invoice { bdo_uuid_by_env: a.bdo_uuid_by_env, share_url: a.share_url, pay_url: a.pay_url, ..b })
}

/// Records where a document was published: its record uuid under the current
/// environment, its view link, and (for invoices only; estimates are not
/// payable) its pay link.
pub fn stamp_publication(invoice: &mut Invoice, uuid: String, share: String, pay: String)
    ensures
        final(invoice).bdo_uuid_by_env.view() == old(invoice).bdo_uuid_by_env.view().insert(GATEWAY_ENV@, uuid),
        final(invoice).share_url == Some(share),
        final(invoice).pay_url == (if old(invoice).kind == DocumentKind::Invoice { Some(pay) } else { old(invoice).pay_url }),
        same_but_links(*final(invoice), *old(invoice)),
{
    invoice.bdo_uuid_by_env.insert(String::from_str(GATEWAY_ENV), uuid);
    invoice.share_url = Some(share);
    if invoice.kind == DocumentKind::Invoice {
        invoice.pay_url = Some(pay);
    }
}

/// The hex signature that publication links carry: the signature by `key` of
/// timestamp, uuid and hash.
pub open spec fn link_signature(key: Seq<u8>, timestamp: Seq<char>, uuid: Seq<char>) -> Seq<char> {
    hex_text(signature_of(key, signing_message_text(timestamp, uuid)))
}

/// Signs the publication of `invoice` as record `uuid` at `timestamp` with
/// the invoice's own key, and stamps the signed view and pay links on it.
pub fn attach_publication(invoice: &mut Invoice, signer: &Signer, uuid: String, timestamp: &str)
    ensures
        final(invoice).bdo_uuid_by_env.view() == old(invoice).bdo_uuid_by_env.view().insert(GATEWAY_ENV@, uuid),
        final(invoice).share_url matches Some(s) && s@ == share_url_text(
            uuid@,
            timestamp@,
            link_signature(signer@, timestamp@, uuid@),
        ),
        old(invoice).kind != DocumentKind::Invoice ==> final(invoice).pay_url == old(invoice).pay_url,
        old(invoice).kind == DocumentKind::Invoice ==> (final(invoice).pay_url matches Some(p) && p@
            == pay_url_text(uuid@, timestamp@, link_signature(signer@, timestamp@, uuid@))),
        same_but_links(*final(invoice), *old(invoice)),
{
    let message = signing_message(timestamp, uuid.as_str());
    let signature = signer.sign_hex(message.as_str());
    let share = share_url(uuid.as_str(), timestamp, signature.as_str());
    let pay = pay_url(uuid.as_str(), timestamp, signature.as_str());
    stamp_publication(invoice, uuid, share, pay);
}

/// Whether the record has been published under the current environment.
pub fn is_published_here(invoice: &Invoice) -> (r: bool)
    ensures
        r == invoice.bdo_uuid_by_env.view().dom().contains(GATEWAY_ENV@),
{
    invoice.bdo_uuid_by_env.contains_key(GATEWAY_ENV)
}

/// Refusal to update a record published under another environment.
pub open spec fn not_published_here_text() -> Seq<char> {
    "This invoice was published under a different environment and can't be updated from here."@
}

/// The uuid under which the record is published in the current environment;
/// a record of another environment is never republished under this one.
pub fn published_uuid(invoice: &Invoice) -> (r: Result<String, String>)
    ensures
        invoice.bdo_uuid_by_env.view().dom().contains(GATEWAY_ENV@) ==> r == Ok::<String, String>(
            invoice.bdo_uuid_by_env.view()[GATEWAY_ENV@],
        ),
        !invoice.bdo_uuid_by_env.view().dom().contains(GATEWAY_ENV@) ==> (r matches Err(e) && e@
            == not_published_here_text()),
{
    match invoice.bdo_uuid_by_env.get(GATEWAY_ENV) {
        Some(u) => Ok(u.clone()),
        None => Err(
            String::from_str(
                "This invoice was published under a different environment and can't be updated from here.",
            ),
        ),
    }
}

/// After publication is stamped, the record is found published here under
/// the stamped uuid.
pub proof fn lemma_stamped_record_found(before: Map<Seq<char>, String>, uuid: String)
    ensures
        before.insert(GATEWAY_ENV@, uuid).dom().contains(GATEWAY_ENV@),
        before.insert(GATEWAY_ENV@, uuid)[GATEWAY_ENV@] == uuid,
{
}

/// Index of the first record whose id is `id`.
pub open spec fn first_with_id(invoices: Seq<Invoice>, id: Seq<char>) -> Option<int> {
    if exists|i: int| 0 <= i < invoices.len() && invoices[i].id@ == id {
        Some(choose|i: int| 0 <= i < invoices.len() && invoices[i].id@ == id
            && forall|j: int| 0 <= j < i ==> invoices[j].id@ != id)
    } else {
        None
    }
}

/// Position of the first record with id `id`.
pub fn find_invoice(invoices: &Vec<Invoice>, id: &str) -> (r: Option<usize>)
    ensures
        match r {
            Some(i) => i < invoices@.len() && invoices@[i as int].id@ == id@ && forall|j: int|
                0 <= j < i ==> invoices@[j].id@ != id@,
            None => forall|j: int| 0 <= j < invoices@.len() ==> invoices@[j].id@ != id@,
        },
{
    let mut i: usize = 0;
    while i < invoices.len()
        invariant
            i <= invoices.len(),
            forall|j: int| 0 <= j < i ==> invoices@[j].id@ != id@,
        decreases invoices.len() - i,
    {
        if str_eq(invoices[i].id.as_str(), id) {
            return Some(i);
        }
        i = i + 1;
    }
    None
}

/// A note is kept only when it is not empty.
pub open spec fn kept_note(note: Option<String>) -> Option<String> {
    match note {
        Some(n) => if n@.len() > 0 { Some(n) } else { None },
        None => None,
    }
}

/// The note stored with a status change: none when the record is reopened
/// (`Pending`), otherwise the given note when it is not empty.
pub open spec fn note_after(status: InvoiceStatus, note: Option<String>) -> Option<String> {
    if status == InvoiceStatus::Pending { None } else { kept_note(note) }
}

/// `paid_at` after a status change: stamped with `now` on a first move to a
/// paid status, kept on a repeated one, cleared on reopening, else unchanged.
pub open spec fn paid_at_after(status: InvoiceStatus, paid_at: Option<String>, now: String) -> Option<String> {
    match status {
        InvoiceStatus::PaidStripe | InvoiceStatus::PaidManual => if paid_at is None { Some(now) } else { paid_at },
        InvoiceStatus::Pending => None,
        _ => paid_at,
    }
}

/// A record after a status change: status, note and `paid_at` follow the
/// change, every other field is kept.
pub open spec fn status_changed(invoice: Invoice, status: InvoiceStatus, note: Option<String>, now: String) -> Invoice {
    Invoice {
        status,
        status_note: note_after(status, note),
        paid_at: paid_at_after(status, invoice.paid_at, now),
        ..invoice
    }
}

/// The reason given with a status change is kept for every status but
/// `Pending` (a cancel, waive or manual payment keeps its note); reopening
/// drops it, and an absent or empty note leaves none.
pub proof fn lemma_status_note(invoice: Invoice, status: InvoiceStatus, note: Option<String>, now: String)
    ensures
        status != InvoiceStatus::Pending && note is Some && note->0@.len() > 0 ==> status_changed(
            invoice,
            status,
            note,
            now,
        ).status_note == note,
        status == InvoiceStatus::Pending ==> status_changed(invoice, status, note, now).status_note is None,
        (note is None || note->0@.len() == 0) ==> status_changed(invoice, status, note, now).status_note is None,
        status_changed(invoice, status, note, now).status == status,
{
}

/// Sets a record's lifecycle status: any status may follow any other (a
/// terminal invoice can be reopened to `Pending`). The note is stored for any
/// status but `Pending`, when not empty; `paid_at` follows `paid_at_after`;
/// every other field is kept.
pub fn apply_status_change(invoice: &mut Invoice, status: InvoiceStatus, note: Option<String>, now: String)
    ensures
        *final(invoice) == status_changed(*old(invoice), status, note, now),
        status != InvoiceStatus::Pending && note is Some && note->0@.len() > 0 ==> final(invoice).status_note
            == note,
        status == InvoiceStatus::Pending ==> final(invoice).status_note is None,
{
    invoice.status = status;
    invoice.status_note = if status == InvoiceStatus::Pending {
        None
    } else {
        match note {
            Some(n) => if n.as_str().is_empty() { None } else { Some(n) },
            None => None,
        }
    };
    match status {
        InvoiceStatus::PaidStripe | InvoiceStatus::PaidManual => {
            if invoice.paid_at.is_none() {
                invoice.paid_at = Some(now);
            }
        },
        InvoiceStatus::Pending => {
            invoice.paid_at = None;
        },
        _ => {},
    }
}

/// Refusal for an unknown record id.
pub open spec fn invoice_not_found_text() -> Seq<char> {
    "Invoice not found"@
}

/// Sets the status of the first record with id `id`; returns its index.
pub fn set_invoice_status_in(
    invoices: &mut Vec<Invoice>,
    id: &str,
    status: InvoiceStatus,
    note: Option<String>,
    now: String,
) -> (r: Result<usize, String>)
    ensures
        final(invoices)@.len() == old(invoices)@.len(),
        match r {
            Ok(i) => {
                &&& i < old(invoices)@.len()
                &&& old(invoices)@[i as int].id@ == id@
                &&& forall|j: int| 0 <= j < i ==> old(invoices)@[j].id@ != id@
                &&& final(invoices)@[i as int] == status_changed(old(invoices)@[i as int], status, note, now)
                &&& forall|j: int| 0 <= j < old(invoices)@.len() && j != i ==> final(invoices)@[j] == old(invoices)@[j]
            },
            Err(e) => {
                &&& e@ == invoice_not_found_text()
                &&& forall|j: int| 0 <= j < old(invoices)@.len() ==> old(invoices)@[j].id@ != id@
                &&& final(invoices)@ == old(invoices)@
            },
        },
{
    match find_invoice(invoices, id) {
        Some(i) => {
            let mut record = invoices.remove(i);
            apply_status_change(&mut record, status, note, now);
            invoices.insert(i, record);
            Ok(i)
        },
        None => Err(String::from_str("Invoice not found")),
    }
}

/// Why an estimate cannot be converted.
pub open spec fn conversion_refusal(invoices: Seq<Invoice>, id: Seq<char>) -> Option<Seq<char>> {
    match first_with_id(invoices, id) {
        None => Some("Estimate not found"@),
        Some(i) => if invoices[i].kind != DocumentKind::Estimate {
            Some("Only estimates can be converted to invoices."@)
        } else if invoices[i].status == InvoiceStatus::Converted {
            Some("This estimate has already been converted."@)
        } else {
            None
        },
    }
}

/// An index holding `id` with no earlier record holding it is the one that
/// `first_with_id` names.
pub proof fn lemma_first_with_id(invoices: Seq<Invoice>, id: Seq<char>, i: int)
    requires
        0 <= i < invoices.len(),
        invoices[i].id@ == id,
        forall|j: int| 0 <= j < i ==> invoices[j].id@ != id,
    ensures
        first_with_id(invoices, id) == Some(i),
{
    let k = choose|k: int| 0 <= k < invoices.len() && invoices[k].id@ == id
        && forall|j: int| 0 <= j < k ==> invoices[j].id@ != id;
    assert(0 <= k < invoices.len() && invoices[k].id@ == id);
    if k < i {
        assert(invoices[k].id@ != id);
    }
    if i < k {
        assert(invoices[i].id@ != id);
    }
}

/// Finds the estimate to convert: the first record with id `id`, which must
/// be an estimate not converted yet.
pub fn check_convertible(invoices: &Vec<Invoice>, id: &str) -> (r: Result<usize, String>)
    ensures
        match r {
            Ok(i) => first_with_id(invoices@, id@) == Some(i as int) && conversion_refusal(invoices@, id@).is_none(),
            Err(e) => conversion_refusal(invoices@, id@) == Some(e@),
        },
{
    match find_invoice(invoices, id) {
        None => {
            assert(!exists|i: int| 0 <= i < invoices@.len() && invoices@[i].id@ == id@);
            Err(String::from_str("Estimate not found"))
        },
        Some(i) => {
            proof {
                lemma_first_with_id(invoices@, id@, i as int);
            }
            if invoices[i].kind != DocumentKind::Estimate {
                Err(String::from_str("Only estimates can be converted to invoices."))
            } else if invoices[i].status == InvoiceStatus::Converted {
                Err(String::from_str("This estimate has already been converted."))
            } else {
                Ok(i)
            }
        },
    }
}

fn clone_opt(o: &Option<String>) -> (r: Option<String>)
    ensures
        r == *o,
{
    match o {
        Some(s) => Some(s.clone()),
        None => None,
    }
}

/// The invoice made from an estimate: same description, amount, parties and
/// work date; a fresh id, its own due date, invoice kind.
pub fn invoice_from_estimate(
    estimate: &Invoice,
    id: String,
    due_date: Option<String>,
    creator_addie_pub_key: Option<String>,
    created_at: String,
) -> (r: Invoice)
    ensures
        r.id == id,
        r.kind == DocumentKind::Invoice,
        r.status == InvoiceStatus::Pending,
        r.description == estimate.description,
        r.amount_cents == estimate.amount_cents,
        r.to_name == estimate.to_name,
        r.from_name == estimate.from_name,
        r.work_performed_at == estimate.work_performed_at,
        r.due_date == due_date,
        r.currency@ == default_currency_text(),
        r.creator_addie_pub_key == creator_addie_pub_key,
        r.created_at == created_at,
        r.bdo_uuid_by_env.view() == Map::<Seq<char>, String>::empty(),
        r.share_url.is_none(),
        r.pay_url.is_none(),
        r.status_note.is_none(),
        r.paid_at.is_none(),
        r.converted_to_invoice_id.is_none(),
        !r.legacy_paid,
{
    new_invoice(
        id,
        Some(DocumentKind::Invoice),
        estimate.description.clone(),
        estimate.amount_cents,
        clone_opt(&estimate.to_name),
        clone_opt(&estimate.from_name),
        estimate.work_performed_at.clone(),
        due_date,
        creator_addie_pub_key,
        created_at,
    )
}

/// Marks the first record with id `id` as converted into invoice
/// `new_invoice_id`; returns its index, or `None` when no record has that id.
pub fn mark_converted(invoices: &mut Vec<Invoice>, id: &str, new_invoice_id: String) -> (r: Option<usize>)
    ensures
        final(invoices)@.len() == old(invoices)@.len(),
        match r {
            Some(i) => {
                &&& first_with_id(old(invoices)@, id@) == Some(i as int)
                &&& final(invoices)@[i as int] == (Invoice {
                    status: InvoiceStatus::Converted,
                    converted_to_invoice_id: Some(new_invoice_id),
                    ..old(invoices)@[i as int]
                })
                &&& forall|j: int| 0 <= j < old(invoices)@.len() && j != i ==> final(invoices)@[j] == old(invoices)@[j]
            },
            None => first_with_id(old(invoices)@, id@).is_none() && final(invoices)@ == old(invoices)@,
        },
{
    match find_invoice(invoices, id) {
        Some(i) => {
            proof {
                lemma_first_with_id(invoices@, id@, i as int);
            }
            let mut record = invoices.remove(i);
            record.status = InvoiceStatus::Converted;
            record.converted_to_invoice_id = Some(new_invoice_id);
            invoices.insert(i, record);
            Some(i)
        },
        None => {
            assert(!exists|i: int| 0 <= i < invoices@.len() && invoices@[i].id@ == id@);
            None
        },
    }
}

/// Refusal to poll a record published under another environment.
pub open spec fn not_checkable_here_text() -> Seq<char> {
    "This invoice was published under a different environment and can't be checked from here."@
}

/// What polling for an online payment should do for record `id`: nothing
/// (`Ok(None)`) unless it is pending; otherwise poll its status endpoint
/// (`Ok(Some((index, url)))`).
pub fn payment_check_target(invoices: &Vec<Invoice>, id: &str) -> (r: Result<Option<(usize, String)>, String>)
    ensures
        match first_with_id(invoices@, id@) {
            None => (r matches Err(e) && e@ == invoice_not_found_text()),
            Some(i) => if invoices@[i].status != InvoiceStatus::Pending {
                r == Ok::<Option<(usize, String)>, String>(None)
            } else if !invoices@[i].bdo_uuid_by_env.view().dom().contains(GATEWAY_ENV@) {
                (r matches Err(e) && e@ == not_checkable_here_text())
            } else {
                (r matches Ok(Some((k, url))) && k == i && url@ == status_url_text(
                    invoices@[i].bdo_uuid_by_env.view()[GATEWAY_ENV@]@,
                ))
            },
        },
{
    match find_invoice(invoices, id) {
        None => {
            assert(!exists|i: int| 0 <= i < invoices@.len() && invoices@[i].id@ == id@);
            Err(String::from_str("Invoice not found"))
        },
        Some(i) => {
            proof {
                lemma_first_with_id(invoices@, id@, i as int);
            }
            if invoices[i].status != InvoiceStatus::Pending {
                return Ok(None);
            }
            match invoices[i].bdo_uuid_by_env.get(GATEWAY_ENV) {
                Some(uuid) => Ok(Some((i, status_url(uuid.as_str())))),
                None => Err(
                    String::from_str(
                        "This invoice was published under a different environment and can't be checked from here.",
                    ),
                ),
            }
        },
    }
}

/// Whether a poll reply reports a payment: only a successful reply whose
/// `paid` field is `true` does.
pub fn payment_reported(reply_ok: bool, paid_field: Option<bool>) -> (r: bool)
    ensures
        r == (reply_ok && paid_field == Some(true)),
{
    reply_ok && match paid_field {
        Some(p) => p,
        None => false,
    }
}

/// Records a payment discovered online.
pub fn record_stripe_payment(invoice: &mut Invoice, now: String)
    ensures
        *final(invoice) == (Invoice { status: InvoiceStatus::PaidStripe, paid_at: Some(now), ..*old(invoice) }),
{
    invoice.status = InvoiceStatus::PaidStripe;
    invoice.paid_at = Some(now);
}

} // verus!
