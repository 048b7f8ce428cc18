use gelder::keys::Signer;
use gelder::lifecycle::{
    attach_publication, check_convertible, creator_pub_key, find_invoice, initial_status, invoice_from_estimate, is_published_here,
    mark_converted, new_invoice, pay_url, payment_check_target, payment_reported, published_uuid,
    record_stripe_payment, set_invoice_status_in, share_url, signing_message, stamp_publication, status_url,
    GATEWAY_ENV,
};
use gelder::model::{AddieIdentity, DocumentKind, Invoice, InvoiceStatus};

fn make(id: &str, kind: DocumentKind) -> Invoice {
    new_invoice(
        id.to_string(),
        Some(kind),
        "Garden work".to_string(),
        5000,
        Some("Client".to_string()),
        Some("Me".to_string()),
        "1700000000000".to_string(),
        None,
        None,
        "1700000000001".to_string(),
    )
}

fn published(id: &str, kind: DocumentKind) -> Invoice {
    let mut inv = make(id, kind);
    stamp_publication(&mut inv, format!("uuid-{}", id), "share".to_string(), "pay".to_string());
    inv
}

#[test]
fn new_documents_start_in_their_kinds_status() {
    assert_eq!(initial_status(DocumentKind::Invoice), InvoiceStatus::Pending);
    assert_eq!(initial_status(DocumentKind::Estimate), InvoiceStatus::Active);
    let inv = new_invoice(
        "1".to_string(), None, "d".to_string(), 1, None, None, "0".to_string(), None, None, "0".to_string(),
    );
    assert_eq!(inv.kind, DocumentKind::Invoice);
    assert_eq!(inv.status, InvoiceStatus::Pending);
    assert_eq!(inv.currency, "usd");
    assert_eq!(make("2", DocumentKind::Estimate).status, InvoiceStatus::Active);
}

#[test]
fn payout_key_only_when_stripe_connected() {
    let connected = AddieIdentity {
        private_key_hex: "k".to_string(),
        pub_key_hex: "pub".to_string(),
        addie_uuid: Some("u".to_string()),
        stripe_account_id: Some("acct".to_string()),
    };
    let mut bare = connected.clone();
    bare.stripe_account_id = None;
    assert_eq!(creator_pub_key(Some(connected)), Some("pub".to_string()));
    assert_eq!(creator_pub_key(Some(bare)), None);
    assert_eq!(creator_pub_key(None), None);
}

#[test]
fn publication_links() {
    assert_eq!(signing_message("123", "abc"), "123abcgelder-invoice");
    assert_eq!(
        share_url("abc", "123", "sig"),
        "https://dev.8as.world/savage/user/abc/bdo?timestamp=123&hash=gelder-invoice&signature=sig"
    );
    assert_eq!(
        pay_url("abc", "123", "sig"),
        "https://dev.8as.world/eumachia/pay/abc?hash=gelder-invoice&timestamp=123&signature=sig"
    );
    assert_eq!(status_url("abc"), "https://dev.8as.world/eumachia/pay/abc/status");
}

#[test]
fn estimates_get_no_pay_link() {
    let inv = published("a", DocumentKind::Invoice);
    assert_eq!(inv.pay_url, Some("pay".to_string()));
    assert_eq!(inv.share_url, Some("share".to_string()));
    let est = published("b", DocumentKind::Estimate);
    assert_eq!(est.pay_url, None);
    assert_eq!(est.share_url, Some("share".to_string()));
}

#[test]
fn stamped_record_is_found_here() {
    let inv = published("a", DocumentKind::Invoice);
    assert!(is_published_here(&inv));
    assert_eq!(published_uuid(&inv), Ok("uuid-a".to_string()));
    assert_eq!(inv.bdo_uuid_by_env.get(GATEWAY_ENV), Some(&"uuid-a".to_string()));
}

#[test]
fn record_of_another_environment_is_refused() {
    let mut inv = make("a", DocumentKind::Invoice);
    inv.bdo_uuid_by_env.insert("other-env".to_string(), "u".to_string());
    assert!(!is_published_here(&inv));
    assert_eq!(
        published_uuid(&inv),
        Err("This invoice was published under a different environment and can't be updated from here.".to_string())
    );
}

#[test]
fn status_changes() {
    let mut all = vec![published("a", DocumentKind::Invoice), published("b", DocumentKind::Invoice)];
    assert_eq!(
        set_invoice_status_in(&mut all, "b", InvoiceStatus::PaidManual, Some("cash".to_string()), "100".to_string()),
        Ok(1)
    );
    assert_eq!(all[1].status, InvoiceStatus::PaidManual);
    assert_eq!(all[1].status_note, Some("cash".to_string()));
    assert_eq!(all[1].paid_at, Some("100".to_string()));
    assert_eq!(all[0].status, InvoiceStatus::Pending);
    // A repeated paid transition keeps the first payment time.
    set_invoice_status_in(&mut all, "b", InvoiceStatus::PaidStripe, None, "200".to_string()).unwrap();
    assert_eq!(all[1].paid_at, Some("100".to_string()));
    assert_eq!(all[1].status_note, None);
    // Waiving keeps paid_at as it was.
    set_invoice_status_in(&mut all, "b", InvoiceStatus::Waived, Some(String::new()), "300".to_string()).unwrap();
    assert_eq!(all[1].paid_at, Some("100".to_string()));
    assert_eq!(all[1].status_note, None);
    // Reopening clears it, and a later payment is stamped afresh.
    set_invoice_status_in(&mut all, "b", InvoiceStatus::Pending, Some("x".to_string()), "400".to_string()).unwrap();
    assert_eq!(all[1].paid_at, None);
    // A note given when reopening is not kept.
    assert_eq!(all[1].status_note, None);
    // Other fields are untouched by status changes.
    assert_eq!(all[1].description, "Garden work");
    assert_eq!(all[1].to_name, Some("Client".to_string()));
    assert_eq!(all[1].share_url, Some("share".to_string()));
    set_invoice_status_in(&mut all, "b", InvoiceStatus::PaidManual, None, "500".to_string()).unwrap();
    assert_eq!(all[1].paid_at, Some("500".to_string()));
}

#[test]
fn unknown_record() {
    let mut all = vec![published("a", DocumentKind::Invoice)];
    assert_eq!(
        set_invoice_status_in(&mut all, "zz", InvoiceStatus::Waived, None, "1".to_string()),
        Err("Invoice not found".to_string())
    );
    assert_eq!(all[0].status, InvoiceStatus::Pending);
    assert_eq!(find_invoice(&all, "a"), Some(0));
    assert_eq!(find_invoice(&all, "b"), None);
}

#[test]
fn first_record_with_an_id_wins() {
    let all = vec![make("x", DocumentKind::Invoice), make("x", DocumentKind::Estimate)];
    assert_eq!(find_invoice(&all, "x"), Some(0));
    assert_eq!(
        check_convertible(&all, "x"),
        Err("Only estimates can be converted to invoices.".to_string())
    );
}

#[test]
fn conversion_checks() {
    let mut all = vec![make("inv", DocumentKind::Invoice), make("est", DocumentKind::Estimate)];
    assert_eq!(check_convertible(&all, "nope"), Err("Estimate not found".to_string()));
    assert_eq!(
        check_convertible(&all, "inv"),
        Err("Only estimates can be converted to invoices.".to_string())
    );
    assert_eq!(check_convertible(&all, "est"), Ok(1));
    let new_inv = invoice_from_estimate(&all[1], "new".to_string(), Some("1800000000000".to_string()), None, "9".to_string());
    assert_eq!(new_inv.kind, DocumentKind::Invoice);
    assert_eq!(new_inv.status, InvoiceStatus::Pending);
    assert_eq!(new_inv.description, "Garden work");
    assert_eq!(new_inv.amount_cents, 5000);
    assert_eq!(new_inv.to_name, Some("Client".to_string()));
    assert_eq!(new_inv.from_name, Some("Me".to_string()));
    assert_eq!(new_inv.work_performed_at, "1700000000000");
    assert_eq!(new_inv.due_date, Some("1800000000000".to_string()));
    assert_eq!(mark_converted(&mut all, "est", "new".to_string()), Some(1));
    assert_eq!(all[1].status, InvoiceStatus::Converted);
    assert_eq!(all[1].converted_to_invoice_id, Some("new".to_string()));
    assert_eq!(
        check_convertible(&all, "est"),
        Err("This estimate has already been converted.".to_string())
    );
    assert_eq!(mark_converted(&mut all, "missing", "n".to_string()), None);
}

#[test]
fn payment_polling() {
    let mut all = vec![published("a", DocumentKind::Invoice), make("b", DocumentKind::Invoice)];
    assert_eq!(payment_check_target(&all, "zz"), Err("Invoice not found".to_string()));
    assert_eq!(
        payment_check_target(&all, "a"),
        Ok(Some((0, "https://dev.8as.world/eumachia/pay/uuid-a/status".to_string())))
    );
    assert_eq!(
        payment_check_target(&all, "b"),
        Err("This invoice was published under a different environment and can't be checked from here.".to_string())
    );
    record_stripe_payment(&mut all[0], "77".to_string());
    assert_eq!(all[0].status, InvoiceStatus::PaidStripe);
    assert_eq!(all[0].paid_at, Some("77".to_string()));
    assert_eq!(all[0].pay_url, Some("pay".to_string()));
    assert_eq!(all[0].amount_cents, 5000);
    assert_eq!(payment_check_target(&all, "a"), Ok(None));
}

#[test]
fn only_a_successful_paid_reply_reports_payment() {
    assert!(payment_reported(true, Some(true)));
    assert!(!payment_reported(true, Some(false)));
    assert!(!payment_reported(true, None));
    assert!(!payment_reported(false, Some(true)));
}

#[test]
fn attached_publication_links_are_signed() {
    let key = "0000000000000000000000000000000000000000000000000000000000000001";
    let session = Signer::from_hex(key).unwrap();
    let signature = session.sign_hex("1700000000000uuid-9gelder-invoice");
    assert_eq!(signature.len(), 128);

    let mut inv = make("9", DocumentKind::Invoice);
    attach_publication(&mut inv, &session, "uuid-9".to_string(), "1700000000000");
    assert_eq!(
        inv.share_url,
        Some(format!(
            "https://dev.8as.world/savage/user/uuid-9/bdo?timestamp=1700000000000&hash=gelder-invoice&signature={}",
            signature
        ))
    );
    assert_eq!(
        inv.pay_url,
        Some(format!(
            "https://dev.8as.world/eumachia/pay/uuid-9?hash=gelder-invoice&timestamp=1700000000000&signature={}",
            signature
        ))
    );
    assert_eq!(published_uuid(&inv), Ok("uuid-9".to_string()));
    assert_eq!(inv.to_name, Some("Client".to_string()));
    assert_eq!(inv.from_name, Some("Me".to_string()));
    assert_eq!(inv.work_performed_at, "1700000000000");
    assert_eq!(inv.currency, "usd");

    let mut est = make("10", DocumentKind::Estimate);
    attach_publication(&mut est, &session, "uuid-10".to_string(), "5");
    assert!(est.share_url.is_some());
    assert_eq!(est.pay_url, None);
    assert!(is_published_here(&est));
    assert_eq!(GATEWAY_ENV, "dev-8as-world");
}
