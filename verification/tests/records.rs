use gelder::model::{default_currency, DocumentKind, Invoice, InvoiceStatus};
use gelder::model::migrate_legacy_statuses;
use gelder::string_map::StringMap;

fn record(status: InvoiceStatus, legacy_paid: bool) -> Invoice {
    let mut inv = Invoice::default();
    inv.id = "inv-1".to_string();
    inv.status = status;
    inv.legacy_paid = legacy_paid;
    inv
}

#[test]
fn default_currency_is_usd() {
    assert_eq!(default_currency(), "usd");
}

#[test]
fn defaults() {
    assert_eq!(DocumentKind::default(), DocumentKind::Invoice);
    assert_eq!(InvoiceStatus::default(), InvoiceStatus::Pending);
    let inv = Invoice::default();
    assert_eq!(inv.status, InvoiceStatus::Pending);
    assert_eq!(inv.kind, DocumentKind::Invoice);
    assert_eq!(inv.amount_cents, 0);
    assert_eq!(inv.bdo_uuid_by_env.len(), 0);
}

#[test]
fn legacy_paid_pending_becomes_paid_stripe() {
    let mut inv = record(InvoiceStatus::Pending, true);
    inv.migrate_legacy_status();
    assert_eq!(inv.status, InvoiceStatus::PaidStripe);
    assert!(!inv.legacy_paid);
}

#[test]
fn migration_keeps_other_statuses() {
    for s in [InvoiceStatus::Waived, InvoiceStatus::Canceled, InvoiceStatus::PaidManual, InvoiceStatus::Active] {
        let mut inv = record(s, true);
        inv.migrate_legacy_status();
        assert_eq!(inv.status, s);
        assert!(!inv.legacy_paid);
    }
    let mut unpaid = record(InvoiceStatus::Pending, false);
    unpaid.migrate_legacy_status();
    assert_eq!(unpaid.status, InvoiceStatus::Pending);
}

#[test]
fn migration_is_idempotent() {
    let mut inv = record(InvoiceStatus::Pending, true);
    inv.migrate_legacy_status();
    let after_once = inv.status;
    inv.migrate_legacy_status();
    assert_eq!(inv.status, after_once);
}

#[test]
fn migrating_a_store() {
    let mut all = vec![
        record(InvoiceStatus::Pending, true),
        record(InvoiceStatus::Pending, false),
        record(InvoiceStatus::Canceled, true),
    ];
    migrate_legacy_statuses(&mut all);
    assert_eq!(all[0].status, InvoiceStatus::PaidStripe);
    assert_eq!(all[1].status, InvoiceStatus::Pending);
    assert_eq!(all[2].status, InvoiceStatus::Canceled);
    assert!(all.iter().all(|i| !i.legacy_paid));
}

#[test]
fn terminal_means_not_pending() {
    assert!(!record(InvoiceStatus::Pending, false).is_terminal());
    for s in [
        InvoiceStatus::PaidStripe,
        InvoiceStatus::PaidManual,
        InvoiceStatus::Waived,
        InvoiceStatus::Canceled,
        InvoiceStatus::Active,
        InvoiceStatus::Converted,
    ] {
        assert!(record(s, false).is_terminal());
    }
}

#[test]
fn string_map_reads_what_was_written() {
    let mut m: StringMap<String> = StringMap::new();
    assert_eq!(m.get("a"), None);
    m.insert("a".to_string(), "1".to_string());
    m.insert("b".to_string(), "2".to_string());
    assert_eq!(m.get("a"), Some(&"1".to_string()));
    m.insert("a".to_string(), "3".to_string());
    assert_eq!(m.get("a"), Some(&"3".to_string()));
    assert_eq!(m.get("b"), Some(&"2".to_string()));
    assert_eq!(m.len(), 2);
    assert!(m.contains_key("b"));
    assert!(!m.contains_key("c"));
    let copy = m.clone();
    assert_eq!(copy.get("a"), Some(&"3".to_string()));
    assert_eq!(copy.entries().len(), 2);
}
