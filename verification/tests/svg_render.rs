use gelder::lifecycle::new_invoice;
use gelder::model::{DocumentKind, Invoice, InvoiceStatus};
use gelder::svg::{render_invoice_svg, render_invoice_svg_with_amount};

fn pending_invoice() -> Invoice {
    let mut inv = new_invoice(
        "1".to_string(),
        Some(DocumentKind::Invoice),
        "Web work".to_string(),
        12345,
        None,
        None,
        String::new(),
        None,
        None,
        "0".to_string(),
    );
    inv.pay_url = Some("https://pay/x?a=1&b=2".to_string());
    inv
}

fn document(height: u32, body: &str) -> String {
    format!(
        "<svg xmlns=\"http://www.w3.org/2000/svg\" width=\"400\" height=\"{h}\" viewBox=\"0 0 400 {h}\"><rect x=\"0\" y=\"0\" width=\"400\" height=\"{h}\" fill=\"#F7F9FA\"/>{body}</svg>",
        h = height,
        body = body
    )
}

#[test]
fn pending_invoice_with_pay_link() {
    let svg = render_invoice_svg(&pending_invoice());
    let body: String = [
        "<text x=\"200\" y=\"60\" font-family=\"sans-serif\" font-size=\"24\" font-weight=\"bold\" fill=\"#2E5E4E\" text-anchor=\"middle\">Invoice</text>\n",
        "<text x=\"200\" y=\"110\" font-family=\"sans-serif\" font-size=\"34\" font-weight=\"bold\" fill=\"#1F2933\" text-anchor=\"middle\">USD $123.45</text>\n",
        "<text x=\"40\" y=\"150\" font-family=\"sans-serif\" font-size=\"15\" fill=\"#1F2933\">Web work</text>\n",
        "<a href=\"https://pay/x?a=1&amp;b=2\"><rect x=\"40\" y=\"200\" width=\"320\" height=\"48\" rx=\"12\" fill=\"#2E5E4E\"/><text x=\"200\" y=\"230\" font-family=\"sans-serif\" font-size=\"15\" font-weight=\"bold\" fill=\"#FFFFFF\" text-anchor=\"middle\">Pay Online</text></a>\n",
        "<text x=\"200\" y=\"278\" font-family=\"sans-serif\" font-size=\"11\" fill=\"#6B7280\" text-anchor=\"middle\">a HomeVentory offering</text>\n",
    ].concat();
    assert_eq!(svg, document(302, &body));
}

#[test]
fn estimate_with_details_and_badge() {
    let mut inv = pending_invoice();
    inv.kind = DocumentKind::Estimate;
    inv.status = InvoiceStatus::Active;
    inv.pay_url = None;
    inv.from_name = Some("Ann & Co".to_string());
    inv.to_name = Some(String::new());
    inv.work_performed_at = "1700000000000".to_string();
    inv.due_date = Some("951782400000".to_string());
    inv.description = "<b>Fix</b>".to_string();
    let svg = render_invoice_svg_with_amount(&inv, "USD $1.00");
    let body: String = [
        "<text x=\"200\" y=\"60\" font-family=\"sans-serif\" font-size=\"24\" font-weight=\"bold\" fill=\"#4FA3F7\" text-anchor=\"middle\">Estimate</text>\n",
        "<text x=\"40\" y=\"90\" font-family=\"sans-serif\" font-size=\"13\" fill=\"#6B7280\">From: Ann &amp; Co</text>\n",
        "<text x=\"40\" y=\"112\" font-family=\"sans-serif\" font-size=\"13\" fill=\"#6B7280\">Work performed: Nov 14, 2023</text>\n",
        "<text x=\"40\" y=\"134\" font-family=\"sans-serif\" font-size=\"13\" fill=\"#6B7280\">Due: Feb 29, 2000</text>\n",
        "<text x=\"200\" y=\"184\" font-family=\"sans-serif\" font-size=\"34\" font-weight=\"bold\" fill=\"#1F2933\" text-anchor=\"middle\">USD $1.00</text>\n",
        "<text x=\"40\" y=\"224\" font-family=\"sans-serif\" font-size=\"15\" fill=\"#1F2933\">&lt;b&gt;Fix&lt;/b&gt;</text>\n",
        "<rect x=\"40\" y=\"274\" width=\"320\" height=\"48\" rx=\"12\" fill=\"rgba(79,163,247,0.12)\" stroke=\"#4FA3F7\" stroke-width=\"1\"/>\n<text x=\"200\" y=\"304\" font-family=\"sans-serif\" font-size=\"15\" font-weight=\"bold\" fill=\"#4FA3F7\" text-anchor=\"middle\">Estimate</text>\n",
        "<text x=\"200\" y=\"352\" font-family=\"sans-serif\" font-size=\"11\" fill=\"#6B7280\" text-anchor=\"middle\">a HomeVentory offering</text>\n",
    ].concat();
    assert_eq!(svg, document(376, &body));
}

#[test]
fn paid_invoice_shows_a_badge_and_no_pay_link() {
    let mut inv = pending_invoice();
    inv.status = InvoiceStatus::PaidStripe;
    let svg = render_invoice_svg(&inv);
    assert!(svg.contains("fill=\"rgba(46,94,78,0.12)\" stroke=\"#2E5E4E\""));
    assert!(svg.contains(">\u{2705} Paid</text>"));
    assert!(!svg.contains("Pay Online"));
    assert!(svg.contains("height=\"302\""));
}

#[test]
fn every_status_badge() {
    let cases = [
        (InvoiceStatus::PaidManual, "\u{2705} Paid (marked manually)", "rgba(46,94,78,0.12)", "#2E5E4E"),
        (InvoiceStatus::Waived, "Waived", "rgba(184,126,42,0.15)", "#B87E2A"),
        (InvoiceStatus::Canceled, "Canceled", "rgba(255,49,49,0.10)", "#ff3131"),
        (InvoiceStatus::Converted, "Converted to Invoice", "rgba(107,114,128,0.15)", "#6B7280"),
    ];
    for (status, text, bg, fg) in cases {
        let mut inv = pending_invoice();
        inv.status = status;
        let svg = render_invoice_svg(&inv);
        assert!(svg.contains(&format!("fill=\"{}\" stroke=\"{}\" stroke-width=\"1\"/>", bg, fg)));
        assert!(svg.contains(&format!("fill=\"{}\" text-anchor=\"middle\">{}</text>", fg, text)));
    }
}

#[test]
fn pending_without_pay_link_has_no_status_row() {
    let mut inv = pending_invoice();
    inv.pay_url = None;
    let svg = render_invoice_svg(&inv);
    assert!(!svg.contains("<rect x=\"40\""));
    assert!(svg.contains("y=\"230\" font-family=\"sans-serif\" font-size=\"11\""));
    assert!(svg.contains("height=\"254\""));
}

#[test]
fn a_bad_due_date_is_left_out() {
    let mut inv = pending_invoice();
    inv.due_date = Some("tomorrow".to_string());
    let svg = render_invoice_svg(&inv);
    assert!(!svg.contains("Due:"));
}

#[test]
fn user_text_cannot_add_markup() {
    let plain = render_invoice_svg(&pending_invoice());
    let mut hostile = pending_invoice();
    hostile.description = "<script>alert(1)</script>".to_string();
    hostile.pay_url = Some("\"><script>x</script>".to_string());
    let svg = render_invoice_svg(&hostile);
    assert!(!svg.contains("<script>"));
    assert!(svg.contains(">&lt;script&gt;alert(1)&lt;/script&gt;</text>\n"));
    for c in ['<', '>', '"', '\''] {
        assert_eq!(svg.matches(c).count(), plain.matches(c).count());
    }
}
