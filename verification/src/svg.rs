//! The self-contained SVG picture of an invoice or estimate that is published
//! for viewing. The "Pay Online" row is a plain link to the payment page.

use vstd::prelude::*;
use crate::calendar::{epoch_ms_date_text, format_epoch_ms_date};
use crate::model::{DocumentKind, Invoice, InvoiceStatus};
use crate::money::{amount_text, ascii_upper, format_amount, is_ascii_text, uppercase_of};
use crate::numbers::{decimal, push_decimal};
use crate::text::{char_count, escape_xml, lemma_char_count_concat, lemma_escape_counts_no_markup, xml_escape};

verus! {

/// Text of an optional field when it is present and not empty.
pub open spec fn nonempty_text(o: Option<String>) -> Option<Seq<char>> {
    match o {
        Some(s) => if s@.len() > 0 { Some(s@) } else { None },
        None => None,
    }
}

/// How far a row moves the pen down: `dy` when the row is drawn.
pub open spec fn advance(o: Option<Seq<char>>, dy: int) -> int {
    if o is Some { dy } else { 0 }
}

pub open spec fn header_color(kind: DocumentKind) -> Seq<char> {
    match kind {
        DocumentKind::Invoice => "#2E5E4E"@,
        DocumentKind::Estimate => "#4FA3F7"@,
    }
}

pub open spec fn header_label(kind: DocumentKind) -> Seq<char> {
    match kind {
        DocumentKind::Invoice => "Invoice"@,
        DocumentKind::Estimate => "Estimate"@,
    }
}

/// The title row.
pub open spec fn header_line(kind: DocumentKind) -> Seq<char> {
    "<text x=\"200\" y=\"60\" font-family=\"sans-serif\" font-size=\"24\" font-weight=\"bold\" fill=\""@
        + header_color(kind) + "\" text-anchor=\"middle\">"@ + header_label(kind) + "</text>\n"@
}

/// A small grey row "<caption><value>" at height `y`.
pub open spec fn detail_line(y: int, caption: Seq<char>, value: Seq<char>) -> Seq<char> {
    "<text x=\"40\" y=\""@ + decimal(y as nat)
        + "\" font-family=\"sans-serif\" font-size=\"13\" fill=\"#6B7280\">"@ + caption + xml_escape(value)
        + "</text>\n"@
}

/// A detail row when there is a value, nothing otherwise.
pub open spec fn optional_detail(y: int, caption: Seq<char>, value: Option<Seq<char>>) -> Seq<char> {
    match value {
        Some(v) => detail_line(y, caption, v),
        None => Seq::empty(),
    }
}

/// The large amount row.
pub open spec fn amount_line(y: int, amount: Seq<char>) -> Seq<char> {
    "<text x=\"200\" y=\""@ + decimal(y as nat)
        + "\" font-family=\"sans-serif\" font-size=\"34\" font-weight=\"bold\" fill=\"#1F2933\" text-anchor=\"middle\">"@
        + xml_escape(amount) + "</text>\n"@
}

/// The description row.
pub open spec fn description_line(y: int, description: Seq<char>) -> Seq<char> {
    "<text x=\"40\" y=\""@ + decimal(y as nat) + "\" font-family=\"sans-serif\" font-size=\"15\" fill=\"#1F2933\">"@
        + xml_escape(description) + "</text>\n"@
}

/// The badge (text, background, foreground) stamped for a status; none for `Pending`.
pub open spec fn status_badge(status: InvoiceStatus) -> Option<(Seq<char>, Seq<char>, Seq<char>)> {
    match status {
        InvoiceStatus::PaidStripe => Some(("\u{2705} Paid"@, "rgba(46,94,78,0.12)"@, "#2E5E4E"@)),
        InvoiceStatus::PaidManual => Some(
            ("\u{2705} Paid (marked manually)"@, "rgba(46,94,78,0.12)"@, "#2E5E4E"@),
        ),
        InvoiceStatus::Waived => Some(("Waived"@, "rgba(184,126,42,0.15)"@, "#B87E2A"@)),
        InvoiceStatus::Canceled => Some(("Canceled"@, "rgba(255,49,49,0.10)"@, "#ff3131"@)),
        InvoiceStatus::Converted => Some(("Converted to Invoice"@, "rgba(107,114,128,0.15)"@, "#6B7280"@)),
        InvoiceStatus::Active => Some(("Estimate"@, "rgba(79,163,247,0.12)"@, "#4FA3F7"@)),
        InvoiceStatus::Pending => None,
    }
}

/// The status badge at height `y`.
pub open spec fn badge_block(y: int, text: Seq<char>, bg: Seq<char>, fg: Seq<char>) -> Seq<char> {
    "<rect x=\"40\" y=\""@ + decimal(y as nat) + "\" width=\"320\" height=\"48\" rx=\"12\" fill=\""@ + bg
        + "\" stroke=\""@ + fg + "\" stroke-width=\"1\"/>\n<text x=\"200\" y=\""@ + decimal((y + 30) as nat)
        + "\" font-family=\"sans-serif\" font-size=\"15\" font-weight=\"bold\" fill=\""@ + fg
        + "\" text-anchor=\"middle\">"@ + xml_escape(text) + "</text>\n"@
}

/// The "Pay Online" link button at height `y`.
pub open spec fn pay_block(y: int, url: Seq<char>) -> Seq<char> {
    "<a href=\""@ + xml_escape(url) + "\"><rect x=\"40\" y=\""@ + decimal(y as nat)
        + "\" width=\"320\" height=\"48\" rx=\"12\" fill=\"#2E5E4E\"/><text x=\"200\" y=\""@
        + decimal((y + 30) as nat)
        + "\" font-family=\"sans-serif\" font-size=\"15\" font-weight=\"bold\" fill=\"#FFFFFF\" text-anchor=\"middle\">Pay Online</text></a>\n"@
}

/// The closing credit row.
pub open spec fn footer_line(y: int) -> Seq<char> {
    "<text x=\"200\" y=\""@ + decimal(y as nat)
        + "\" font-family=\"sans-serif\" font-size=\"11\" fill=\"#6B7280\" text-anchor=\"middle\">a HomeVentory offering</text>\n"@
}

/// The whole picture around a body of rows.
pub open spec fn svg_document(height: int, body: Seq<char>) -> Seq<char> {
    "<svg xmlns=\"http://www.w3.org/2000/svg\" width=\"400\" height=\""@ + decimal(height as nat)
        + "\" viewBox=\"0 0 400 "@ + decimal(height as nat) + "\"><rect x=\"0\" y=\"0\" width=\"400\" height=\""@
        + decimal(height as nat) + "\" fill=\"#F7F9FA\"/>"@ + body + "</svg>"@
}

/// The formatted due date, when there is one and it is a valid timestamp.
pub open spec fn due_text(inv: Invoice) -> Option<Seq<char>> {
    match inv.due_date {
        Some(d) => epoch_ms_date_text(d@),
        None => None,
    }
}

/// The status row (badge, or pay link for a payable pending invoice) and
/// how far it moves the pen down.
pub open spec fn status_block(inv: Invoice, y: int) -> (Seq<char>, int) {
    match status_badge(inv.status) {
        Some((t, bg, fg)) => (badge_block(y, t, bg, fg), 48),
        None => match inv.pay_url {
            Some(u) => (pay_block(y, u@), 48),
            None => (Seq::empty(), 0),
        },
    }
}

/// The picture of `inv`, its amount already formatted as `amount`.
pub open spec fn invoice_svg_text(inv: Invoice, amount: Seq<char>) -> Seq<char> {
    let from = nonempty_text(inv.from_name);
    let to = nonempty_text(inv.to_name);
    let work = epoch_ms_date_text(inv.work_performed_at@);
    let due = due_text(inv);
    let y_from = 60 + advance(from, 30);
    let y_to = y_from + advance(to, 22);
    let y_work = y_to + advance(work, 22);
    let y_due = y_work + advance(due, 22);
    let y_amount = y_due + 50;
    let y_description = y_amount + 40;
    let y_status = y_description + 50;
    let y_footer = y_status + status_block(inv, y_status).1 + 30;
    let body = header_line(inv.kind) + optional_detail(y_from, "From: "@, from) + optional_detail(
        y_to,
        "To: "@,
        to,
    ) + optional_detail(y_work, "Work performed: "@, work) + optional_detail(y_due, "Due: "@, due)
        + amount_line(y_amount, amount) + description_line(y_description, inv.description@)
        + status_block(inv, y_status).0 + footer_line(y_footer);
    svg_document(y_footer + 24, body)
}

/// `c` is a character that makes or closes markup: < > " or '.
pub open spec fn is_markup_char(c: char) -> bool {
    c == '<' || c == '>' || c == '"' || c == '\''
}

/// Two documents draw the same rows: same kind and status, and the same
/// optional rows present (names, work date, due date, pay link); the texts
/// in them may differ.
pub open spec fn same_shape(a: Invoice, b: Invoice) -> bool {
    &&& a.kind == b.kind
    &&& a.status == b.status
    &&& nonempty_text(a.from_name) is Some == nonempty_text(b.from_name) is Some
    &&& nonempty_text(a.to_name) is Some == nonempty_text(b.to_name) is Some
    &&& epoch_ms_date_text(a.work_performed_at@) is Some == epoch_ms_date_text(b.work_performed_at@) is Some
    &&& due_text(a) is Some == due_text(b) is Some
    &&& a.pay_url is Some == b.pay_url is Some
}

proof fn lemma_detail_markup(y: int, caption: Seq<char>, v1: Option<Seq<char>>, v2: Option<Seq<char>>, c: char)
    requires
        is_markup_char(c),
        v1 is Some == v2 is Some,
    ensures
        char_count(optional_detail(y, caption, v1), c) == char_count(optional_detail(y, caption, v2), c),
{
    broadcast use lemma_char_count_concat;
    if v1 is Some {
        lemma_escape_counts_no_markup(v1->0, c);
        lemma_escape_counts_no_markup(v2->0, c);
    }
}

proof fn lemma_status_markup(a: Invoice, b: Invoice, y: int, c: char)
    requires
        is_markup_char(c),
        same_shape(a, b),
    ensures
        char_count(status_block(a, y).0, c) == char_count(status_block(b, y).0, c),
        status_block(a, y).1 == status_block(b, y).1,
{
    broadcast use lemma_char_count_concat;
    if status_badge(a.status) is None && a.pay_url is Some {
        lemma_escape_counts_no_markup(a.pay_url->0@, c);
        lemma_escape_counts_no_markup(b.pay_url->0@, c);
    }
}

/// User text never makes markup in the picture: the description, the names,
/// the amount and the pay link appear only escaped, so two documents of the
/// same shape give pictures with the same number of each of < > " and ',
/// whatever those texts hold.
pub proof fn lemma_user_text_adds_no_markup(a: Invoice, amount_a: Seq<char>, b: Invoice, amount_b: Seq<char>, c: char)
    requires
        same_shape(a, b),
        is_markup_char(c),
    ensures
        char_count(invoice_svg_text(a, amount_a), c) == char_count(invoice_svg_text(b, amount_b), c),
{
    broadcast use lemma_char_count_concat;
    let y_from = 60 + advance(nonempty_text(a.from_name), 30);
    let y_to = y_from + advance(nonempty_text(a.to_name), 22);
    let y_work = y_to + advance(epoch_ms_date_text(a.work_performed_at@), 22);
    let y_due = y_work + advance(due_text(a), 22);
    let y_status = y_due + 50 + 40 + 50;
    lemma_detail_markup(y_from, "From: "@, nonempty_text(a.from_name), nonempty_text(b.from_name), c);
    lemma_detail_markup(y_to, "To: "@, nonempty_text(a.to_name), nonempty_text(b.to_name), c);
    lemma_detail_markup(
        y_work,
        "Work performed: "@,
        epoch_ms_date_text(a.work_performed_at@),
        epoch_ms_date_text(b.work_performed_at@),
        c,
    );
    lemma_detail_markup(y_due, "Due: "@, due_text(a), due_text(b), c);
    lemma_escape_counts_no_markup(amount_a, c);
    lemma_escape_counts_no_markup(amount_b, c);
    lemma_escape_counts_no_markup(a.description@, c);
    lemma_escape_counts_no_markup(b.description@, c);
    lemma_status_markup(a, b, y_status, c);
}

/// The description appears in the picture as its escape, right after the
/// `>` that opens its text element and closed by its `</text>` tag.
pub proof fn lemma_description_appears_escaped(inv: Invoice, amount: Seq<char>)
    ensures
        exists|p: Seq<char>, q: Seq<char>|
            invoice_svg_text(inv, amount) == p + (">"@ + xml_escape(inv.description@) + "</text>\n"@) + q,
{
    let t = invoice_svg_text(inv, amount);
    let from = nonempty_text(inv.from_name);
    let to = nonempty_text(inv.to_name);
    let work = epoch_ms_date_text(inv.work_performed_at@);
    let due = due_text(inv);
    let y_from = 60 + advance(from, 30);
    let y_to = y_from + advance(to, 22);
    let y_work = y_to + advance(work, 22);
    let y_due = y_work + advance(due, 22);
    let y_amount = y_due + 50;
    let y_description = y_amount + 40;
    let y_status = y_description + 50;
    let y_footer = y_status + status_block(inv, y_status).1 + 30;
    let h = y_footer + 24;
    let before = header_line(inv.kind) + optional_detail(y_from, "From: "@, from) + optional_detail(y_to, "To: "@, to)
        + optional_detail(y_work, "Work performed: "@, work) + optional_detail(y_due, "Due: "@, due)
        + amount_line(y_amount, amount) + ("<text x=\"40\" y=\""@ + decimal(y_description as nat)
        + "\" font-family=\"sans-serif\" font-size=\"15\" fill=\"#1F2933\""@);
    let after = status_block(inv, y_status).0 + footer_line(y_footer);
    let p = "<svg xmlns=\"http://www.w3.org/2000/svg\" width=\"400\" height=\""@ + decimal(h as nat)
        + "\" viewBox=\"0 0 400 "@ + decimal(h as nat) + "\"><rect x=\"0\" y=\"0\" width=\"400\" height=\""@
        + decimal(h as nat) + "\" fill=\"#F7F9FA\"/>"@ + before;
    let q = after + "</svg>"@;
    let mid = ">"@ + xml_escape(inv.description@) + "</text>\n"@;
    reveal_strlit("\" font-family=\"sans-serif\" font-size=\"15\" fill=\"#1F2933\">");
    reveal_strlit("\" font-family=\"sans-serif\" font-size=\"15\" fill=\"#1F2933\"");
    reveal_strlit(">");
    assert("\" font-family=\"sans-serif\" font-size=\"15\" fill=\"#1F2933\">"@ =~= "\" font-family=\"sans-serif\" font-size=\"15\" fill=\"#1F2933\""@ + ">"@);
    assert(t =~= p + mid + q);
}

/// A client named on the document is named in its picture: a non-empty
/// `to_name` appears, escaped, in a "To: " row.
#[verifier::rlimit(60)]
pub proof fn lemma_recipient_named(inv: Invoice, amount: Seq<char>)
    ensures
        inv.to_name is Some && inv.to_name->0@.len() > 0 ==> exists|p: Seq<char>, q: Seq<char>|
            invoice_svg_text(inv, amount) == p + ("To: "@ + xml_escape(inv.to_name->0@) + "</text>\n"@) + q,
{
    if inv.to_name is Some && inv.to_name->0@.len() > 0 {
        let t = invoice_svg_text(inv, amount);
        let from = nonempty_text(inv.from_name);
        let to = nonempty_text(inv.to_name);
        let work = epoch_ms_date_text(inv.work_performed_at@);
        let due = due_text(inv);
        let y_from = 60 + advance(from, 30);
        let y_to = y_from + advance(to, 22);
        let y_work = y_to + advance(work, 22);
        let y_due = y_work + advance(due, 22);
        let y_amount = y_due + 50;
        let y_description = y_amount + 40;
        let y_status = y_description + 50;
        let y_footer = y_status + status_block(inv, y_status).1 + 30;
        let h = y_footer + 24;
        let before = header_line(inv.kind) + optional_detail(y_from, "From: "@, from) + ("<text x=\"40\" y=\""@
            + decimal(y_to as nat) + "\" font-family=\"sans-serif\" font-size=\"13\" fill=\"#6B7280\">"@);
        let after = optional_detail(y_work, "Work performed: "@, work) + optional_detail(y_due, "Due: "@, due)
            + amount_line(y_amount, amount) + description_line(y_description, inv.description@) + status_block(
            inv,
            y_status,
        ).0 + footer_line(y_footer);
        let p = "<svg xmlns=\"http://www.w3.org/2000/svg\" width=\"400\" height=\""@ + decimal(h as nat)
            + "\" viewBox=\"0 0 400 "@ + decimal(h as nat) + "\"><rect x=\"0\" y=\"0\" width=\"400\" height=\""@
            + decimal(h as nat) + "\" fill=\"#F7F9FA\"/>"@ + before;
        let q = after + "</svg>"@;
        let mid = "To: "@ + xml_escape(inv.to_name->0@) + "</text>\n"@;
        assert(t =~= p + mid + q);
    }
}

/// The issuer named on the document is named in its picture: a non-empty
/// `from_name` appears, escaped, in a "From: " row.
#[verifier::rlimit(60)]
pub proof fn lemma_issuer_named(inv: Invoice, amount: Seq<char>)
    ensures
        inv.from_name is Some && inv.from_name->0@.len() > 0 ==> exists|p: Seq<char>, q: Seq<char>|
            invoice_svg_text(inv, amount) == p + ("From: "@ + xml_escape(inv.from_name->0@) + "</text>\n"@) + q,
{
    if inv.from_name is Some && inv.from_name->0@.len() > 0 {
        let t = invoice_svg_text(inv, amount);
        let from = nonempty_text(inv.from_name);
        let to = nonempty_text(inv.to_name);
        let work = epoch_ms_date_text(inv.work_performed_at@);
        let due = due_text(inv);
        let y_from = 60 + advance(from, 30);
        let y_to = y_from + advance(to, 22);
        let y_work = y_to + advance(work, 22);
        let y_due = y_work + advance(due, 22);
        let y_amount = y_due + 50;
        let y_description = y_amount + 40;
        let y_status = y_description + 50;
        let y_footer = y_status + status_block(inv, y_status).1 + 30;
        let h = y_footer + 24;
        let before = header_line(inv.kind) + ("<text x=\"40\" y=\""@ + decimal(y_from as nat)
            + "\" font-family=\"sans-serif\" font-size=\"13\" fill=\"#6B7280\">"@);
        let after = optional_detail(y_to, "To: "@, to) + optional_detail(y_work, "Work performed: "@, work)
            + optional_detail(y_due, "Due: "@, due) + amount_line(y_amount, amount) + description_line(
            y_description,
            inv.description@,
        ) + status_block(inv, y_status).0 + footer_line(y_footer);
        let p = "<svg xmlns=\"http://www.w3.org/2000/svg\" width=\"400\" height=\""@ + decimal(h as nat)
            + "\" viewBox=\"0 0 400 "@ + decimal(h as nat) + "\"><rect x=\"0\" y=\"0\" width=\"400\" height=\""@
            + decimal(h as nat) + "\" fill=\"#F7F9FA\"/>"@ + before;
        let q = after + "</svg>"@;
        let mid = "From: "@ + xml_escape(inv.from_name->0@) + "</text>\n"@;
        assert(t =~= p + mid + q);
    }
}

/// For any status but `Pending` the picture is the same whether or not the
/// record has a pay link: no "Pay Online" link is offered for a paid,
/// waived, canceled or estimate document.
pub proof fn lemma_no_pay_link_unless_pending(inv: Invoice, amount: Seq<char>)
    ensures
        inv.status != InvoiceStatus::Pending ==> invoice_svg_text(inv, amount) == invoice_svg_text(
            Invoice { pay_url: None, ..inv },
            amount,
        ),
{
    if inv.status != InvoiceStatus::Pending {
        let other = Invoice { pay_url: None, ..inv };
        assert forall|y: int| #[trigger] status_block(inv, y) == status_block(other, y) by {}
        assert(invoice_svg_text(inv, amount) == invoice_svg_text(other, amount));
    }
}

/// A pending invoice with a pay link offers it: the link appears, escaped,
/// as the target of an `<a href="...">` in the picture.
#[verifier::rlimit(60)]
pub proof fn lemma_pay_link_when_pending(inv: Invoice, amount: Seq<char>)
    ensures
        inv.status == InvoiceStatus::Pending && inv.pay_url is Some ==> exists|p: Seq<char>, q: Seq<char>|
            invoice_svg_text(inv, amount) == p + ("<a href=\""@ + xml_escape(inv.pay_url->0@)) + q,
{
    if inv.status == InvoiceStatus::Pending && inv.pay_url is Some {
        let t = invoice_svg_text(inv, amount);
        let from = nonempty_text(inv.from_name);
        let to = nonempty_text(inv.to_name);
        let work = epoch_ms_date_text(inv.work_performed_at@);
        let due = due_text(inv);
        let y_from = 60 + advance(from, 30);
        let y_to = y_from + advance(to, 22);
        let y_work = y_to + advance(work, 22);
        let y_due = y_work + advance(due, 22);
        let y_amount = y_due + 50;
        let y_description = y_amount + 40;
        let y_status = y_description + 50;
        let y_footer = y_status + status_block(inv, y_status).1 + 30;
        let h = y_footer + 24;
        let u = inv.pay_url->0@;
        assert(status_block(inv, y_status).0 == pay_block(y_status, u));
        let before = header_line(inv.kind) + optional_detail(y_from, "From: "@, from) + optional_detail(
            y_to,
            "To: "@,
            to,
        ) + optional_detail(y_work, "Work performed: "@, work) + optional_detail(y_due, "Due: "@, due)
            + amount_line(y_amount, amount) + description_line(y_description, inv.description@);
        let block_rest = "\"><rect x=\"40\" y=\""@ + decimal(y_status as nat)
            + "\" width=\"320\" height=\"48\" rx=\"12\" fill=\"#2E5E4E\"/><text x=\"200\" y=\""@
            + decimal((y_status + 30) as nat)
            + "\" font-family=\"sans-serif\" font-size=\"15\" font-weight=\"bold\" fill=\"#FFFFFF\" text-anchor=\"middle\">Pay Online</text></a>\n"@;
        let p = "<svg xmlns=\"http://www.w3.org/2000/svg\" width=\"400\" height=\""@ + decimal(h as nat)
            + "\" viewBox=\"0 0 400 "@ + decimal(h as nat) + "\"><rect x=\"0\" y=\"0\" width=\"400\" height=\""@
            + decimal(h as nat) + "\" fill=\"#F7F9FA\"/>"@ + before;
        let q = block_rest + footer_line(y_footer) + "</svg>"@;
        let mid = "<a href=\""@ + xml_escape(u);
        assert(pay_block(y_status, u) =~= mid + block_rest);
        assert(t =~= p + mid + q);
    }
}

fn push_header(out: &mut String, kind: DocumentKind)
    ensures
        final(out)@ == old(out)@ + header_line(kind),
{
    out.append(
        "<text x=\"200\" y=\"60\" font-family=\"sans-serif\" font-size=\"24\" font-weight=\"bold\" fill=\"",
    );
    match kind {
        DocumentKind::Invoice => out.append("#2E5E4E"),
        DocumentKind::Estimate => out.append("#4FA3F7"),
    }
    out.append("\" text-anchor=\"middle\">");
    match kind {
        DocumentKind::Invoice => out.append("Invoice"),
        DocumentKind::Estimate => out.append("Estimate"),
    }
    out.append("</text>\n");
    assert(final(out)@ =~= old(out)@ + header_line(kind));
}

fn push_detail(out: &mut String, y: u32, caption: &str, value: &str)
    ensures
        final(out)@ == old(out)@ + detail_line(y as int, caption@, value@),
{
    out.append("<text x=\"40\" y=\"");
    push_decimal(out, y as u128);
    out.append("\" font-family=\"sans-serif\" font-size=\"13\" fill=\"#6B7280\">");
    out.append(caption);
    let escaped = escape_xml(value);
    out.append(escaped.as_str());
    out.append("</text>\n");
    assert(final(out)@ =~= old(out)@ + detail_line(y as int, caption@, value@));
}

fn push_amount(out: &mut String, y: u32, amount: &str)
    ensures
        final(out)@ == old(out)@ + amount_line(y as int, amount@),
{
    out.append("<text x=\"200\" y=\"");
    push_decimal(out, y as u128);
    out.append(
        "\" font-family=\"sans-serif\" font-size=\"34\" font-weight=\"bold\" fill=\"#1F2933\" text-anchor=\"middle\">",
    );
    let escaped = escape_xml(amount);
    out.append(escaped.as_str());
    out.append("</text>\n");
    assert(final(out)@ =~= old(out)@ + amount_line(y as int, amount@));
}

fn push_description(out: &mut String, y: u32, description: &str)
    ensures
        final(out)@ == old(out)@ + description_line(y as int, description@),
{
    out.append("<text x=\"40\" y=\"");
    push_decimal(out, y as u128);
    out.append("\" font-family=\"sans-serif\" font-size=\"15\" fill=\"#1F2933\">");
    let escaped = escape_xml(description);
    out.append(escaped.as_str());
    out.append("</text>\n");
    assert(final(out)@ =~= old(out)@ + description_line(y as int, description@));
}

fn push_badge(out: &mut String, y: u32, text: &str, bg: &str, fg: &str)
    requires
        y < 1000,
    ensures
        final(out)@ == old(out)@ + badge_block(y as int, text@, bg@, fg@),
{
    out.append("<rect x=\"40\" y=\"");
    push_decimal(out, y as u128);
    out.append("\" width=\"320\" height=\"48\" rx=\"12\" fill=\"");
    out.append(bg);
    out.append("\" stroke=\"");
    out.append(fg);
    out.append("\" stroke-width=\"1\"/>\n<text x=\"200\" y=\"");
    push_decimal(out, (y + 30) as u128);
    out.append("\" font-family=\"sans-serif\" font-size=\"15\" font-weight=\"bold\" fill=\"");
    out.append(fg);
    out.append("\" text-anchor=\"middle\">");
    let escaped = escape_xml(text);
    out.append(escaped.as_str());
    out.append("</text>\n");
    assert(final(out)@ =~= old(out)@ + badge_block(y as int, text@, bg@, fg@));
}

fn push_pay_link(out: &mut String, y: u32, url: &str)
    requires
        y < 1000,
    ensures
        final(out)@ == old(out)@ + pay_block(y as int, url@),
{
    out.append("<a href=\"");
    let escaped = escape_xml(url);
    out.append(escaped.as_str());
    out.append("\"><rect x=\"40\" y=\"");
    push_decimal(out, y as u128);
    out.append("\" width=\"320\" height=\"48\" rx=\"12\" fill=\"#2E5E4E\"/><text x=\"200\" y=\"");
    push_decimal(out, (y + 30) as u128);
    out.append(
        "\" font-family=\"sans-serif\" font-size=\"15\" font-weight=\"bold\" fill=\"#FFFFFF\" text-anchor=\"middle\">Pay Online</text></a>\n",
    );
    assert(final(out)@ =~= old(out)@ + pay_block(y as int, url@));
}

fn push_footer(out: &mut String, y: u32)
    ensures
        final(out)@ == old(out)@ + footer_line(y as int),
{
    out.append("<text x=\"200\" y=\"");
    push_decimal(out, y as u128);
    out.append(
        "\" font-family=\"sans-serif\" font-size=\"11\" fill=\"#6B7280\" text-anchor=\"middle\">a HomeVentory offering</text>\n",
    );
    assert(final(out)@ =~= old(out)@ + footer_line(y as int));
}

/// Pushes the status row of `invoice` at height `y`; returns how far it moved the pen.
fn push_status(out: &mut String, invoice: &Invoice, y: u32) -> (dy: u32)
    requires
        y < 1000,
    ensures
        final(out)@ == old(out)@ + status_block(*invoice, y as int).0,
        dy as int == status_block(*invoice, y as int).1,
{
    match invoice.status {
        InvoiceStatus::PaidStripe => {
            push_badge(out, y, "\u{2705} Paid", "rgba(46,94,78,0.12)", "#2E5E4E");
            48
        },
        InvoiceStatus::PaidManual => {
            push_badge(out, y, "\u{2705} Paid (marked manually)", "rgba(46,94,78,0.12)", "#2E5E4E");
            48
        },
        InvoiceStatus::Waived => {
            push_badge(out, y, "Waived", "rgba(184,126,42,0.15)", "#B87E2A");
            48
        },
        InvoiceStatus::Canceled => {
            push_badge(out, y, "Canceled", "rgba(255,49,49,0.10)", "#ff3131");
            48
        },
        InvoiceStatus::Converted => {
            push_badge(out, y, "Converted to Invoice", "rgba(107,114,128,0.15)", "#6B7280");
            48
        },
        InvoiceStatus::Active => {
            push_badge(out, y, "Estimate", "rgba(79,163,247,0.12)", "#4FA3F7");
            48
        },
        InvoiceStatus::Pending => {
            match &invoice.pay_url {
                Some(url) => {
                    push_pay_link(out, y, url.as_str());
                    48
                },
                None => {
                    assert(old(out)@ + Seq::<char>::empty() =~= old(out)@);
                    0
                },
            }
        },
    }
}

/// Renders an invoice as an SVG picture, its amount already formatted as
/// `amount` (see `format_amount`).
pub fn render_invoice_svg_with_amount(invoice: &Invoice, amount: &str) -> (r: String)
    ensures
        r@ == invoice_svg_text(*invoice, amount@),
        invoice.to_name is Some && invoice.to_name->0@.len() > 0 ==> exists|p: Seq<char>, q: Seq<char>|
            r@ == p + ("To: "@ + xml_escape(invoice.to_name->0@) + "</text>\n"@) + q,
        invoice.from_name is Some && invoice.from_name->0@.len() > 0 ==> exists|p: Seq<char>, q: Seq<char>|
            r@ == p + ("From: "@ + xml_escape(invoice.from_name->0@) + "</text>\n"@) + q,
        invoice.status == InvoiceStatus::Pending && invoice.pay_url is Some ==> exists|p: Seq<char>, q: Seq<char>|
            r@ == p + ("<a href=\""@ + xml_escape(invoice.pay_url->0@)) + q,
        invoice.status != InvoiceStatus::Pending ==> r@ == invoice_svg_text(
            Invoice { pay_url: None, ..*invoice },
            amount@,
        ),
{
    let mut body = String::new();
    let mut y: u32 = 60;
    push_header(&mut body, invoice.kind);
    let ghost b0 = body@;
    match &invoice.from_name {
        Some(name) => {
            if !name.as_str().is_empty() {
                y = y + 30;
                push_detail(&mut body, y, "From: ", name.as_str());
            }
        },
        None => {},
    }
    let ghost b1 = body@;
    assert(b1 =~= b0 + optional_detail(y as int, "From: "@, nonempty_text(invoice.from_name)));
    let ghost y_from = y;
    match &invoice.to_name {
        Some(name) => {
            if !name.as_str().is_empty() {
                y = y + 22;
                push_detail(&mut body, y, "To: ", name.as_str());
            }
        },
        None => {},
    }
    let ghost b2 = body@;
    assert(b2 =~= b1 + optional_detail(y as int, "To: "@, nonempty_text(invoice.to_name)));
    let ghost y_to = y;
    match format_epoch_ms_date(invoice.work_performed_at.as_str()) {
        Some(work) => {
            y = y + 22;
            push_detail(&mut body, y, "Work performed: ", work.as_str());
        },
        None => {},
    }
    let ghost b3 = body@;
    assert(b3 =~= b2 + optional_detail(
        y as int,
        "Work performed: "@,
        epoch_ms_date_text(invoice.work_performed_at@),
    ));
    let ghost y_work = y;
    match &invoice.due_date {
        Some(due) => {
            match format_epoch_ms_date(due.as_str()) {
                Some(due_label) => {
                    y = y + 22;
                    push_detail(&mut body, y, "Due: ", due_label.as_str());
                },
                None => {},
            }
        },
        None => {},
    }
    let ghost b4 = body@;
    assert(b4 =~= b3 + optional_detail(y as int, "Due: "@, due_text(*invoice)));
    y = y + 50;
    push_amount(&mut body, y, amount);
    let ghost y_amount = y;
    y = y + 40;
    push_description(&mut body, y, invoice.description.as_str());
    y = y + 50;
    let dy = push_status(&mut body, invoice, y);
    y = y + dy;
    y = y + 30;
    push_footer(&mut body, y);
    let height = y + 24;
    let mut out = String::new();
    out.append("<svg xmlns=\"http://www.w3.org/2000/svg\" width=\"400\" height=\"");
    push_decimal(&mut out, height as u128);
    out.append("\" viewBox=\"0 0 400 ");
    push_decimal(&mut out, height as u128);
    out.append("\"><rect x=\"0\" y=\"0\" width=\"400\" height=\"");
    push_decimal(&mut out, height as u128);
    out.append("\" fill=\"#F7F9FA\"/>");
    out.append(body.as_str());
    out.append("</svg>");
    assert(out@ =~= invoice_svg_text(*invoice, amount@));
    proof {
        lemma_recipient_named(*invoice, amount@);
        lemma_issuer_named(*invoice, amount@);
        lemma_pay_link_when_pending(*invoice, amount@);
        lemma_no_pay_link_unless_pending(*invoice, amount@);
    }
    out
}

/// Renders an invoice or estimate as a self-contained SVG picture.
pub fn render_invoice_svg(invoice: &Invoice) -> (r: String)
    ensures
        r@ == invoice_svg_text(
            *invoice,
            amount_text(invoice.amount_cents as nat, uppercase_of(invoice.currency@)),
        ),
        is_ascii_text(invoice.currency@) ==> r@ == invoice_svg_text(
            *invoice,
            amount_text(invoice.amount_cents as nat, ascii_upper(invoice.currency@)),
        ),
        invoice.to_name is Some && invoice.to_name->0@.len() > 0 ==> exists|p: Seq<char>, q: Seq<char>|
            r@ == p + ("To: "@ + xml_escape(invoice.to_name->0@) + "</text>\n"@) + q,
        invoice.from_name is Some && invoice.from_name->0@.len() > 0 ==> exists|p: Seq<char>, q: Seq<char>|
            r@ == p + ("From: "@ + xml_escape(invoice.from_name->0@) + "</text>\n"@) + q,
        invoice.status == InvoiceStatus::Pending && invoice.pay_url is Some ==> exists|p: Seq<char>, q: Seq<char>|
            r@ == p + ("<a href=\""@ + xml_escape(invoice.pay_url->0@)) + q,
        invoice.status != InvoiceStatus::Pending ==> r@ == invoice_svg_text(
            Invoice { pay_url: None, ..*invoice },
            amount_text(invoice.amount_cents as nat, uppercase_of(invoice.currency@)),
        ),
{
    let amount = format_amount(invoice.amount_cents, invoice.currency.as_str());
    render_invoice_svg_with_amount(invoice, amount.as_str())
}

} // verus!
