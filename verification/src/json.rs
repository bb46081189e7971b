//! Serialization of the data payload injected into the compilation world:
//! the invoice, its computed barcode and nothing else, as one JSON text.
//!
//! The payload is specified constructively, character by character, so the
//! injected data is a proven function of the invoice alone.

use vstd::prelude::*;

use crate::invoices::Invoice;
use crate::invoices::InvoiceAttachment;
use crate::invoices::InvoiceRow;

verus! {

/// The decimal digit character for `d` (meaningful for `d < 10`).
pub open spec fn digit_char(d: nat) -> char
    recommends
        d < 10,
{
    ((d + 48) as u8) as char
}

/// The lower-case hexadecimal digit character for `d` (for `d < 16`).
pub open spec fn hex_digit_char(d: nat) -> char
    recommends
        d < 16,
{
    if d < 10 {
        ((d + 48) as u8) as char
    } else {
        ((d + 87) as u8) as char
    }
}

/// The decimal digit string of `n`, most significant digit first.
pub open spec fn dec_digits(n: nat) -> Seq<char>
    decreases n,
{
    if n < 10 {
        seq![digit_char(n)]
    } else {
        dec_digits(n / 10) + seq![digit_char(n % 10)]
    }
}

/// How one character is written inside a JSON string literal: quotes and
/// backslashes are escaped, control characters take the universal escape,
/// and everything else stands for itself.
pub open spec fn escape_char(c: char) -> Seq<char> {
    if c == '"' {
        seq!['\\', '"']
    } else if c == '\\' {
        seq!['\\', '\\']
    } else if (c as u32) < 32 {
        seq!['\\', 'u', '0', '0', hex_digit_char(((c as u32) / 16) as nat), hex_digit_char(
            ((c as u32) % 16) as nat,
        )]
    } else {
        seq![c]
    }
}

/// The body of a JSON string literal for the text `s`.
pub open spec fn json_escaped(s: Seq<char>) -> Seq<char>
    decreases s.len(),
{
    if s.len() == 0 {
        Seq::empty()
    } else {
        json_escaped(s.drop_last()) + escape_char(s.last())
    }
}

/// The JSON string literal for the text `s`.
pub open spec fn json_string(s: Seq<char>) -> Seq<char> {
    "\""@ + json_escaped(s) + "\""@
}

/// The given parts joined with commas.
pub open spec fn join_comma(parts: Seq<Seq<char>>) -> Seq<char>
    decreases parts.len(),
{
    if parts.len() == 0 {
        Seq::empty()
    } else if parts.len() == 1 {
        parts[0]
    } else {
        join_comma(parts.drop_last()) + ","@ + parts.last()
    }
}

/// A JSON array holding the given parts.
pub open spec fn json_array(parts: Seq<Seq<char>>) -> Seq<char> {
    "["@ + join_comma(parts) + "]"@
}

/// The JSON object for one invoice row.
pub open spec fn row_json(r: InvoiceRow) -> Seq<char> {
    "{\"product\":"@ + json_string(r.product@) + ",\"unit_price\":"@ + dec_digits(
        r.unit_price as nat,
    ) + "}"@
}

/// The JSON object for one attachment stub: its filename and its bytes
/// (the bytes of inline attachments live only in the compilation world's
/// file system, so the stubs carried here hold empty byte lists).
pub open spec fn attachment_json(a: InvoiceAttachment) -> Seq<char> {
    "{\"filename\":"@ + json_string(a.filename@) + ",\"bytes\":"@ + json_array(
        a.bytes@.map_values(|b: u8| dec_digits(b as nat)),
    ) + "}"@
}

/// The full data payload for an invoice and its barcode text: the
/// serialized invoice with a `barcode` string field appended.
pub open spec fn payload_json(i: Invoice, barcode: Seq<char>) -> Seq<char> {
    "{\"recipient_name\":"@ + json_string(i.recipient_name@) + ",\"recipient_email\":"@
        + json_string(i.recipient_email@) + ",\"address\":{\"street\":"@ + json_string(
        i.address.street@,
    ) + ",\"city\":"@ + json_string(i.address.city@) + ",\"zip\":"@ + json_string(i.address.zip@)
        + "},\"bank_account_number\":"@ + json_string(i.bank_account_number@) + ",\"subject\":"@
        + json_string(i.subject@) + ",\"description\":"@ + json_string(i.description@)
        + ",\"phone_number\":"@ + json_string(i.phone_number@) + ",\"attachment_descriptions\":"@
        + json_array(i.attachment_descriptions@.map_values(|s: String| json_string(s@)))
        + ",\"rows\":"@ + json_array(i.rows@.map_values(|r: InvoiceRow| row_json(r)))
        + ",\"attachments\":"@ + json_array(
        i.attachments@.map_values(|a: InvoiceAttachment| attachment_json(a)),
    ) + ",\"barcode\":"@ + json_string(barcode) + "}"@
}

/// Relies on `String::push`: appends exactly one character.
#[verifier::external_body]
fn push_char(out: &mut String, c: char)
    ensures
        final(out)@ == old(out)@.push(c),
{
    out.push(c);
}

/// Appends the decimal digits of `n`.
fn append_u32(out: &mut String, n: u32)
    ensures
        final(out)@ == old(out)@ + dec_digits(n as nat),
    decreases n,
{
    if n < 10 {
        push_char(out, (48 + (n as u8)) as char);
        proof {
            assert(old(out)@.push(digit_char(n as nat)) =~= old(out)@ + dec_digits(n as nat));
        }
    } else {
        append_u32(out, n / 10);
        push_char(out, (48 + ((n % 10) as u8)) as char);
        proof {
            assert(old(out)@ + dec_digits((n / 10) as nat) + seq![digit_char((n % 10) as nat)]
                =~= old(out)@ + dec_digits(n as nat));
        }
    }
}

/// Appends the escaped body of a JSON string literal for `s`.
fn append_escaped(out: &mut String, s: &str)
    ensures
        final(out)@ == old(out)@ + json_escaped(s@),
{
    let ghost base = old(out)@;
    let len = s.unicode_len();
    let mut i: usize = 0;
    proof {
        assert(base + json_escaped(s@.take(0)) =~= base);
    }
    while i < len
        invariant
            0 <= i <= s@.len(),
            len == s@.len(),
            out@ == base + json_escaped(s@.take(i as int)),
        decreases s@.len() - i,
    {
        let c = s.get_char(i);
        proof {
            assert(s@.take(i + 1).drop_last() =~= s@.take(i as int));
            assert(s@.take(i + 1).last() == s@[i as int]);
        }
        if c == '"' {
            push_char(out, '\\');
            push_char(out, '"');
        } else if c == '\\' {
            push_char(out, '\\');
            push_char(out, '\\');
        } else if (c as u32) < 32 {
            let code = c as u32;
            push_char(out, '\\');
            push_char(out, 'u');
            push_char(out, '0');
            push_char(out, '0');
            let hi = (code / 16) as u8;
            let lo = (code % 16) as u8;
            push_char(out, (if hi < 10 { 48 + hi } else { 87 + hi }) as char);
            push_char(out, (if lo < 10 { 48 + lo } else { 87 + lo }) as char);
        } else {
            push_char(out, c);
        }
        proof {
            assert(out@ =~= base + json_escaped(s@.take(i + 1)));
        }
        i = i + 1;
    }
    proof {
        assert(s@.take(s@.len() as int) =~= s@);
    }
}

/// Appends the JSON string literal for `s`.
fn append_json_string(out: &mut String, s: &str)
    ensures
        final(out)@ == old(out)@ + json_string(s@),
{
    out.append("\"");
    append_escaped(out, s);
    out.append("\"");
    proof {
        assert(final(out)@ =~= old(out)@ + json_string(s@));
    }
}

/// Appends a JSON array of string literals, one per item.
fn append_string_array(out: &mut String, items: &Vec<String>)
    ensures
        final(out)@ == old(out)@ + json_array(
            items@.map_values(|s: String| json_string(s@)),
        ),
{
    let ghost parts = items@.map_values(|s: String| json_string(s@));
    let ghost base = old(out)@;
    out.append("[");
    let mut i: usize = 0;
    while i < items.len()
        invariant
            0 <= i <= items@.len(),
            parts == items@.map_values(|s: String| json_string(s@)),
            parts.len() == items@.len(),
            out@ == base + "["@ + join_comma(parts.take(i as int)),
        decreases items@.len() - i,
    {
        if i > 0 {
            out.append(",");
        }
        append_json_string(out, items[i].as_str());
        proof {
            assert(parts.take(i + 1).drop_last() =~= parts.take(i as int));
            assert(parts.take(i + 1).last() == parts[i as int]);
            if i == 0 {
                assert(join_comma(parts.take(1)) == parts[0]);
            }
            assert(out@ =~= base + "["@ + join_comma(parts.take(i + 1)));
        }
        i = i + 1;
    }
    out.append("]");
    proof {
        assert(parts.take(parts.len() as int) =~= parts);
        assert(final(out)@ =~= base + json_array(parts));
    }
}

/// Appends a JSON array of the byte values of `bytes`.
fn append_bytes_array(out: &mut String, bytes: &Vec<u8>)
    ensures
        final(out)@ == old(out)@ + json_array(bytes@.map_values(|b: u8| dec_digits(b as nat))),
{
    let ghost parts = bytes@.map_values(|b: u8| dec_digits(b as nat));
    let ghost base = old(out)@;
    out.append("[");
    let mut i: usize = 0;
    while i < bytes.len()
        invariant
            0 <= i <= bytes@.len(),
            parts == bytes@.map_values(|b: u8| dec_digits(b as nat)),
            parts.len() == bytes@.len(),
            out@ == base + "["@ + join_comma(parts.take(i as int)),
        decreases bytes@.len() - i,
    {
        if i > 0 {
            out.append(",");
        }
        append_u32(out, bytes[i] as u32);
        proof {
            assert(parts.take(i + 1).drop_last() =~= parts.take(i as int));
            assert(parts.take(i + 1).last() == parts[i as int]);
            if i == 0 {
                assert(join_comma(parts.take(1)) == parts[0]);
            }
            assert(out@ =~= base + "["@ + join_comma(parts.take(i + 1)));
        }
        i = i + 1;
    }
    out.append("]");
    proof {
        assert(parts.take(parts.len() as int) =~= parts);
        assert(final(out)@ =~= base + json_array(parts));
    }
}

/// Appends the JSON array of invoice rows.
fn append_rows(out: &mut String, rows: &Vec<InvoiceRow>)
    requires
        forall|i: int| 0 <= i < rows@.len() ==> (#[trigger] rows@[i]).wf(),
    ensures
        final(out)@ == old(out)@ + json_array(rows@.map_values(|r: InvoiceRow| row_json(r))),
{
    let ghost parts = rows@.map_values(|r: InvoiceRow| row_json(r));
    let ghost base = old(out)@;
    out.append("[");
    let mut i: usize = 0;
    while i < rows.len()
        invariant
            0 <= i <= rows@.len(),
            forall|j: int| 0 <= j < rows@.len() ==> (#[trigger] rows@[j]).wf(),
            parts == rows@.map_values(|r: InvoiceRow| row_json(r)),
            parts.len() == rows@.len(),
            out@ == base + "["@ + join_comma(parts.take(i as int)),
        decreases rows@.len() - i,
    {
        if i > 0 {
            out.append(",");
        }
        out.append("{\"product\":");
        append_json_string(out, rows[i].product.as_str());
        out.append(",\"unit_price\":");
        let price: i32 = rows[i].unit_price;
        append_u32(out, price as u32);
        out.append("}");
        proof {
            assert(price as u32 as nat == rows@[i as int].unit_price as nat);
            assert(parts.take(i + 1).drop_last() =~= parts.take(i as int));
            assert(parts.take(i + 1).last() == parts[i as int]);
            if i == 0 {
                assert(join_comma(parts.take(1)) == parts[0]);
            }
            assert(out@ =~= base + "["@ + join_comma(parts.take(i + 1)));
        }
        i = i + 1;
    }
    out.append("]");
    proof {
        assert(parts.take(parts.len() as int) =~= parts);
        assert(final(out)@ =~= base + json_array(parts));
    }
}

/// Appends the JSON array of attachment stubs.
fn append_attachments(out: &mut String, atts: &Vec<InvoiceAttachment>)
    ensures
        final(out)@ == old(out)@ + json_array(
            atts@.map_values(|a: InvoiceAttachment| attachment_json(a)),
        ),
{
    let ghost parts = atts@.map_values(|a: InvoiceAttachment| attachment_json(a));
    let ghost base = old(out)@;
    out.append("[");
    let mut i: usize = 0;
    while i < atts.len()
        invariant
            0 <= i <= atts@.len(),
            parts == atts@.map_values(|a: InvoiceAttachment| attachment_json(a)),
            parts.len() == atts@.len(),
            out@ == base + "["@ + join_comma(parts.take(i as int)),
        decreases atts@.len() - i,
    {
        if i > 0 {
            out.append(",");
        }
        out.append("{\"filename\":");
        append_json_string(out, atts[i].filename.as_str());
        out.append(",\"bytes\":");
        append_bytes_array(out, &atts[i].bytes);
        out.append("}");
        proof {
            assert(parts.take(i + 1).drop_last() =~= parts.take(i as int));
            assert(parts.take(i + 1).last() == parts[i as int]);
            if i == 0 {
                assert(join_comma(parts.take(1)) == parts[0]);
            }
            assert(out@ =~= base + "["@ + join_comma(parts.take(i + 1)));
        }
        i = i + 1;
    }
    out.append("]");
    proof {
        assert(parts.take(parts.len() as int) =~= parts);
        assert(final(out)@ =~= base + json_array(parts));
    }
}

/// The serialized data payload for `invoice` with the given barcode text:
/// exactly `payload_json(*invoice, barcode@)`.
pub fn invoice_json(invoice: &Invoice, barcode: &String) -> (r: String)
    requires
        invoice.wf(),
    ensures
        r@ == payload_json(*invoice, barcode@),
{
    let mut out = String::new();
    out.append("{\"recipient_name\":");
    append_json_string(&mut out, invoice.recipient_name.as_str());
    out.append(",\"recipient_email\":");
    append_json_string(&mut out, invoice.recipient_email.as_str());
    out.append(",\"address\":{\"street\":");
    append_json_string(&mut out, invoice.address.street.as_str());
    out.append(",\"city\":");
    append_json_string(&mut out, invoice.address.city.as_str());
    out.append(",\"zip\":");
    append_json_string(&mut out, invoice.address.zip.as_str());
    out.append("},\"bank_account_number\":");
    append_json_string(&mut out, invoice.bank_account_number.as_str());
    out.append(",\"subject\":");
    append_json_string(&mut out, invoice.subject.as_str());
    out.append(",\"description\":");
    append_json_string(&mut out, invoice.description.as_str());
    out.append(",\"phone_number\":");
    append_json_string(&mut out, invoice.phone_number.as_str());
    out.append(",\"attachment_descriptions\":");
    append_string_array(&mut out, &invoice.attachment_descriptions);
    out.append(",\"rows\":");
    append_rows(&mut out, &invoice.rows);
    out.append(",\"attachments\":");
    append_attachments(&mut out, &invoice.attachments);
    out.append(",\"barcode\":");
    append_json_string(&mut out, barcode.as_str());
    out.append("}");
    proof {
        assert(out@ =~= payload_json(*invoice, barcode@));
    }
    out
}

} // verus!
