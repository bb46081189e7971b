use laskugeneraattori::Address;
use laskugeneraattori::DocumentBuilder;
use laskugeneraattori::Invoice;
use laskugeneraattori::InvoiceAttachment;
use laskugeneraattori::InvoiceRow;
use laskugeneraattori::invoice_json;

fn sample_invoice() -> Invoice {
    Invoice {
        recipient_name: "Test User".to_string(),
        recipient_email: "test@example.com".to_string(),
        address: Address {
            street: "Street 1".to_string(),
            city: "City".to_string(),
            zip: "00100".to_string(),
        },
        bank_account_number: "FI2112345600000785".to_string(),
        subject: "Test Invoice".to_string(),
        description: "A \"quoted\" description\nwith a newline".to_string(),
        phone_number: "+358401234567".to_string(),
        attachment_descriptions: vec!["Test image".to_string()],
        rows: vec![
            InvoiceRow {
                product: "Product A".to_string(),
                unit_price: 1000,
            },
            InvoiceRow {
                product: "Product B".to_string(),
                unit_price: 2500,
            },
        ],
        attachments: vec![InvoiceAttachment {
            filename: "test.jpg".to_string(),
            bytes: Vec::new(),
        }],
    }
}

#[test]
fn payload_is_valid_json_with_expected_fields() {
    let text = invoice_json(&sample_invoice(), &"123".to_string());
    let value: serde_json::Value = serde_json::from_str(&text).expect("payload must parse");
    assert_eq!(value["recipient_name"], "Test User");
    assert_eq!(value["address"]["street"], "Street 1");
    assert_eq!(value["rows"][0]["product"], "Product A");
    assert_eq!(value["rows"][0]["unit_price"], 1000);
    assert_eq!(value["rows"][1]["unit_price"], 2500);
    assert_eq!(value["barcode"], "123");
    assert_eq!(value["attachments"][0]["filename"], "test.jpg");
    assert_eq!(value["attachments"][0]["bytes"].as_array().unwrap().len(), 0);
}

#[test]
fn payload_escapes_special_characters() {
    let text = invoice_json(&sample_invoice(), &String::new());
    let value: serde_json::Value = serde_json::from_str(&text).expect("payload must parse");
    assert_eq!(
        value["description"],
        "A \"quoted\" description\nwith a newline"
    );
}

#[test]
fn builder_payload_substitutes_empty_barcode() {
    let mut invoice = sample_invoice();
    invoice.bank_account_number = "not an iban".to_string();
    let builder = DocumentBuilder::new(invoice, Vec::new());
    let text = builder.data();
    let value: serde_json::Value = serde_json::from_str(&text).expect("payload must parse");
    assert_eq!(value["barcode"], "");
}

#[test]
fn builder_payload_contains_real_barcode() {
    let builder = DocumentBuilder::new(sample_invoice(), Vec::new());
    let text = builder.data();
    let value: serde_json::Value = serde_json::from_str(&text).expect("payload must parse");
    let barcode = value["barcode"].as_str().unwrap();
    assert_eq!(barcode.len(), 54);
    assert!(barcode.starts_with('4'));
}

#[test]
fn payload_is_deterministic() {
    let a = DocumentBuilder::new(sample_invoice(), Vec::new()).data();
    let b = DocumentBuilder::new(sample_invoice(), Vec::new()).data();
    assert_eq!(a, b);
}
