use laskugeneraattori::Error;
use laskugeneraattori::InvoiceAttachment;
use laskugeneraattori::assemble_pdfs;
use laskugeneraattori::merge_pdf;
use lopdf::Dictionary;
use lopdf::Document;
use lopdf::Object;

fn make_pdf(pages: usize) -> Vec<u8> {
    let mut doc = Document::with_version("1.5");
    let pages_id = doc.new_object_id();
    let mut kids: Vec<Object> = Vec::new();
    for _ in 0..pages {
        let mut page = Dictionary::new();
        page.set("Type", Object::Name(b"Page".to_vec()));
        page.set("Parent", Object::Reference(pages_id));
        let pid = doc.add_object(Object::Dictionary(page));
        kids.push(Object::Reference(pid));
    }
    let mut pages_dict = Dictionary::new();
    pages_dict.set("Type", Object::Name(b"Pages".to_vec()));
    pages_dict.set("Kids", Object::Array(kids));
    pages_dict.set("Count", Object::Integer(pages as i64));
    pages_dict.set(
        "MediaBox",
        Object::Array(vec![
            Object::Integer(0),
            Object::Integer(0),
            Object::Integer(612),
            Object::Integer(792),
        ]),
    );
    doc.objects.insert(pages_id, Object::Dictionary(pages_dict));
    let mut catalog = Dictionary::new();
    catalog.set("Type", Object::Name(b"Catalog".to_vec()));
    catalog.set("Pages", Object::Reference(pages_id));
    let catalog_id = doc.add_object(Object::Dictionary(catalog));
    doc.trailer.set("Root", Object::Reference(catalog_id));
    let mut buf: Vec<u8> = Vec::new();
    doc.save_to(&mut buf).expect("writing a PDF must succeed");
    buf
}

fn pdf_att(name: &str, bytes: Vec<u8>) -> InvoiceAttachment {
    InvoiceAttachment {
        filename: name.to_string(),
        bytes,
    }
}

#[test]
fn merge_counts_pages_per_input() {
    let plan = merge_pdf(vec![make_pdf(3), make_pdf(2)]).expect("both inputs parse");
    assert_eq!(plan.inputs().len(), 2);
    assert_eq!(plan.page_counts(), &vec![3, 2]);
    assert_eq!(plan.total_pages(), Some(5));
}

#[test]
fn merge_keeps_input_order() {
    let a = make_pdf(1);
    let b = make_pdf(4);
    let plan = merge_pdf(vec![a.clone(), b.clone()]).expect("both inputs parse");
    let inputs = plan.into_inputs();
    assert_eq!(inputs, vec![a, b]);
}

#[test]
fn merge_rejects_malformed_input() {
    let r = merge_pdf(vec![make_pdf(1), b"not a pdf".to_vec()]);
    assert_eq!(r.err(), Some(1));
}

#[test]
fn zero_attachments_keep_primary_page_count() {
    let plan = assemble_pdfs(make_pdf(3), Vec::new()).expect("primary parses");
    assert_eq!(plan.page_counts(), &vec![3]);
    assert_eq!(plan.total_pages(), Some(3));
}

#[test]
fn primary_and_pdf_attachment_pages_add_up() {
    // A three-page primary document and a two-page attachment merge into
    // five pages, primary pages first.
    let primary = make_pdf(3);
    let attachment = make_pdf(2);
    let plan = assemble_pdfs(
        primary.clone(),
        vec![pdf_att("receipt.pdf", attachment.clone())],
    )
    .expect("all inputs parse");
    assert_eq!(plan.page_counts(), &vec![3, 2]);
    assert_eq!(plan.total_pages(), Some(5));
    let inputs = plan.into_inputs();
    assert_eq!(inputs[0], primary);
    assert_eq!(inputs[1], attachment);
}

#[test]
fn malformed_attachment_is_identified() {
    let r = assemble_pdfs(
        make_pdf(1),
        vec![
            pdf_att("good.pdf", make_pdf(2)),
            pdf_att("bad.pdf", b"garbage bytes".to_vec()),
        ],
    );
    assert_eq!(
        r.err(),
        Some(Error::MergeError {
            index: 2,
            filename: "bad.pdf".to_string()
        })
    );
}

#[test]
fn malformed_first_attachment_is_identified() {
    let r = assemble_pdfs(
        make_pdf(1),
        vec![pdf_att("broken.pdf", vec![0x25, 0x50])],
    );
    assert_eq!(
        r.err(),
        Some(Error::MergeError {
            index: 1,
            filename: "broken.pdf".to_string()
        })
    );
}

#[test]
fn attachments_merge_in_submission_order() {
    let one = make_pdf(1);
    let two = make_pdf(2);
    let three = make_pdf(3);
    let plan = assemble_pdfs(
        one.clone(),
        vec![
            pdf_att("second.pdf", two.clone()),
            pdf_att("third.pdf", three.clone()),
        ],
    )
    .expect("all inputs parse");
    assert_eq!(plan.page_counts(), &vec![1, 2, 3]);
    let inputs = plan.into_inputs();
    assert_eq!(inputs, vec![one, two, three]);
}
