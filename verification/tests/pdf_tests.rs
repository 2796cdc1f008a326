use checklist_manager::pdf::{PDFHandler, PageImage, PageRegion};
use std::path::PathBuf;

fn pixel(img: &PageImage, x: u32, y: u32) -> [u8; 4] {
    let raw = img.as_raw();
    let i = 4 * (y as usize * img.width() as usize + x as usize);
    [raw[i], raw[i + 1], raw[i + 2], raw[i + 3]]
}

fn pdf_bytes() -> Vec<u8> {
    let mut doc = lopdf::Document::with_version("1.5");
    let mut pages = lopdf::Dictionary::new();
    pages.set("Type", lopdf::Object::Name(b"Pages".to_vec()));
    pages.set("Kids", lopdf::Object::Array(vec![]));
    pages.set("Count", lopdf::Object::Integer(0));
    let pages_id = doc.add_object(pages);
    let mut catalog = lopdf::Dictionary::new();
    catalog.set("Type", lopdf::Object::Name(b"Catalog".to_vec()));
    catalog.set("Pages", lopdf::Object::Reference(pages_id));
    let catalog_id = doc.add_object(catalog);
    doc.trailer.set("Root", lopdf::Object::Reference(catalog_id));
    let mut buf = Vec::new();
    doc.save_to(&mut buf).unwrap();
    buf
}

fn loaded_handler() -> PDFHandler {
    let mut h = PDFHandler::new().unwrap();
    assert!(h.load_pdf(PathBuf::from("form.pdf"), Ok(pdf_bytes())).is_ok());
    h
}

#[test]
fn new_handler_is_empty() {
    let h = PDFHandler::new().unwrap();
    assert!(h.get_sections().is_empty());
    assert!(h.render_page(1, None).is_none());
}

#[test]
fn section_definitions() {
    let defs = PDFHandler::get_section_definitions();
    assert_eq!(defs.len(), 2);
    assert_eq!(defs[0].title, "Home Tab");
    assert_eq!((defs[0].start_page, defs[0].end_page), (1, 1));
    assert!(defs[0].region.is_none());
    assert_eq!(defs[1].title, "Client Tab - Index Information");
    assert_eq!((defs[1].start_page, defs[1].end_page), (2, 2));
    let r = defs[1].region.as_ref().unwrap();
    assert_eq!((r.x, r.y, r.width, r.height), (50, 150, 500, 300));
}

#[test]
fn full_page_placeholder() {
    let h = loaded_handler();
    let img = h.render_page(1, None).unwrap();
    assert_eq!((img.width(), img.height()), (612, 792));
    assert_eq!(img.as_raw().len(), 612 * 792 * 4);
    // Diagonal from the top left corner.
    assert_eq!(pixel(&img, 0, 0), [180, 180, 180, 255]);
    assert_eq!(pixel(&img, 10, 10), [180, 180, 180, 255]);
    assert_eq!(pixel(&img, 611, 611), [180, 180, 180, 255]);
    // Diagonal from the bottom left corner.
    assert_eq!(pixel(&img, 0, 791), [180, 180, 180, 255]);
    assert_eq!(pixel(&img, 300, 491), [180, 180, 180, 255]);
    assert_eq!(pixel(&img, 611, 180), [180, 180, 180, 255]);
    // Border.
    assert_eq!(pixel(&img, 1, 0), [100, 100, 100, 255]);
    assert_eq!(pixel(&img, 611, 0), [100, 100, 100, 255]);
    assert_eq!(pixel(&img, 0, 400), [100, 100, 100, 255]);
    assert_eq!(pixel(&img, 611, 700), [100, 100, 100, 255]);
    assert_eq!(pixel(&img, 5, 791), [100, 100, 100, 255]);
    // Background.
    assert_eq!(pixel(&img, 5, 3), [240, 240, 240, 255]);
    assert_eq!(pixel(&img, 300, 600), [240, 240, 240, 255]);
    // Below the end of the first diagonal (it stops at x = 611).
    assert_eq!(pixel(&img, 100, 700), [240, 240, 240, 255]);
}

#[test]
fn region_placeholder() {
    let h = loaded_handler();
    let region = PageRegion { x: 50, y: 150, width: 5, height: 3 };
    let img = h.render_page(2, Some(&region)).unwrap();
    assert_eq!((img.width(), img.height()), (5, 3));
    let expected: [[u8; 5]; 3] = [
        [180, 100, 180, 100, 100],
        [100, 180, 240, 240, 100],
        [180, 100, 180, 100, 100],
    ];
    for y in 0..3u32 {
        for x in 0..5u32 {
            let v = expected[y as usize][x as usize];
            assert_eq!(pixel(&img, x, y), [v, v, v, 255], "pixel ({}, {})", x, y);
        }
    }
}

#[test]
fn single_pixel_region() {
    let h = loaded_handler();
    let region = PageRegion { x: 0, y: 0, width: 1, height: 1 };
    let img = h.render_page(7, Some(&region)).unwrap();
    assert_eq!(pixel(&img, 0, 0), [180, 180, 180, 255]);
}

#[test]
fn load_makes_sections() {
    let h = loaded_handler();
    let s = h.get_sections();
    assert_eq!(s.len(), 2);
    assert_eq!(s[0].title, "Home Tab");
    assert_eq!(s[0].page, 1);
    let img0 = s[0].image.as_ref().unwrap();
    assert_eq!((img0.width(), img0.height()), (612, 792));
    assert_eq!(s[1].title, "Client Tab - Index Information");
    assert_eq!(s[1].page, 2);
    let img1 = s[1].image.as_ref().unwrap();
    assert_eq!((img1.width(), img1.height()), (500, 300));
    assert_eq!(pixel(img1, 0, 299), [180, 180, 180, 255]);
    assert_eq!(pixel(img1, 499, 5), [100, 100, 100, 255]);
}

#[test]
fn failed_load_keeps_state() {
    let mut h = loaded_handler();
    let r = h.load_pdf(PathBuf::from("missing.pdf"), Err("no such file".to_string()));
    assert_eq!(r, Err("no such file".to_string()));
    assert_eq!(h.get_sections().len(), 2);
    assert!(h.render_page(1, None).is_some());

    let mut fresh = PDFHandler::new().unwrap();
    assert!(fresh
        .load_pdf(PathBuf::from("missing.pdf"), Err("bad".to_string()))
        .is_err());
    assert!(fresh.get_sections().is_empty());
    assert!(fresh.render_page(1, None).is_none());
}

#[test]
fn bytes_that_are_not_a_pdf_are_refused() {
    let mut h = PDFHandler::new().unwrap();
    let r = h.load_pdf(PathBuf::from("notes.txt"), Ok(b"just some text".to_vec()));
    assert!(r.is_err());
    assert!(h.get_sections().is_empty());
    assert!(h.render_page(1, None).is_none());

    let mut h = loaded_handler();
    assert!(h.load_pdf(PathBuf::from("notes.txt"), Ok(Vec::new())).is_err());
    assert_eq!(h.get_sections().len(), 2);
}

#[test]
fn attach_document_makes_sections() {
    let mut h = PDFHandler::new().unwrap();
    h.attach_document(lopdf::Document::new());
    assert_eq!(h.get_sections().len(), 2);
    assert!(h.render_page(3, None).is_some());
}

#[test]
fn empty_region_gives_empty_image() {
    let h = loaded_handler();
    let region = PageRegion { x: 3, y: 4, width: 0, height: 0 };
    let img = h.render_page(1, Some(&region)).unwrap();
    assert_eq!((img.width(), img.height()), (0, 0));
    assert!(img.as_raw().is_empty());
}

#[test]
fn any_region_without_document_gives_none() {
    let h = PDFHandler::new().unwrap();
    let region = PageRegion { x: 0, y: 0, width: 0, height: 7 };
    assert!(h.render_page(1, Some(&region)).is_none());
}

#[test]
fn unreadable_bytes_report_the_reader_message() {
    let bytes = b"%PDF-1.4 but nothing else".to_vec();
    let expected = lopdf::Document::load_mem(&bytes).unwrap_err().to_string();
    let mut h = PDFHandler::new().unwrap();
    assert_eq!(h.load_pdf(PathBuf::from("x.pdf"), Ok(bytes)), Err(expected));
}

#[test]
fn sections_stay_empty_until_a_load_succeeds() {
    let mut h = PDFHandler::new().unwrap();
    assert!(h.load_pdf(PathBuf::from("a.pdf"), Err("missing".to_string())).is_err());
    assert!(h.load_pdf(PathBuf::from("b.pdf"), Ok(b"not a pdf".to_vec())).is_err());
    assert!(h.get_sections().is_empty());
    assert!(h.render_page(1, None).is_none());
    assert!(h.load_pdf(PathBuf::from("c.pdf"), Ok(pdf_bytes())).is_ok());
    assert_eq!(h.get_sections().len(), 2);
    assert!(h.render_page(1, None).is_some());
    // A later failing load keeps the document and the sections.
    assert!(h.load_pdf(PathBuf::from("d.pdf"), Ok(b"junk".to_vec())).is_err());
    assert_eq!(h.get_sections().len(), 2);
    assert!(h.render_page(1, None).is_some());
}

/// A small PDF whose trailer's `/Prev` names its own cross-reference section.
fn self_referencing_pdf() -> Vec<u8> {
    let mut body = String::from("%PDF-1.4\n");
    let o1 = body.len();
    body.push_str("1 0 obj<</Type/Catalog/Pages 2 0 R>>endobj\n");
    let o2 = body.len();
    body.push_str("2 0 obj<</Type/Pages/Kids[]/Count 0>>endobj\n");
    let xref = body.len();
    body.push_str("xref\n0 3\n0000000000 65535 f \n");
    body.push_str(&format!("{:010} 00000 n \n{:010} 00000 n \n", o1, o2));
    body.push_str(&format!("trailer\n<</Root 1 0 R/Size 3/Prev {}>>\n", xref));
    body.push_str(&format!("startxref\n{}\n%%EOF\n", xref));
    body.into_bytes()
}

#[test]
fn cross_reference_chain_that_loops_back_still_loads() {
    let mut h = PDFHandler::new().unwrap();
    assert_eq!(h.load_pdf(PathBuf::from("loop.pdf"), Ok(self_referencing_pdf())), Ok(()));
    assert_eq!(h.get_sections().len(), 2);
}
