//! A loaded PDF and the page images of its predefined sections.
use vstd::prelude::*;
use image::{Rgba, RgbaImage};
use std::path::PathBuf;
use lopdf::Document as PdfDocument;

verus! {

/// `lopdf::Document`, carried through opaque.
#[verifier::external_type_specification]
#[verifier::external_body]
pub struct ExPdfDocument(PdfDocument);

/// `std::path::PathBuf`, carried through opaque.
#[verifier::external_type_specification]
#[verifier::external_body]
pub struct ExPathBuf(PathBuf);

/// `PathBuf::new`: an empty path. Nothing is stated of it: a path has no
/// view here.
pub assume_specification[ PathBuf::new ]() -> PathBuf;

/// What `lopdf` makes of `bytes`: `None` when it reads them as a PDF
/// document, otherwise the message of the error it reports.
pub uninterp spec fn pdf_read_failure(bytes: Seq<u8>) -> Option<Seq<char>>;

/// `lopdf::Document::load_mem`: reads a PDF document from bytes; an error is
/// turned into its message (`Display`). Stated: success exactly when
/// `pdf_read_failure` of the bytes is `None`, and the error message otherwise.
/// The document read is opaque here. The reader returns on every input: it
/// stops at a `/Prev` chain of cross-reference sections that loops back, at a
/// reference cycle while resolving objects, at nesting deeper than its limit,
/// and at decompressed data larger than its limit.
#[verifier::external_body]
fn parse_pdf(bytes: &[u8]) -> (r: Result<PdfDocument, String>)
    ensures
        match r {
            Ok(_) => pdf_read_failure(bytes@) is None,
            Err(m) => pdf_read_failure(bytes@) == Some(m@),
        },
{
    PdfDocument::load_mem(bytes).map_err(|e| e.to_string())
}

/// A rendered page image, held in an `image::RgbaImage`; Verus sees it
/// through `image_size` and `image_pixels`.
#[verifier::external_body]
pub struct PageImage {
    buffer: RgbaImage,
}

/// The width and height that an image was made with.
pub uninterp spec fn image_size(img: PageImage) -> (u32, u32);

/// What an image holds: the (red, green, blue, alpha) value at each (x, y).
pub uninterp spec fn image_pixels(img: PageImage) -> Map<(u32, u32), (u8, u8, u8, u8)>;

/// The pixels of `img` are `color(x, y)` at every (x, y) inside `size`, and
/// there are no others.
pub open spec fn pixels_are(
    img: PageImage,
    size: (u32, u32),
    color: spec_fn(u32, u32) -> (u8, u8, u8, u8),
) -> bool {
    &&& image_size(img) == size
    &&& forall|p: (u32, u32)| #[trigger]
        image_pixels(img).contains_key(p) <==> p.0 < size.0 && p.1 < size.1
    &&& forall|x: u32, y: u32|
        x < size.0 && y < size.1 ==> #[trigger] image_pixels(img)[(x, y)] == color(x, y)
}

/// The background of a placeholder page.
pub open spec fn background() -> (u8, u8, u8, u8) {
    (240, 240, 240, 255)
}

/// The border of a placeholder page.
pub open spec fn border() -> (u8, u8, u8, u8) {
    (100, 100, 100, 255)
}

/// The diagonals of a placeholder page.
pub open spec fn diagonal() -> (u8, u8, u8, u8) {
    (180, 180, 180, 255)
}

/// Whether (x, y) lies on the outermost rows or columns of a `w` by `h` page.
pub open spec fn on_border(w: u32, h: u32, x: u32, y: u32) -> bool {
    x == 0 || y == 0 || x + 1 == w || y + 1 == h
}

/// Whether (x, y) lies on one of the two diagonals drawn from the top left
/// and the bottom left corner of a `w` by `h` page, as far as the shorter side
/// reaches.
pub open spec fn on_diagonal(w: u32, h: u32, x: u32, y: u32) -> bool {
    x < w && x < h && (x == y || x + y + 1 == h)
}

/// The color of pixel (x, y) of a placeholder page of `w` by `h` pixels:
/// light gray, with a dark gray border and two mid gray diagonals drawn over it.
pub open spec fn placeholder_pixel(w: u32, h: u32, x: u32, y: u32) -> (u8, u8, u8, u8) {
    if on_diagonal(w, h, x, y) {
        diagonal()
    } else if on_border(w, h, x, y) {
        border()
    } else {
        background()
    }
}

/// `img` is the placeholder page of `w` by `h` pixels.
pub open spec fn is_placeholder_page(img: PageImage, w: u32, h: u32) -> bool {
    pixels_are(img, (w, h), |x: u32, y: u32| placeholder_pixel(w, h, x, y))
}

/// `bytes` holds the pixels of `img` row by row, four bytes (red, green, blue,
/// alpha) each.
pub open spec fn raw_layout(bytes: Seq<u8>, img: PageImage) -> bool {
    let (w, h) = image_size(img);
    &&& bytes.len() == 4 * (w as int) * (h as int)
    &&& forall|x: u32, y: u32|
        x < w && y < h ==> {
            let i = 4 * ((y as int) * (w as int) + x as int);
            let c = #[trigger] image_pixels(img)[(x, y)];
            &&& bytes[i] == c.0
            &&& bytes[i + 1] == c.1
            &&& bytes[i + 2] == c.2
            &&& bytes[i + 3] == c.3
        }
}


/// A rectangle of a page, in points.
#[derive(Clone)]
pub struct PageRegion {
    pub x: u32,
    pub y: u32,
    pub width: u32,
    pub height: u32,
}

/// Where a section of the form lies: its title, its pages and, optionally,
/// the part of the first page that shows it.
#[derive(Clone)]
pub struct SectionDefinition {
    pub title: String,
    pub start_page: u32,
    pub end_page: u32,
    pub region: Option<PageRegion>,
}

/// A section of the loaded form with the image shown for it.
pub struct PDFSection {
    pub title: String,
    pub page: u32,
    pub image: Option<PageImage>,
}

/// The loaded PDF, where it came from, and its sections.
pub struct PDFHandler {
    document: Option<PdfDocument>,
    sections: Vec<PDFSection>,
    current_path: PathBuf,
}

/// The width of a full page, in points (US Letter at 72 DPI).
pub const PAGE_WIDTH: u32 = 612;

/// The height of a full page, in points (US Letter at 72 DPI).
pub const PAGE_HEIGHT: u32 = 792;

/// The size of the image rendered for a region: the region's own size, or a
/// full page without one.
pub open spec fn render_size(region: Option<PageRegion>) -> (u32, u32) {
    match region {
        Some(r) => (r.width, r.height),
        None => (PAGE_WIDTH, PAGE_HEIGHT),
    }
}

/// The region that a borrowed region stands for.
pub open spec fn region_of(region: Option<&PageRegion>) -> Option<PageRegion> {
    match region {
        Some(r) => Some(*r),
        None => None,
    }
}

/// A region that can be rendered: either both sides are empty (the image is
/// empty) or neither is, and the image fits in memory addresses.
pub open spec fn renderable(region: Option<PageRegion>) -> bool {
    let (w, h) = render_size(region);
    &&& (w > 0) == (h > 0)
    &&& (w as int) * (h as int) * 4 <= usize::MAX
}

/// `section` is what loading makes of `def`: its title, its first page, and
/// the placeholder image of its region.
pub open spec fn section_from(section: PDFSection, def: SectionDefinition) -> bool {
    &&& section.title@ == def.title@
    &&& section.page == def.start_page
    &&& section.image matches Some(img) && is_placeholder_page(
        img,
        render_size(def.region).0,
        render_size(def.region).1,
    )
}

/// The title of the form's first section.
pub open spec fn home_section_title() -> Seq<char> {
    "Home Tab"@
}

/// The title of the form's second section.
pub open spec fn index_section_title() -> Seq<char> {
    "Client Tab - Index Information"@
}

/// The predefined sections: "Home Tab" on the whole of page 1, and
/// "Client Tab - Index Information" on a 500 by 300 region of page 2 at
/// (50, 150).
pub open spec fn predefined_sections(defs: Seq<SectionDefinition>) -> bool {
    &&& defs.len() == 2
    &&& defs[0].title@ == home_section_title()
    &&& defs[0].start_page == 1
    &&& defs[0].end_page == 1
    &&& defs[0].region is None
    &&& defs[1].title@ == index_section_title()
    &&& defs[1].start_page == 2
    &&& defs[1].end_page == 2
    &&& defs[1].region == Some(PageRegion { x: 50, y: 150, width: 500, height: 300 })
}

/// The sections made from the predefined definitions: "Home Tab" on page 1
/// with a whole-page placeholder image, and "Client Tab - Index Information"
/// on page 2 with a 500 by 300 placeholder image.
pub open spec fn predefined_page_sections(s: Seq<PDFSection>) -> bool {
    &&& s.len() == 2
    &&& s[0].title@ == home_section_title()
    &&& s[0].page == 1
    &&& s[0].image matches Some(img) && is_placeholder_page(img, PAGE_WIDTH, PAGE_HEIGHT)
    &&& s[1].title@ == index_section_title()
    &&& s[1].page == 2
    &&& s[1].image matches Some(img) && is_placeholder_page(img, 500, 300)
}

/// What a load does to a handler: one that succeeded (`ok`) leaves a loaded
/// PDF and the predefined page sections; one that failed keeps the loaded PDF
/// and the sections as they were.
pub open spec fn loaded(before: PDFHandler, after: PDFHandler, ok: bool) -> bool {
    if ok {
        after.has_document() && predefined_page_sections(after.sections())
    } else {
        &&& after.document() == before.document()
        &&& after.has_document() == before.has_document()
        &&& after.sections() == before.sections()
    }
}

/// `hs` are the states of a handler through a run of loads, `oks` whether
/// each succeeded: `hs[i + 1]` comes from `hs[i]` by load `i`.
pub open spec fn load_run(hs: Seq<PDFHandler>, oks: Seq<bool>) -> bool {
    &&& hs.len() == oks.len() + 1
    &&& forall|i: int| 0 <= i < oks.len() ==> loaded(hs[i], #[trigger] hs[i + 1], oks[i])
}

/// Law: starting from a handler without a PDF and without sections (as `new`
/// makes one), after any run of loads there is a PDF to render exactly when
/// some load succeeded, and the sections stay empty until one does.
pub proof fn lemma_load_run(hs: Seq<PDFHandler>, oks: Seq<bool>)
    requires
        load_run(hs, oks),
        !hs[0].has_document(),
        hs[0].sections().len() == 0,
    ensures
        hs.last().has_document() == (exists|i: int| 0 <= i < oks.len() && oks[i]),
        !(exists|i: int| 0 <= i < oks.len() && oks[i]) ==> hs.last().sections().len() == 0,
    decreases oks.len(),
{
    if oks.len() > 0 {
        let n = oks.len() - 1;
        let hs1 = hs.drop_last();
        let oks1 = oks.drop_last();
        assert forall|i: int| 0 <= i < oks1.len() implies loaded(hs1[i], #[trigger] hs1[i + 1], oks1[i]) by {
            assert(loaded(hs[i], hs[i + 1], oks[i]));
        }
        lemma_load_run(hs1, oks1);
        assert(loaded(hs[n], hs[n + 1], oks[n]));
        assert(hs1.last() == hs[n]);
        if oks[n] {
            assert(exists|i: int| 0 <= i < oks.len() && oks[i]);
        } else {
            assert((exists|i: int| 0 <= i < oks.len() && oks[i]) == (exists|i: int|
                0 <= i < oks1.len() && oks1[i])) by {
                if exists|i: int| 0 <= i < oks.len() && oks[i] {
                    let i = choose|i: int| 0 <= i < oks.len() && oks[i];
                    assert(oks1[i]);
                }
                if exists|i: int| 0 <= i < oks1.len() && oks1[i] {
                    let i = choose|i: int| 0 <= i < oks1.len() && oks1[i];
                    assert(oks[i]);
                }
            }
        }
    }
}

/// Draws the placeholder page of `w` by `h` pixels.
fn draw_placeholder(w: u32, h: u32) -> (img: PageImage)
    requires
        (w > 0) == (h > 0),
        (w as int) * (h as int) * 4 <= usize::MAX,
    ensures
        is_placeholder_page(img, w, h),
{
    assert((w as int) * 4 <= usize::MAX) by (nonlinear_arith)
        requires
            (w > 0) == (h > 0),
            (w as int) * (h as int) * 4 <= usize::MAX,
    ;
    let mut img = PageImage::blank(w, h);
    if w == 0 {
        return img;
    }
    // Fill with light gray, row by row.
    let mut y: u32 = 0;
    while y < h
        invariant
            y <= h,
            pixels_are(img, (w, h), |a: u32, b: u32| if b < y { background() } else { (0u8, 0u8, 0u8, 0u8) }),
        decreases h - y,
    {
        let mut x: u32 = 0;
        while x < w
            invariant
                x <= w,
                y < h,
                pixels_are(
                    img,
                    (w, h),
                    |a: u32, b: u32|
                        if b < y || (b == y && a < x) {
                            background()
                        } else {
                            (0u8, 0u8, 0u8, 0u8)
                        },
                ),
            decreases w - x,
        {
            img.put(x, y, (240, 240, 240, 255));
            x = x + 1;
        }
        y = y + 1;
    }
    // Border: top and bottom rows.
    let mut x: u32 = 0;
    while x < w
        invariant
            x <= w,
            h > 0,
            pixels_are(
                img,
                (w, h),
                |a: u32, b: u32|
                    if (b == 0 || b + 1 == h) && a < x {
                        border()
                    } else {
                        background()
                    },
            ),
        decreases w - x,
    {
        img.put(x, 0, (100, 100, 100, 255));
        img.put(x, h - 1, (100, 100, 100, 255));
        x = x + 1;
    }
    // Border: left and right columns.
    let mut y: u32 = 0;
    while y < h
        invariant
            y <= h,
            w > 0,
            h > 0,
            pixels_are(
                img,
                (w, h),
                |a: u32, b: u32|
                    if b == 0 || b + 1 == h || ((a == 0 || a + 1 == w) && b < y) {
                        border()
                    } else {
                        background()
                    },
            ),
        decreases h - y,
    {
        img.put(0, y, (100, 100, 100, 255));
        img.put(w - 1, y, (100, 100, 100, 255));
        y = y + 1;
    }
    // Diagonals from the top left and the bottom left corner.
    let n: u32 = if w < h { w } else { h };
    let mut i: u32 = 0;
    while i < n
        invariant
            i <= n,
            w > 0,
            h > 0,
            n == if w < h { w } else { h },
            pixels_are(
                img,
                (w, h),
                |a: u32, b: u32|
                    if a < i && (a == b || a + b + 1 == h) {
                        diagonal()
                    } else if on_border(w, h, a, b) {
                        border()
                    } else {
                        background()
                    },
            ),
        decreases n - i,
    {
        img.put(i, i, (180, 180, 180, 255));
        img.put(i, h - i - 1, (180, 180, 180, 255));
        i = i + 1;
    }
    img
}


impl PDFHandler {
    /// Whether a PDF is loaded.
    pub closed spec fn has_document(&self) -> bool {
        self.document is Some
    }

    /// The loaded PDF, if any.
    pub closed spec fn document(&self) -> Option<PdfDocument> {
        self.document
    }

    /// The sections of the loaded PDF.
    pub closed spec fn sections(&self) -> Seq<PDFSection> {
        self.sections@
    }

    /// The path of the last PDF asked for.
    pub closed spec fn path(&self) -> PathBuf {
        self.current_path
    }

    /// A handler without a PDF. It always succeeds.
    pub fn new() -> (r: Result<PDFHandler, String>)
        ensures
            r matches Ok(h) && !h.has_document() && h.sections().len() == 0,
    {
        Ok(PDFHandler { document: None, sections: Vec::new(), current_path: PathBuf::new() })
    }

    /// The image shown for `region` of page `page_num`: the placeholder page of
    /// the region's size, or of a whole page without a region. `None` when no
    /// PDF is loaded.
    pub fn render_page(&self, page_num: u32, region: Option<&PageRegion>) -> (r: Option<PageImage>)
        requires
            self.has_document() ==> renderable(region_of(region)),
        ensures
            r is Some <==> self.has_document(),
            r matches Some(img) ==> is_placeholder_page(
                img,
                render_size(region_of(region)).0,
                render_size(region_of(region)).1,
            ),
    {
        match &self.document {
            Some(_) => {
                let (final_width, final_height) = match region {
                    Some(r) => (r.width, r.height),
                    None => (PAGE_WIDTH, PAGE_HEIGHT),
                };
                Some(draw_placeholder(final_width, final_height))
            },
            None => None,
        }
    }

    /// Makes `doc` the loaded PDF and makes the sections from the predefined
    /// definitions, each with the placeholder image of its region.
    pub fn attach_document(&mut self, doc: PdfDocument)
        ensures
            final(self).document() == Some(doc),
            predefined_page_sections(final(self).sections()),
            final(self).path() == old(self).path(),
    {
        self.document = Some(doc);
        let defs = PDFHandler::get_section_definitions();
        let mut sections: Vec<PDFSection> = Vec::new();
        let mut i: usize = 0;
        while i < defs.len()
            invariant
                predefined_sections(defs@),
                self.document is Some,
                i <= defs.len(),
                sections@.len() == i,
                forall|j: int| 0 <= j < i ==> section_from(#[trigger] sections@[j], defs@[j]),
            decreases defs.len() - i,
        {
            let def = &defs[i];
            let section = PDFSection {
                title: def.title.clone(),
                page: def.start_page,
                image: self.render_page(def.start_page, def.region.as_ref()),
            };
            sections.push(section);
            i = i + 1;
        }
        assert(section_from(sections@[0], defs@[0]));
        assert(section_from(sections@[1], defs@[1]));
        self.sections = sections;
    }

    /// Loads the PDF whose bytes were read from `path` (or the reason they
    /// could not be read). The path is kept either way. When the bytes read as
    /// a PDF, it becomes the loaded one and the sections are made from the
    /// predefined definitions (see `attach_document`); otherwise an error is
    /// returned (the reading error as it was given, or `lopdf`'s message) and
    /// the loaded PDF and the sections stay as they were. See `parse_pdf` for
    /// the inputs on which `lopdf` does not return.
    pub fn load_pdf(&mut self, path: PathBuf, contents: Result<Vec<u8>, String>) -> (r: Result<(), String>)
        ensures
            final(self).path() == path,
            match contents {
                Err(e) => r == Err::<(), String>(e),
                Ok(bytes) => match pdf_read_failure(bytes@) {
                    None => r is Ok,
                    Some(m) => r matches Err(x) && x@ == m,
                },
            },
            loaded(*old(self), *final(self), r is Ok),
    {
        self.current_path = path;
        match contents {
            Ok(bytes) => match parse_pdf(bytes.as_slice()) {
                Ok(doc) => {
                    self.attach_document(doc);
                    Ok(())
                },
                Err(e) => Err(e),
            },
            Err(e) => Err(e),
        }
    }

    /// The predefined sections of the form: "Home Tab" on the whole of page 1,
    /// and "Client Tab - Index Information" on a region of page 2.
    pub fn get_section_definitions() -> (defs: Vec<SectionDefinition>)
        ensures
            predefined_sections(defs@),
    {
        let home = SectionDefinition {
            title: "Home Tab".to_owned(),
            start_page: 1,
            end_page: 1,
            region: None,
        };
        let index = SectionDefinition {
            title: "Client Tab - Index Information".to_owned(),
            start_page: 2,
            end_page: 2,
            region: Some(PageRegion { x: 50, y: 150, width: 500, height: 300 }),
        };
        let mut defs = Vec::new();
        defs.push(home);
        defs.push(index);
        defs
    }

    /// The sections of the loaded PDF.
    pub fn get_sections(&self) -> (s: &[PDFSection])
        ensures
            s@ == self.sections(),
    {
        self.sections.as_slice()
    }
}

impl PageImage {
    /// `ImageBuffer::new`: an image of the given size whose pixels are all
    /// zero. It panics when the buffer length `4 * width * height`, computed
    /// as `4 * width` first, overflows `usize`, which `requires` excludes.
    #[verifier::external_body]
    fn blank(width: u32, height: u32) -> (img: PageImage)
        requires
            (width as int) * 4 <= usize::MAX,
            (width as int) * (height as int) * 4 <= usize::MAX,
        ensures
            pixels_are(img, (width, height), |x: u32, y: u32| (0u8, 0u8, 0u8, 0u8)),
    {
        PageImage { buffer: RgbaImage::new(width, height) }
    }

    /// `ImageBuffer::put_pixel`: sets one pixel inside the image; it panics
    /// outside, which `requires` excludes.
    #[verifier::external_body]
    fn put(&mut self, x: u32, y: u32, color: (u8, u8, u8, u8))
        requires
            x < image_size(*old(self)).0,
            y < image_size(*old(self)).1,
        ensures
            image_size(*final(self)) == image_size(*old(self)),
            image_pixels(*final(self)) == image_pixels(*old(self)).insert((x, y), color),
    {
        self.buffer.put_pixel(x, y, Rgba([color.0, color.1, color.2, color.3]))
    }

    /// `ImageBuffer::width`.
    #[verifier::external_body]
    fn buffer_width(&self) -> (w: u32)
        ensures
            w == image_size(*self).0,
    {
        self.buffer.width()
    }

    /// `ImageBuffer::height`.
    #[verifier::external_body]
    fn buffer_height(&self) -> (h: u32)
        ensures
            h == image_size(*self).1,
    {
        self.buffer.height()
    }

    /// `ImageBuffer::as_raw`: the pixels row by row, four bytes (red, green,
    /// blue, alpha) each.
    #[verifier::external_body]
    fn buffer_bytes(&self) -> (bytes: &Vec<u8>)
        ensures
            raw_layout(bytes@, *self),
    {
        self.buffer.as_raw()
    }

    /// The width in pixels.
    pub fn width(&self) -> (w: u32)
        ensures
            w == image_size(*self).0,
    {
        self.buffer_width()
    }

    /// The height in pixels.
    pub fn height(&self) -> (h: u32)
        ensures
            h == image_size(*self).1,
    {
        self.buffer_height()
    }

    /// The pixels row by row, four bytes (red, green, blue, alpha) each.
    pub fn as_raw(&self) -> (bytes: &[u8])
        ensures
            raw_layout(bytes@, *self),
    {
        self.buffer_bytes().as_slice()
    }
}

} // verus!
