//! The state of the checklist manager and what each user action does to it.
use vstd::prelude::*;
use crate::checklist::{create_default_checklist, checklist_entries, default_outline, follows, has_item, toggled};
use crate::document::{clock_stamp, current_time, Document, Timestamp};
use crate::pdf::{PDFHandler, PDFSection};
use crate::store::{DocumentStore, as_map, distinct_names, has_name, name_index, removed, stored};

verus! {

/// The state of the checklist manager as the contracts see it.
pub struct AppView {
    pub documents: Seq<(Seq<char>, Document)>,
    pub current: Seq<char>,
    pub handler: Option<PDFHandler>,
    pub selected: Option<usize>,
    pub new_name: Seq<char>,
    pub rename: Option<(Seq<char>, Seq<char>)>,
}

/// The checklist manager: the documents, the one being shown, the loaded PDF,
/// the PDF section being shown, the name typed for a new checklist, and the
/// rename in progress (old name, proposed name).
pub struct ChecklistApp {
    documents: DocumentStore,
    current_document: String,
    pdf_handler: Option<PDFHandler>,
    selected_section: Option<usize>,
    new_doc_name: String,
    rename_state: Option<(String, String)>,
}

impl View for ChecklistApp {
    type V = AppView;

    closed spec fn view(&self) -> AppView {
        AppView {
            documents: self.documents@,
            current: self.current_document@,
            handler: self.pdf_handler,
            selected: self.selected_section,
            new_name: self.new_doc_name@,
            rename: match self.rename_state {
                Some(p) => Some((p.0@, p.1@)),
                None => None,
            },
        }
    }
}

/// `d` is a new document named `name`: the default checklist, all unchecked,
/// stamped `now` when a time is given.
pub open spec fn fresh_document(d: Document, name: Seq<char>, now: Option<Timestamp>) -> bool {
    &&& d.name@ == name
    &&& follows(d.checklist, default_outline())
    &&& now matches Some(t) ==> d.last_modified == t
}

/// What "New Checklist" does to `before`: with an empty name nothing happens;
/// otherwise a fresh document is stored under the typed name (replacing one of
/// that name), becomes the current one, and the typed name is cleared.
pub open spec fn created(before: AppView, after: AppView, now: Option<Timestamp>, save: bool) -> bool {
    if before.new_name.len() == 0 {
        &&& after == before
        &&& !save
    } else {
        let name = before.new_name;
        let d = after.documents[name_index(after.documents, name)].1;
        &&& save
        &&& has_name(after.documents, name)
        &&& fresh_document(d, name, now)
        &&& after.documents == stored(before.documents, name, d)
        &&& after == AppView {
            documents: after.documents,
            current: name,
            new_name: Seq::empty(),
            ..before
        }
    }
}

/// `d2` is `d` under the name `name`: same checklist, stamped modified at
/// `now` when a time is given.
pub open spec fn renamed_document(d: Document, d2: Document, name: Seq<char>, now: Option<Timestamp>) -> bool {
    &&& d2.name@ == name
    &&& d2.checklist == d.checklist
    &&& now matches Some(t) ==> d2.last_modified == t
}

/// What "Save" in the rename window does to `before` with `new_name` typed:
/// nothing without a rename in progress or with an empty name; otherwise the
/// rename ends and, when a document has the old name, it moves to the new
/// name (replacing one stored there), taking the new name itself and stamped
/// modified at `now`, and the current document follows it.
pub open spec fn renamed(
    before: AppView,
    after: AppView,
    new_name: Seq<char>,
    now: Option<Timestamp>,
    save: bool,
) -> bool {
    match before.rename {
        None => after == before && !save,
        Some(r) => {
            let old_name = r.0;
            if new_name.len() == 0 {
                after == before && !save
            } else if has_name(before.documents, old_name) {
                let d = before.documents[name_index(before.documents, old_name)].1;
                let d2 = after.documents[name_index(after.documents, new_name)].1;
                &&& save
                &&& has_name(after.documents, new_name)
                &&& renamed_document(d, d2, new_name, now)
                &&& after.documents == stored(removed(before.documents, old_name), new_name, d2)
                &&& after == AppView {
                    documents: after.documents,
                    current: if before.current == old_name {
                        new_name
                    } else {
                        before.current
                    },
                    rename: None,
                    ..before
                }
            } else {
                &&& !save
                &&& after == AppView { rename: None, ..before }
            }
        },
    }
}

/// `i` is the last position of `sections` titled `title`.
pub open spec fn last_titled(sections: Seq<PDFSection>, title: Seq<char>, i: int) -> bool {
    &&& 0 <= i < sections.len()
    &&& sections[i].title@ == title
    &&& forall|j: int| i < j < sections.len() ==> (#[trigger] sections[j]).title@ != title
}

/// No section of `sections` is titled `title`.
pub open spec fn untitled(sections: Seq<PDFSection>, title: Seq<char>) -> bool {
    forall|j: int| 0 <= j < sections.len() ==> (#[trigger] sections[j]).title@ != title
}

/// The PDF section shown after clicking an item of section `title`: the last
/// section of the loaded PDF with that title, or `selected` as it was when
/// there is no PDF or no such section.
pub open spec fn section_selection(
    handler: Option<PDFHandler>,
    selected: Option<usize>,
    title: Seq<char>,
    after: Option<usize>,
) -> bool {
    match handler {
        None => after == selected,
        Some(h) => {
            ||| untitled(h.sections(), title) && after == selected
            ||| after matches Some(i) && last_titled(h.sections(), title, i as int)
        },
    }
}


/// What clicking the check box of item `child` of section `section` of the
/// shown document does to `before`: when the shown document has that item,
/// it changes as `toggled` says, the document keeps its name and is stamped
/// `now` when a time is given, the other documents stay, the PDF section
/// selection follows `section_selection`, and saving is asked for; otherwise
/// nothing changes and no saving is asked for.
pub open spec fn clicked(
    before: AppView,
    after: AppView,
    section: Seq<char>,
    child: Seq<char>,
    now: Option<Timestamp>,
    save: bool,
) -> bool {
    let docs = before.documents;
    let docs2 = after.documents;
    let i = name_index(docs, before.current);
    &&& save == (has_name(docs, before.current) && has_item(
        checklist_entries(docs[i].1.checklist),
        section,
        child,
    ))
    &&& !save ==> after == before
    &&& save ==> {
        &&& docs2.len() == docs.len()
        &&& forall|j: int| 0 <= j < docs.len() && j != i ==> docs2[j] == docs[j]
        &&& docs2[i].0 == docs[i].0
        &&& docs2[i].1.name == docs[i].1.name
        &&& now matches Some(t) ==> docs2[i].1.last_modified == t
        &&& toggled(
            checklist_entries(docs[i].1.checklist),
            checklist_entries(docs2[i].1.checklist),
            section,
            child,
        )
        &&& section_selection(before.handler, before.selected, section, after.selected)
        &&& after == AppView { documents: docs2, selected: after.selected, ..before }
    }
}

/// Law: "New Checklist" asks for saving whenever it changes the documents.
pub proof fn lemma_created_changes_are_saved(
    before: AppView,
    after: AppView,
    now: Option<Timestamp>,
    save: bool,
)
    requires
        created(before, after, now, save),
        after.documents != before.documents,
    ensures
        save,
{
}


/// Law: a click asks for saving whenever it changes the documents.
pub proof fn lemma_clicked_changes_are_saved(
    before: AppView,
    after: AppView,
    section: Seq<char>,
    child: Seq<char>,
    now: Option<Timestamp>,
    save: bool,
)
    requires
        clicked(before, after, section, child, now, save),
        after.documents != before.documents,
    ensures
        save,
{
}

/// The document shown is one that is stored, or none is shown.
pub open spec fn shows_stored(v: AppView) -> bool {
    v.current.len() == 0 || has_name(v.documents, v.current)
}

/// Law: "New Checklist" keeps the shown document a stored one.
pub proof fn lemma_created_shows_stored(
    before: AppView,
    after: AppView,
    now: Option<Timestamp>,
    save: bool,
)
    requires
        created(before, after, now, save),
        shows_stored(before),
    ensures
        shows_stored(after),
{
}

/// Law: a rename keeps the shown document a stored one.
pub proof fn lemma_renamed_shows_stored(
    before: AppView,
    after: AppView,
    new_name: Seq<char>,
    now: Option<Timestamp>,
    save: bool,
)
    requires
        renamed(before, after, new_name, now, save),
        distinct_names(before.documents),
        shows_stored(before),
    ensures
        shows_stored(after),
{
    if let Some(r) = before.rename {
        let old_name = r.0;
        if new_name.len() > 0 && has_name(before.documents, old_name) && before.current != old_name
            && before.current.len() > 0 {
            let s = before.documents;
            let t = removed(s, old_name);
            let d2 = after.documents[name_index(after.documents, new_name)].1;
            crate::store::lemma_removed_as_map(s, old_name);
            crate::store::lemma_removed_distinct(s, old_name);
            crate::store::lemma_stored_as_map(t, new_name, d2);
            assert(as_map(s).dom().contains(before.current));
            assert(as_map(t).dom().contains(before.current));
            assert(as_map(stored(t, new_name, d2)).dom().contains(before.current));
        }
    }
}

/// Law: a click keeps the shown document a stored one.
pub proof fn lemma_clicked_shows_stored(
    before: AppView,
    after: AppView,
    section: Seq<char>,
    child: Seq<char>,
    now: Option<Timestamp>,
    save: bool,
)
    requires
        clicked(before, after, section, child, now, save),
        shows_stored(before),
    ensures
        shows_stored(after),
{
    if save {
        let i = name_index(before.documents, before.current);
        assert(after.documents[i].0 == before.documents[i].0);
    }
}

/// Law: switching to a stored document shows a stored document.
pub proof fn lemma_select_shows_stored(before: AppView, after: AppView, name: Seq<char>)
    requires
        after == (AppView { current: name, ..before }),
        has_name(before.documents, name),
    ensures
        shows_stored(after),
{
}

/// Law: a rename asks for saving whenever it changes the documents.
pub proof fn lemma_renamed_changes_are_saved(
    before: AppView,
    after: AppView,
    new_name: Seq<char>,
    now: Option<Timestamp>,
    save: bool,
)
    requires
        renamed(before, after, new_name, now, save),
        after.documents != before.documents,
    ensures
        save,
{
}

/// Law: after a rename to a non-empty name of a document that exists, the
/// document is found under the new name and, unless the names are equal, no
/// longer under the old one; the shown document follows it.
pub proof fn lemma_rename_moves(
    before: AppView,
    after: AppView,
    old_name: Seq<char>,
    new_name: Seq<char>,
    now: Option<Timestamp>,
    save: bool,
)
    requires
        renamed(before, after, new_name, now, save),
        before.rename matches Some(r) && r.0 == old_name,
        has_name(before.documents, old_name),
        new_name.len() > 0,
        distinct_names(before.documents),
    ensures
        save,
        has_name(after.documents, new_name),
        old_name != new_name ==> !has_name(after.documents, old_name),
        before.current == old_name ==> after.current == new_name,
        after.rename is None,
{
    let s = before.documents;
    let t = removed(s, old_name);
    crate::store::lemma_removed_distinct(s, old_name);
    if old_name != new_name {
        if has_name(after.documents, old_name) {
            let i = choose|i: int|
                0 <= i < after.documents.len() && after.documents[i].0 == old_name;
            if has_name(t, new_name) {
                assert(after.documents[i] == t[i]);
            } else {
                if i < t.len() {
                    assert(after.documents[i] == t[i]);
                    assert(has_name(t, old_name));
                } else {
                    assert(after.documents[i].0 == new_name);
                }
            }
        }
    }
}

impl ChecklistApp {
    /// The manager as it starts, with the documents read back from storage if
    /// reading succeeded (else none); the first stored document is shown.
    pub fn new(saved: Result<DocumentStore, String>) -> (app: ChecklistApp)
        ensures
            app@.documents == (match saved {
                Ok(s) => s@,
                Err(_) => Seq::<(Seq<char>, Document)>::empty(),
            }),
            app@.current == (if app@.documents.len() > 0 {
                app@.documents[0].0
            } else {
                Seq::<char>::empty()
            }),
            app@.handler is None,
            app@.selected is None,
            app@.new_name == Seq::<char>::empty(),
            app@.rename is None,
    {
        let mut app = ChecklistApp {
            documents: DocumentStore::new(),
            current_document: String::new(),
            pdf_handler: None,
            selected_section: None,
            new_doc_name: String::new(),
            rename_state: None,
        };
        if let Ok(saved) = saved {
            app.documents = saved;
            if let Some(first) = app.documents.get_index(0) {
                app.current_document = first.0.clone();
            }
        }
        app
    }

    /// All documents.
    pub fn documents(&self) -> (d: &DocumentStore)
        ensures
            d@ == self@.documents,
    {
        &self.documents
    }

    /// The name of the document being shown.
    pub fn current_document(&self) -> (n: &String)
        ensures
            n@ == self@.current,
    {
        &self.current_document
    }

    /// The document being shown, if one has its name.
    pub fn current_doc(&self) -> (d: Option<&Document>)
        ensures
            match d {
                Some(d) => has_name(self@.documents, self@.current) && *d
                    == self@.documents[name_index(self@.documents, self@.current)].1,
                None => !has_name(self@.documents, self@.current),
            },
    {
        self.documents.get(&self.current_document)
    }

    /// The loaded PDF, if any.
    pub fn pdf_handler(&self) -> (h: Option<&PDFHandler>)
        ensures
            match h {
                Some(h) => self@.handler == Some(*h),
                None => self@.handler is None,
            },
    {
        match &self.pdf_handler {
            Some(h) => Some(h),
            None => None,
        }
    }

    /// The position of the PDF section being shown, if any.
    pub fn selected_section(&self) -> (s: Option<usize>)
        ensures
            s == self@.selected,
    {
        self.selected_section
    }

    /// The name typed for a new checklist.
    pub fn new_doc_name(&self) -> (n: &String)
        ensures
            n@ == self@.new_name,
    {
        &self.new_doc_name
    }

    /// The rename in progress: the old name and the proposed name.
    pub fn rename_state(&self) -> (r: Option<(&String, &String)>)
        ensures
            match r {
                Some(p) => self@.rename == Some((p.0@, p.1@)),
                None => self@.rename is None,
            },
    {
        match &self.rename_state {
            Some(p) => Some((&p.0, &p.1)),
            None => None,
        }
    }

    /// The name typed for a new checklist changes to `text`.
    pub fn set_new_doc_name(&mut self, text: String)
        ensures
            final(self)@ == (AppView { new_name: text@, ..old(self)@ }),
    {
        self.new_doc_name = text;
    }

    /// "New Checklist" at time `now`; returns whether the documents need saving.
    pub fn create_checklist_at(&mut self, now: Timestamp) -> (save: bool)
        ensures
            created(old(self)@, final(self)@, Some(now), save),
    {
        if self.new_doc_name.as_str().is_empty() {
            return false;
        }
        let name = self.new_doc_name.clone();
        let doc = Document { name: name.clone(), checklist: create_default_checklist(), last_modified: now };
        let _ = self.documents.insert(name.clone(), doc);
        self.current_document = name;
        self.new_doc_name = String::new();
        true
    }

    /// "New Checklist", stamped with the current time; returns whether the
    /// documents need saving.
    pub fn create_checklist(&mut self) -> (save: bool)
        ensures
            exists|t: Timestamp| clock_stamp(t) && created(old(self)@, final(self)@, Some(t), save),
    {
        let now = current_time();
        self.create_checklist_at(now)
    }

    /// Clicking the name of a document shows it.
    pub fn select_document(&mut self, name: &String)
        ensures
            final(self)@ == (AppView { current: name@, ..old(self)@ }),
    {
        self.current_document = name.clone();
    }

    /// The rename button of a document opens the rename window for it, with
    /// its own name proposed.
    pub fn begin_rename(&mut self, name: &String)
        ensures
            final(self)@ == (AppView { rename: Some((name@, name@)), ..old(self)@ }),
    {
        self.rename_state = Some((name.clone(), name.clone()));
    }

    /// "Cancel" in the rename window closes it.
    pub fn cancel_rename(&mut self)
        ensures
            final(self)@ == (AppView { rename: None, ..old(self)@ }),
    {
        self.rename_state = None;
    }

    /// "Save" in the rename window with `new_name` typed, at time `now`;
    /// returns whether the documents need saving.
    pub fn confirm_rename_at(&mut self, new_name: String, now: Timestamp) -> (save: bool)
        ensures
            renamed(old(self)@, final(self)@, new_name@, Some(now), save),
    {
        let old_name = match &self.rename_state {
            Some(p) => p.0.clone(),
            None => {
                return false;
            },
        };
        if new_name.as_str().is_empty() {
            return false;
        }
        let mut save = false;
        if let Some(doc) = self.documents.remove(&old_name) {
            let updated_doc = Document {
                name: new_name.clone(),
                checklist: doc.checklist,
                last_modified: now,
            };
            let _ = self.documents.insert(new_name.clone(), updated_doc);
            if self.current_document == old_name {
                self.current_document = new_name;
            }
            save = true;
        }
        self.rename_state = None;
        save
    }

    /// "Save" in the rename window with `new_name` typed, stamped with the
    /// current time; returns whether the documents need saving.
    pub fn confirm_rename(&mut self, new_name: String) -> (save: bool)
        ensures
            exists|t: Timestamp| clock_stamp(t) && renamed(old(self)@, final(self)@, new_name@, Some(t), save),
    {
        let now = current_time();
        self.confirm_rename_at(new_name, now)
    }

    /// Clicking the check box of item `child` of section `section` of the
    /// document being shown, at time `now`: the item's mark changes (see
    /// `Checklist::toggle_item`), the section is completed or reopened, the
    /// document is stamped modified at `now`, and the last PDF section titled
    /// `section` is shown, if the loaded PDF has one. Returns whether the
    /// documents need saving: exactly when the item exists.
    pub fn toggle_item_at(&mut self, section: &String, child: &String, now: Timestamp) -> (save: bool)
        ensures
            clicked(old(self)@, final(self)@, section@, child@, Some(now), save),
    {
        let found = self.documents.toggle_item(&self.current_document, section, child, now);
        if !found {
            return false;
        }
        if let Some(handler) = &self.pdf_handler {
            let sections = handler.get_sections();
            let mut selected = self.selected_section;
            let mut idx: usize = 0;
            while idx < sections.len()
                invariant
                    idx <= sections@.len(),
                    sections@ == handler.sections(),
                    ({
                        ||| untitled(sections@.subrange(0, idx as int), section@) && selected
                            == old(self).selected_section
                        ||| selected matches Some(i) && last_titled(
                            sections@.subrange(0, idx as int),
                            section@,
                            i as int,
                        )
                    }),
                decreases sections@.len() - idx,
            {
                if sections[idx].title == *section {
                    selected = Some(idx);
                }
                idx = idx + 1;
            }
            assert(sections@.subrange(0, sections@.len() as int) =~= sections@);
            self.selected_section = selected;
        }
        true
    }

    /// Clicking the check box of item `child` of section `section` of the
    /// document being shown (see `toggle_item_at`), stamped with the current
    /// time. Returns whether the documents need saving.
    pub fn toggle_item(&mut self, section: &String, child: &String) -> (save: bool)
        ensures
            exists|t: Timestamp|
                clock_stamp(t) && clicked(old(self)@, final(self)@, section@, child@, Some(t), save),
    {
        let now = current_time();
        self.toggle_item_at(section, child, now)
    }

    /// A PDF was opened and loaded: it becomes the loaded one.
    pub fn install_pdf_handler(&mut self, handler: PDFHandler)
        ensures
            final(self)@ == (AppView { handler: Some(handler), ..old(self)@ }),
    {
        self.pdf_handler = Some(handler);
    }

    /// The end of "Upload PDF": `handler` has tried to load the chosen file,
    /// with `result`. When that succeeded, it becomes the loaded PDF; when it
    /// failed, the PDF loaded before stays. The result is handed back.
    pub fn finish_pdf_upload(
        &mut self,
        handler: PDFHandler,
        result: Result<(), String>,
    ) -> (r: Result<(), String>)
        ensures
            r == result,
            result is Ok ==> final(self)@ == (AppView { handler: Some(handler), ..old(self)@ }),
            result is Err ==> final(self)@ == old(self)@,
    {
        if result.is_ok() {
            self.install_pdf_handler(handler);
        }
        result
    }

    /// The PDF section being shown: the selected section of the loaded PDF,
    /// when there is a PDF, a selection, and a section at that position.
    pub fn selected_pdf_section(&self) -> (s: Option<&PDFSection>)
        ensures
            match s {
                Some(s) => self@.handler matches Some(h) && self@.selected matches Some(i) && i
                    < h.sections().len() && *s == h.sections()[i as int],
                None => !(self@.handler matches Some(h) && self@.selected matches Some(i) && i
                    < h.sections().len()),
            },
    {
        match (&self.pdf_handler, self.selected_section) {
            (Some(h), Some(i)) => {
                let sections = h.get_sections();
                if i < sections.len() {
                    Some(&sections[i])
                } else {
                    None
                }
            },
            _ => None,
        }
    }
}

} // verus!
