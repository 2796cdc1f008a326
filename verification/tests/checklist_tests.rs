use checklist_manager::checklist::{create_default_checklist, CheckItem, Checklist};

fn labels(c: &Checklist) -> Vec<String> {
    let mut out = Vec::new();
    for i in 0..c.len() {
        let (k, _) = c.get_index(i).unwrap();
        out.push(k.clone());
    }
    out
}

fn item<'a>(c: &'a Checklist, label: &str) -> &'a CheckItem {
    let i = c.get_index_of(&label.to_string()).unwrap();
    c.get_index(i).unwrap().1
}

fn assert_unchecked_everywhere(c: &Checklist) {
    for i in 0..c.len() {
        let (_, it) = c.get_index(i).unwrap();
        assert!(!it.checked);
        assert_unchecked_everywhere(&it.children);
    }
}

#[test]
fn new_item_is_unchecked_and_empty() {
    let it = CheckItem::new();
    assert!(!it.checked);
    assert_eq!(it.children.len(), 0);
}

#[test]
fn default_checklist_sections_in_order() {
    let c = create_default_checklist();
    assert_eq!(
        labels(&c),
        vec![
            "Home Tab",
            "Client Tab",
            "Defendant Tab",
            "Incident Tab",
            "Injuries Tab",
            "Health Insurance Tab",
            "Employment Tab"
        ]
    );
    assert_unchecked_everywhere(&c);
}

#[test]
fn default_checklist_items() {
    let c = create_default_checklist();
    assert_eq!(
        labels(&item(&c, "Home Tab").children),
        vec![
            "Update Status to Treating",
            "Primary Contact: Attorney Assigned",
            "Case Manager: Secretary for attorney assigned",
            "Lead Attorney: Attorney assigned",
            "Supervising Attorney: Should be blank"
        ]
    );
    let client = item(&c, "Client Tab");
    assert_eq!(labels(&client.children), vec!["Index Information", "Contact Details"]);
    assert_eq!(
        labels(&item(&client.children, "Index Information").children),
        vec!["DOB", "SSN", "Date of Incident", "Check name spelling", "Check DOL"]
    );
    let contact = item(&client.children, "Contact Details");
    assert_eq!(
        labels(&contact.children),
        vec!["Cell", "Email", "Home Address", "Spouse", "Emergency Contact"]
    );
    assert_eq!(
        labels(&item(&contact.children, "Spouse").children),
        vec!["Marital Status", "First Name", "Last Name", "Phone Number", "OK to Discuss"]
    );
    assert_eq!(
        labels(&item(&contact.children, "Emergency Contact").children),
        vec!["First Name", "Last Name", "Phone Number"]
    );
    assert_eq!(item(&contact.children, "Cell").children.len(), 0);
    assert_eq!(
        labels(&item(&c, "Defendant Tab").children),
        vec!["Defendant Name", "Insurance Company", "Policy Number", "Claim Number"]
    );
    assert_eq!(
        labels(&item(&c, "Incident Tab").children),
        vec!["Date of Incident", "Location", "Description", "Police Report Number"]
    );
    assert_eq!(
        labels(&item(&c, "Injuries Tab").children),
        vec![
            "Primary Injuries",
            "Treatment Facilities",
            "Current Treatment Status",
            "Pre-existing Conditions"
        ]
    );
    assert_eq!(
        labels(&item(&c, "Health Insurance Tab").children),
        vec!["Insurance Provider", "Policy Number", "Group Number", "Coverage Details"]
    );
    assert_eq!(
        labels(&item(&c, "Employment Tab").children),
        vec!["Current Employer", "Job Title", "Work Status", "Lost Wages Documentation"]
    );
}

#[test]
fn insert_new_label_goes_last() {
    let mut c = Checklist::new();
    assert!(c.insert("b".to_string(), CheckItem::new()).is_none());
    assert!(c.insert("a".to_string(), CheckItem::new()).is_none());
    assert_eq!(labels(&c), vec!["b", "a"]);
    assert_eq!(c.get_index_of(&"a".to_string()), Some(1));
    assert_eq!(c.get_index_of(&"z".to_string()), None);
    assert!(c.get_index(2).is_none());
}

#[test]
fn insert_existing_label_keeps_place_and_returns_previous() {
    let mut c = Checklist::new();
    c.insert("a".to_string(), CheckItem::new());
    c.insert("b".to_string(), CheckItem::new());
    let mut checked = CheckItem::new();
    checked.checked = true;
    let prev = c.insert("a".to_string(), checked).unwrap();
    assert!(!prev.checked);
    assert_eq!(labels(&c), vec!["a", "b"]);
    assert!(item(&c, "a").checked);
}

#[test]
fn all_checked_on_levels() {
    let mut c = Checklist::new();
    assert!(c.all_checked());
    c.insert("a".to_string(), CheckItem::new());
    assert!(!c.all_checked());
    let mut it = CheckItem::new();
    it.checked = true;
    c.insert("a".to_string(), it);
    assert!(c.all_checked());
}

#[test]
fn toggle_flips_item() {
    let mut c = create_default_checklist();
    let home = "Home Tab".to_string();
    let first = "Update Status to Treating".to_string();
    assert!(c.toggle_item(&home, &first));
    let section = item(&c, "Home Tab");
    assert!(item(&section.children, "Update Status to Treating").checked);
    assert!(!item(&section.children, "Lead Attorney: Attorney assigned").checked);
    assert!(!section.checked);
    assert_eq!(labels(&c)[0], "Home Tab");
}

#[test]
fn parent_completes_when_all_children_checked() {
    let mut c = create_default_checklist();
    let sec = "Defendant Tab".to_string();
    let kids = ["Defendant Name", "Insurance Company", "Policy Number", "Claim Number"];
    for (n, k) in kids.iter().enumerate() {
        assert!(!item(&c, "Defendant Tab").checked);
        assert!(c.toggle_item(&sec, &k.to_string()));
        assert_eq!(item(&c, "Defendant Tab").checked, n == kids.len() - 1);
    }
    // Unchecking one child reopens the section.
    assert!(c.toggle_item(&sec, &"Policy Number".to_string()));
    assert!(!item(&c, "Defendant Tab").checked);
    // Other sections are untouched.
    assert!(!item(&c, "Incident Tab").checked);
    assert_eq!(labels(&c).len(), 7);
}

#[test]
fn toggle_twice_restores() {
    let mut c = create_default_checklist();
    let sec = "Client Tab".to_string();
    let kid = "Contact Details".to_string();
    assert!(c.toggle_item(&sec, &kid));
    assert!(c.toggle_item(&sec, &kid));
    let client = item(&c, "Client Tab");
    assert!(!client.checked);
    assert!(!item(&client.children, "Contact Details").checked);
    assert_eq!(labels(&item(&client.children, "Contact Details").children).len(), 5);
    assert_eq!(labels(&client.children), vec!["Index Information", "Contact Details"]);
}

#[test]
fn toggle_missing_item_changes_nothing() {
    let mut c = create_default_checklist();
    assert!(!c.toggle_item(&"No Tab".to_string(), &"DOB".to_string()));
    assert!(!c.toggle_item(&"Home Tab".to_string(), &"DOB".to_string()));
    assert_unchecked_everywhere(&c);
    assert_eq!(labels(&c).len(), 7);
}

fn checked_item() -> CheckItem {
    let mut it = CheckItem::new();
    it.checked = true;
    it
}

#[test]
fn completed_item_stays_checked_when_clicked() {
    // Section S > item c > sub-item x, all checked.
    let mut c_item = checked_item();
    c_item.children.insert("x".to_string(), checked_item());
    let mut s_item = checked_item();
    s_item.children.insert("c".to_string(), c_item);
    let mut list = Checklist::new();
    list.insert("S".to_string(), s_item);
    assert!(list.toggle_item(&"S".to_string(), &"c".to_string()));
    let s = item(&list, "S");
    assert!(s.checked);
    let c = item(&s.children, "c");
    assert!(c.checked);
    assert!(item(&c.children, "x").checked);
}

#[test]
fn item_with_open_sub_items_flips() {
    let mut c_item = CheckItem::new();
    c_item.children.insert("x".to_string(), checked_item());
    c_item.children.insert("y".to_string(), CheckItem::new());
    let mut s_item = CheckItem::new();
    s_item.children.insert("c".to_string(), c_item);
    let mut list = Checklist::new();
    list.insert("S".to_string(), s_item);
    assert!(list.toggle_item(&"S".to_string(), &"c".to_string()));
    assert!(item(&item(&list, "S").children, "c").checked);
    assert!(item(&list, "S").checked);
    assert!(list.toggle_item(&"S".to_string(), &"c".to_string()));
    assert!(!item(&item(&list, "S").children, "c").checked);
    assert!(!item(&list, "S").checked);
}

#[test]
fn toggle_path_reaches_a_sub_item_and_completes_its_ancestors() {
    // Section S > item c > sub-items x (checked) and y (open).
    let mut c_item = CheckItem::new();
    c_item.children.insert("x".to_string(), checked_item());
    c_item.children.insert("y".to_string(), CheckItem::new());
    let mut s_item = CheckItem::new();
    s_item.children.insert("c".to_string(), c_item);
    s_item.children.insert("d".to_string(), checked_item());
    let mut list = Checklist::new();
    list.insert("S".to_string(), s_item);
    let path = vec!["S".to_string(), "c".to_string(), "y".to_string()];
    assert!(list.toggle_path(&path));
    let s = item(&list, "S");
    let c = item(&s.children, "c");
    assert!(item(&c.children, "y").checked);
    assert!(item(&c.children, "x").checked);
    assert!(c.checked);
    assert!(s.checked);
    // Opening y again opens its ancestors.
    assert!(list.toggle_path(&path));
    let s = item(&list, "S");
    let c = item(&s.children, "c");
    assert!(!item(&c.children, "y").checked);
    assert!(!c.checked);
    assert!(!s.checked);
}

#[test]
fn toggle_path_without_such_item_changes_nothing() {
    let mut list = create_default_checklist();
    let before = labels(&list);
    let path = vec!["Home Tab".to_string(), "No such item".to_string()];
    assert!(!list.toggle_path(&path));
    assert!(!list.toggle_path(&Vec::new()));
    assert_eq!(labels(&list), before);
    assert!(!item(&list, "Home Tab").checked);
}
