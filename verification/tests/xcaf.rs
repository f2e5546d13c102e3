use opencascade::xcaf::{text_attribute, DatumData, XcafLabelIter};

#[test]
fn empty_text_attribute_is_absent() {
    assert_eq!(text_attribute(String::new()), None);
    assert_eq!(text_attribute("A".to_string()), Some("A".to_string()));
    // Only an empty text is absent: white space is kept as it is.
    assert_eq!(text_attribute(" ".to_string()), Some(" ".to_string()));
}

#[test]
fn datum_data_only_for_datums() {
    assert!(DatumData::from_attributes(false, "A".to_string(), "s".to_string()).is_none());
    let d = DatumData::from_attributes(true, "A".to_string(), String::new()).unwrap();
    assert_eq!(d.name, Some("A".to_string()));
    assert_eq!(d.semantic_name, None);
}

#[test]
fn label_iter_yields_each_label_once_in_order() {
    let mut it = XcafLabelIter::new(3);
    let mut seen = vec![];
    while let Some(i) = it.next_index() {
        seen.push(i);
    }
    assert_eq!(seen, vec![1, 2, 3]);
    assert_eq!(it.next_index(), None);
    let mut empty = XcafLabelIter::new(0);
    assert_eq!(empty.next_index(), None);
    let mut negative = XcafLabelIter::new(-2);
    assert_eq!(negative.next_index(), None);
}
