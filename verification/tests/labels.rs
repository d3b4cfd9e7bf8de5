use mud_domain::game::labels::{label_search, labels_for_candidates, Label, Labels};
use mud_domain::ids::ObjId;

fn check_label_search(labels: Vec<(u32, &str)>, input: &str, expected: Vec<u32>) {
    let labels: Vec<Label> = labels
        .into_iter()
        .map(|(id, label)| Label {
            id: ObjId(id),
            label: label.to_string(),
            desc: "".to_string(),
        })
        .collect();

    let labels_ref: Vec<&Label> = labels.iter().map(|i| i).collect();
    let result = label_search(&labels_ref, input);
    let result_ids: Vec<u32> = result.into_iter().map(|id| id.as_u32()).collect();
    assert_eq!(result_ids, expected);
}

#[test]
fn test_label_search_with_full_label() {
    check_label_search(
        vec![(0, "Asteroid Field"), (1, "Asteroid Station")],
        "asteroid field",
        vec![0],
    );
}

#[test]
fn test_label_search_with_partial_label() {
    check_label_search(
        vec![(0, "Asteroid Field"), (1, "Asteroid Station")],
        "asteroid",
        vec![0, 1],
    );
}

#[test]
fn test_label_search_with_id() {
    let labels = vec![
        Label { id: ObjId(0), label: "Obj A".to_string(), desc: "".to_string() },
        Label { id: ObjId(1), label: "Obj B".to_string(), desc: "".to_string() },
        Label { id: ObjId(2), label: "Obj B".to_string(), desc: "".to_string() },
        Label { id: ObjId(3), label: "Obj B".to_string(), desc: "".to_string() },
    ];

    let labels_ref = labels.iter().collect();
    let found = label_search(&labels_ref, "obj b.2");
    assert_eq!(1, found.len());
    assert_eq!(ObjId(2), found[0]);
}

#[test]
fn test_labels_for_candidates() {
    let labels = vec![
        Label { id: ObjId(0), label: "ObjA".to_string(), desc: "".to_string() },
        Label { id: ObjId(2), label: "ObjB".to_string(), desc: "".to_string() },
        Label { id: ObjId(1), label: "ObjB".to_string(), desc: "".to_string() },
        Label { id: ObjId(3), label: "ObjB".to_string(), desc: "".to_string() },
    ];

    let labels_ref = labels.iter().collect();
    let labels_str = labels_for_candidates(&labels_ref);
    assert_eq!(
        vec![
            (ObjId(0), "ObjA".to_string()),
            (ObjId(1), "ObjB".to_string()),
            (ObjId(2), "ObjB.2".to_string()),
            (ObjId(3), "ObjB.3".to_string())
        ],
        labels_str
    );
}

#[test]
fn labels_numbering_restarts_for_each_text() {
    let labels = vec![
        Label::new(ObjId(5), "b"),
        Label::new(ObjId(4), "a"),
        Label::new(ObjId(7), "b"),
        Label::new(ObjId(6), "a"),
        Label::new(ObjId(1), "b"),
    ];
    let labels_ref = labels.iter().collect();
    let r = labels_for_candidates(&labels_ref);
    assert_eq!(
        vec![
            (ObjId(4), "a".to_string()),
            (ObjId(6), "a.2".to_string()),
            (ObjId(1), "b".to_string()),
            (ObjId(5), "b.2".to_string()),
            (ObjId(7), "b.3".to_string()),
        ],
        r
    );
}

#[test]
fn labels_search_by_partial_name_ignores_case() {
    let mut labels = Labels::new();
    labels.add(Label::new(ObjId(1), "Sword"));
    labels.add(Label::new(ObjId(2), "Shield"));
    let found = labels.search(&vec![ObjId(1), ObjId(2)], "SW");
    assert_eq!(found, vec![ObjId(1)]);
    let none = labels.search(&vec![ObjId(1), ObjId(2)], "axe");
    assert!(none.is_empty());
}

#[test]
fn labels_get_label_f_gives_placeholder_when_missing() {
    let mut labels = Labels::new();
    labels.add(Label::new_desc(ObjId(1), "Sword", "a sharp sword"));
    assert_eq!(labels.get_label_f(ObjId(1)), "Sword");
    assert_eq!(labels.get_label_f(ObjId(9)), "???");
    assert_eq!(labels.get_label(ObjId(9)), None);
    let removed = labels.remove(ObjId(1)).unwrap();
    assert_eq!(removed.desc, "a sharp sword");
    assert!(labels.get(ObjId(1)).is_none());
}

#[test]
fn labels_resolve_candidates_skips_unlabelled() {
    let mut labels = Labels::new();
    labels.add(Label::new(ObjId(1), "Rock"));
    labels.add(Label::new(ObjId(2), "Rock"));
    let names = labels.resolve_labels_candidates(&vec![ObjId(2), ObjId(3), ObjId(1)]);
    assert_eq!(names, vec!["Rock".to_string(), "Rock.2".to_string()]);
}
