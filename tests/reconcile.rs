use canvas_trello_sync::canvas::Assignment;
use canvas_trello_sync::sync::{
    decide_card, describe_markdown, match_cards, normalize, normalize_with, plan_assignment,
    reconcile, render_description, same_text, update_patch, starts_with, Counts, Entity, Mutation, Normalized,
    SyncError, DESC_HEADER, DESC_SEPARATOR,
};
use canvas_trello_sync::timestamp::Timestamp;
use canvas_trello_sync::trello::{
    Board, Card, CustomFieldDesc, CustomFieldItem, CustomFieldValue, Label, List,
};

const NEW_YEAR_2024: i64 = 1_704_067_200;

fn assignment(submitted: bool, description: Option<&str>) -> Assignment {
    Assignment {
        id: "1".to_string(),
        name: "HW1".to_string(),
        description: description.map(|d| d.to_string()),
        due_at: Timestamp::new(NEW_YEAR_2024, 0),
        html_url: "http://lms/a/1".to_string(),
        submitted,
    }
}

fn text_item(field: &str, text: &str) -> CustomFieldItem {
    CustomFieldItem {
        id: format!("item-{field}"),
        value: CustomFieldValue::Text { text: text.to_string() },
        id_custom_field: field.to_string(),
    }
}

fn card(id: &str, tracking: &str, due: Option<Timestamp>, complete: bool, desc: &str) -> Card {
    Card {
        id: id.to_string(),
        name: "HW1".to_string(),
        desc: desc.to_string(),
        due,
        due_complete: complete,
        labels: Vec::new(),
        custom_field_items: vec![text_item("field-url", tracking)],
    }
}

fn board(cards: Vec<Card>) -> Board {
    Board {
        cards,
        custom_fields: vec![
            CustomFieldDesc { id: "field-other".to_string(), name: "Notes".to_string() },
            CustomFieldDesc { id: "field-url".to_string(), name: "Canvas URL".to_string() },
        ],
        labels: vec![
            Label { id: "label-1".to_string(), name: "CS 101".to_string() },
            Label { id: "label-2".to_string(), name: "CS 101".to_string() },
        ],
        lists: vec![List { id: "list-1".to_string(), name: "To Do".to_string() }],
    }
}

fn s(text: &str) -> String {
    text.to_string()
}

fn plan_for(b: &Board, a: &Assignment) -> Vec<Mutation> {
    match plan_assignment(b, a, &s("field-url"), &s("list-1"), &s("label-1")) {
        Ok(p) => p,
        Err(e) => panic!("unexpected error: {:?}", e),
    }
}

fn due() -> Option<Timestamp> {
    Some(Timestamp::new(NEW_YEAR_2024, 0))
}

/// Carries a plan out on the board, as the board service would.
fn apply(b: &mut Board, plan: &[Mutation]) {
    let mut created: Option<usize> = None;
    for m in plan {
        match m {
            Mutation::CreateCard { card: c, .. } => {
                b.cards.push(Card {
                    id: s("new-card"),
                    name: c.name.clone(),
                    desc: c.desc.clone(),
                    due: Some(c.due),
                    due_complete: c.due_complete,
                    labels: Vec::new(),
                    custom_field_items: Vec::new(),
                });
                created = Some(b.cards.len() - 1);
            }
            Mutation::SetTrackingField { field_id, value } => {
                let i = created.expect("tracking field set before a card was created");
                b.cards[i].custom_field_items.push(text_item(field_id, value));
            }
            Mutation::UpdateCard { card_id, due, due_complete, desc } => {
                for c in b.cards.iter_mut().filter(|c| &c.id == card_id) {
                    c.due = Some(*due);
                    c.due_complete = *due_complete;
                    c.desc = desc.clone();
                }
            }
            Mutation::NoOp { .. } => {}
        }
    }
}

#[test]
fn untracked_assignment_creates_card_then_tracking_field() {
    let b = board(Vec::new());
    let plan = plan_for(&b, &assignment(false, None));
    assert_eq!(plan.len(), 2);
    match &plan[0] {
        Mutation::CreateCard { list_id, card } => {
            assert_eq!(list_id, "list-1");
            assert_eq!(card.name, "HW1");
            assert_eq!(card.desc, DESC_HEADER);
            assert_eq!(card.due, Timestamp::new(NEW_YEAR_2024, 0));
            assert!(!card.due_complete);
            assert_eq!(card.label_ids, vec![s("label-1")]);
        }
        other => panic!("expected a card to create, got {:?}", other),
    }
    match &plan[1] {
        Mutation::SetTrackingField { field_id, value } => {
            assert_eq!(field_id, "field-url");
            assert_eq!(value, "https://lms/a/1");
        }
        other => panic!("expected the tracking field, got {:?}", other),
    }
    let mut counts = Counts::new();
    counts.record(&plan);
    assert_eq!(counts.assignments, 1);
    assert_eq!(counts.created, 1);
    assert_eq!(counts.updated, 0);
    assert_eq!(counts.up_to_date, 0);
}

#[test]
fn submitted_assignment_updates_completion() {
    let b = board(vec![card("c1", "https://lms/a/1", due(), false, DESC_HEADER)]);
    let plan = plan_for(&b, &assignment(true, None));
    assert_eq!(plan.len(), 1);
    match &plan[0] {
        Mutation::UpdateCard { card_id, due: d, due_complete, desc } => {
            assert_eq!(card_id, "c1");
            assert_eq!(Some(*d), due());
            assert!(*due_complete);
            assert_eq!(desc, DESC_HEADER);
        }
        other => panic!("expected an update, got {:?}", other),
    }
    let mut counts = Counts::new();
    counts.record(&plan);
    assert_eq!((counts.created, counts.updated, counts.up_to_date), (0, 1, 0));
}

#[test]
fn two_tracking_cards_get_two_decisions() {
    let b = board(vec![
        card("c1", "https://lms/a/1", due(), false, DESC_HEADER),
        card("c2", "https://lms/a/1", due(), false, DESC_HEADER),
    ]);
    let plan = plan_for(&b, &assignment(false, None));
    assert_eq!(plan.len(), 2);
    assert!(matches!(&plan[0], Mutation::NoOp { card_id } if card_id == "c1"));
    assert!(matches!(&plan[1], Mutation::NoOp { card_id } if card_id == "c2"));

    let plan = plan_for(&b, &assignment(true, None));
    assert_eq!(plan.len(), 2);
    assert!(matches!(&plan[0], Mutation::UpdateCard { card_id, .. } if card_id == "c1"));
    assert!(matches!(&plan[1], Mutation::UpdateCard { card_id, .. } if card_id == "c2"));
}

#[test]
fn current_card_counts_only_as_up_to_date() {
    let b = board(vec![card("c1", "https://lms/a/1", due(), false, DESC_HEADER)]);
    let plan = plan_for(&b, &assignment(false, None));
    assert_eq!(plan.len(), 1);
    assert!(matches!(&plan[0], Mutation::NoOp { card_id } if card_id == "c1"));
    let mut counts = Counts::new();
    counts.record(&plan);
    assert_eq!(
        (counts.assignments, counts.created, counts.updated, counts.up_to_date),
        (1, 0, 0, 1)
    );
}

#[test]
fn due_change_updates_whatever_else() {
    let later = Timestamp::new(NEW_YEAR_2024 + 3600, 0);
    let b = board(vec![card("c1", "https://lms/a/1", Some(later), false, "my own notes")]);
    let plan = plan_for(&b, &assignment(false, None));
    match &plan[..] {
        [Mutation::UpdateCard { card_id, due: d, .. }] => {
            assert_eq!(card_id, "c1");
            assert_eq!(*d, Timestamp::new(NEW_YEAR_2024, 0));
        }
        other => panic!("expected one update, got {:?}", other),
    }
    let b = board(vec![card("c1", "https://lms/a/1", None, false, DESC_HEADER)]);
    assert!(matches!(&plan_for(&b, &assignment(false, None))[..], [Mutation::UpdateCard { .. }]));
    let b = board(vec![card("c1", "https://lms/a/1", Some(Timestamp::new(NEW_YEAR_2024, 1)), false, DESC_HEADER)]);
    assert!(matches!(&plan_for(&b, &assignment(false, None))[..], [Mutation::UpdateCard { .. }]));
}

#[test]
fn unmanaged_description_is_never_patched() {
    let b = board(vec![card("c1", "https://lms/a/1", due(), false, "edited by hand")]);
    let plan = plan_for(&b, &assignment(false, Some("<p>Read chapter 1</p>")));
    assert!(matches!(&plan[..], [Mutation::NoOp { .. }]));

    let stale = format!("{DESC_HEADER}{DESC_SEPARATOR}old text");
    let b = board(vec![card("c1", "https://lms/a/1", due(), false, &stale)]);
    let plan = plan_for(&b, &assignment(false, Some("<p>Read chapter 1</p>")));
    match &plan[..] {
        [Mutation::UpdateCard { desc, .. }] => {
            assert!(desc.starts_with(&format!("{DESC_HEADER}{DESC_SEPARATOR}")));
            assert!(desc.contains("Read chapter 1"));
        }
        other => panic!("expected one update, got {:?}", other),
    }
}

#[test]
fn second_run_changes_nothing() {
    for (cards, a) in [
        (Vec::new(), assignment(false, Some("<p>Essay</p>"))),
        (
            vec![
                card("c1", "https://lms/a/1", None, false, DESC_HEADER),
                card("c2", "https://lms/a/1", due(), true, "hand made"),
                card("c3", "https://lms/a/2", None, false, DESC_HEADER),
            ],
            assignment(true, Some("<p>Essay</p>")),
        ),
    ] {
        let mut b = board(cards);
        let first = plan_for(&b, &a);
        apply(&mut b, &first);
        let second = plan_for(&b, &a);
        assert!(!second.is_empty());
        assert!(second.iter().all(|m| matches!(m, Mutation::NoOp { .. })));
    }
}

#[test]
fn lookups_take_the_first_of_a_name() {
    let b = board(Vec::new());
    assert_eq!(b.custom_field_id_by_name(&s("Canvas URL")).unwrap(), "field-url");
    assert_eq!(b.list_id_by_name(&s("To Do")).unwrap(), "list-1");
    assert_eq!(b.label_id_by_name(&s("CS 101")).unwrap(), "label-1");
}

#[test]
fn lookups_are_exact_and_report_not_found() {
    let b = board(Vec::new());
    match b.list_id_by_name(&s("to do")) {
        Err(SyncError::NotFound { kind, name }) => {
            assert_eq!(kind, Entity::List);
            assert_eq!(name, "to do");
        }
        other => panic!("expected NotFound, got {:?}", other),
    }
    assert!(matches!(
        b.label_id_by_name(&s("CS 102")),
        Err(SyncError::NotFound { kind: Entity::Label, .. })
    ));
    assert!(matches!(
        b.custom_field_id_by_name(&s("canvas url")),
        Err(SyncError::NotFound { kind: Entity::CustomField, .. })
    ));
}

#[test]
fn url_without_https_form_is_invalid() {
    for url in ["not a url", "mailto:someone@example.com"] {
        let mut a = assignment(false, None);
        a.html_url = s(url);
        match normalize(&a) {
            Err(SyncError::InvalidUrl { url: u }) => assert_eq!(u, url),
            other => panic!("expected InvalidUrl, got {:?}", other.map(|n| n.canonical_url)),
        }
        let b = board(Vec::new());
        assert!(matches!(
            plan_assignment(&b, &a, &s("field-url"), &s("list-1"), &s("label-1")),
            Err(SyncError::InvalidUrl { .. })
        ));
    }
}

#[test]
fn normalize_forces_https() {
    let n = normalize(&assignment(true, None)).unwrap();
    assert_eq!(n.canonical_url, "https://lms/a/1");
    assert_eq!(n.name, "HW1");
    assert_eq!(n.due, Timestamp::new(NEW_YEAR_2024, 0));
    assert!(n.due_complete);
    assert_eq!(n.description, DESC_HEADER);
    let mut a = assignment(false, None);
    a.html_url = s("https://lms/a/1");
    assert_eq!(normalize(&a).unwrap().canonical_url, "https://lms/a/1");
}

#[test]
fn normalize_with_given_parts() {
    let a = assignment(false, None);
    let n = normalize_with(&a, Some(s("https://x/y")), s("desc")).unwrap();
    assert_eq!(n.canonical_url, "https://x/y");
    assert_eq!(n.description, "desc");
    assert!(!n.due_complete);
    assert!(matches!(normalize_with(&a, None, s("desc")), Err(SyncError::InvalidUrl { .. })));
}

#[test]
fn description_rendering() {
    assert_eq!(describe_markdown(None), "\u{1F504} Canvas Trello Sync");
    assert_eq!(
        describe_markdown(Some(s("**Due** soon"))),
        "\u{1F504} Canvas Trello Sync\n\n---\n\n**Due** soon"
    );
    assert_eq!(render_description(&None), DESC_HEADER);
    let html = "<p>Read <strong>chapter 1</strong></p>";
    let rendered = render_description(&Some(s(html)));
    let prefix = format!("{DESC_HEADER}{DESC_SEPARATOR}");
    assert!(rendered.starts_with(&prefix));
    let body = &rendered[prefix.len()..];
    assert!(!body.contains("<p>"));
    assert!(body.contains("**chapter 1**"));
}

#[test]
fn text_helpers() {
    assert!(starts_with("abc", "ab"));
    assert!(starts_with("abc", ""));
    assert!(!starts_with("ab", "abc"));
    assert!(!starts_with("xbc", "ab"));
    assert!(same_text("h\u{e9}", "h\u{e9}"));
    assert!(!same_text("ab", "abc"));
    assert!(!same_text("ab", "ac"));
}

#[test]
fn tracking_value_is_first_item_of_the_field() {
    let mut c = card("c1", "https://lms/a/1", due(), false, DESC_HEADER);
    c.custom_field_items.push(text_item("field-url", "https://lms/a/2"));
    assert_eq!(c.tracking_text(&s("field-url")), Some("https://lms/a/1"));
    assert_eq!(c.tracking_text(&s("field-other")), None);
    let other = CustomFieldItem {
        id: s("i"),
        value: CustomFieldValue::Other { value: serde_json::Value::Null },
        id_custom_field: s("field-url"),
    };
    assert_eq!(other.as_str(), None);
    assert_eq!(text_item("f", "t").as_str(), Some("t"));
    let mut d = card("c2", "x", due(), false, DESC_HEADER);
    d.custom_field_items.insert(0, other);
    assert_eq!(d.tracking_text(&s("field-url")), None);
}

#[test]
fn matching_is_exact_and_ordered() {
    let cards = vec![
        card("c1", "https://lms/a/1", due(), false, DESC_HEADER),
        card("c2", "http://lms/a/1", due(), false, DESC_HEADER),
        card("c3", "https://lms/a/1", due(), false, DESC_HEADER),
        card("c4", "https://lms/a/10", due(), false, DESC_HEADER),
    ];
    let m = match_cards(&cards, &s("field-url"), &s("https://lms/a/1"));
    let ids: Vec<&str> = m.iter().map(|c| c.id.as_str()).collect();
    assert_eq!(ids, vec!["c1", "c3"]);
    assert!(match_cards(&cards, &s("field-other"), &s("https://lms/a/1")).is_empty());
}

#[test]
fn decisions_per_card() {
    let n = Normalized {
        canonical_url: s("https://lms/a/1"),
        name: s("HW1"),
        due: Timestamp::new(NEW_YEAR_2024, 0),
        due_complete: false,
        description: s(DESC_HEADER),
    };
    let current = card("c1", "https://lms/a/1", due(), false, DESC_HEADER);
    assert!(matches!(decide_card(&current, &n), Mutation::NoOp { .. }));
    let stale = card("c1", "https://lms/a/1", due(), true, DESC_HEADER);
    assert!(matches!(decide_card(&stale, &n), Mutation::UpdateCard { due_complete: false, .. }));
    let tracking = vec![&current, &stale];
    let plan = reconcile(&tracking, &n, &s("l"), &s("lb"), &s("f"));
    assert!(matches!(&plan[..], [Mutation::NoOp { .. }, Mutation::UpdateCard { .. }]));
}

#[test]
fn counts_saturate() {
    let mut counts = Counts::new();
    counts.created = u64::MAX;
    counts.assignments = u64::MAX;
    let plan = vec![Mutation::CreateCard {
        list_id: s("l"),
        card: canvas_trello_sync::trello::CreateCard {
            name: s("n"),
            desc: s("d"),
            due: Timestamp::new(0, 0),
            due_complete: false,
            label_ids: vec![],
        },
    }];
    counts.record(&plan);
    assert_eq!(counts.created, u64::MAX);
    assert_eq!(counts.assignments, u64::MAX);
}

#[test]
fn assignment_submitted_flag() {
    assert!(assignment(true, None).submitted());
    assert!(!assignment(false, None).submitted());
}

#[test]
fn update_patch_fields() {
    let p = update_patch(Timestamp::new(NEW_YEAR_2024, 0), true, &s("body")).unwrap();
    assert_eq!(
        p,
        vec![
            (s("due"), s("2024-01-01T00:00:00+00:00")),
            (s("dueComplete"), s("true")),
            (s("desc"), s("body")),
        ]
    );
    let p = update_patch(Timestamp::new(NEW_YEAR_2024, 500_000_000), false, &s("")).unwrap();
    assert_eq!(p[0].1, "2024-01-01T00:00:00.500+00:00");
    assert_eq!(p[1].1, "false");
    assert!(update_patch(Timestamp::new(i64::MAX, 0), false, &s("")).is_none());
}
