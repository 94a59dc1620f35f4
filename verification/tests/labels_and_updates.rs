use rivets::domain::MAX_PRIORITY;
use rivets::label::{Label, LabelError};
use rivets::update::{IssueUpdate, UpdateError};

#[test]
fn parses_canonical_label() {
    for value in [
        "a",
        "aaaaaaaaaaaaaaaaaaaaaaaaaaaaaaaaaaaaaaaaaaaaaaaaaa",
        "p0",
        "ready-for-agent",
        "type_safety",
        "high-priority_v2",
    ] {
        let label = value
            .parse::<Label>()
            .expect("canonical Label should parse");
        assert_eq!(label.as_str(), value);
        assert_eq!(label.to_string(), value);
        assert_eq!(label.into_string(), value);
    }
}

#[test]
fn rejects_noncanonical_label() {
    let cases = [
        ("", LabelError::Empty),
        (
            "aaaaaaaaaaaaaaaaaaaaaaaaaaaaaaaaaaaaaaaaaaaaaaaaaaa",
            LabelError::TooLong { length: 51 },
        ),
        ("Bug", LabelError::Uppercase { position: 0 }),
        ("high priority", LabelError::InvalidCharacter { position: 4 }),
        (" bug ", LabelError::InvalidCharacter { position: 0 }),
        ("bug\u{1b}", LabelError::InvalidCharacter { position: 3 }),
        ("é", LabelError::InvalidCharacter { position: 0 }),
        ("args.rs", LabelError::InvalidCharacter { position: 4 }),
        ("-bug", LabelError::InvalidStart),
        ("_bug", LabelError::InvalidStart),
        ("bug-", LabelError::InvalidEnd),
        ("bug_", LabelError::InvalidEnd),
        ("high--priority", LabelError::ConsecutiveSeparators { position: 5 }),
        ("needs__review", LabelError::ConsecutiveSeparators { position: 6 }),
        ("high-_priority", LabelError::ConsecutiveSeparators { position: 5 }),
        ("high_-priority", LabelError::ConsecutiveSeparators { position: 5 }),
    ];
    for (value, expected) in cases {
        assert_eq!(value.parse::<Label>(), Err(expected), "{value:?}");
    }
}

#[test]
fn collection_budget_is_one_bounded_parse_per_label() {
    let labels = (0..1_000)
        .map(|index| format!("label-{index}"))
        .map(|value| Label::new(&value).expect("generated Label should parse"))
        .collect::<Vec<_>>();
    assert_eq!(labels.len(), 1_000);
    assert!(labels.iter().all(|label| label.as_str().len() <= 50));
}

#[test]
fn label_round_trips_through_its_spelling() {
    let label = Label::new("ready-for-agent").expect("canonical Label");
    let again = Label::new(label.as_str()).expect("spelling parses back");
    assert_eq!(label, again);
}

#[test]
fn empty_update_is_rejected() {
    assert_eq!(
        IssueUpdate::builder().build().unwrap_err(),
        UpdateError::EmptyUpdate
    );
}

#[test]
fn invalid_priority_is_typed() {
    assert_eq!(
        IssueUpdate::builder()
            .priority(Some(MAX_PRIORITY + 1))
            .build()
            .unwrap_err(),
        UpdateError::InvalidPriority(MAX_PRIORITY + 1)
    );
}
