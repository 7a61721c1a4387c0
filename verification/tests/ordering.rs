use changelog::change::Change;
use changelog::kind::Kind;
use changelog::order::{comes_before, highest_priority_then_chronologically};
use changelog::sort::sort_changes;
use std::cmp::Ordering;
use std::time::Duration;
use time::OffsetDateTime;

fn change(content: &str, priority: Option<u8>, created: i64) -> Change {
    Change {
        kind: Kind::Added,
        breaking: None,
        priority,
        created,
        content: content.to_string(),
    }
}

fn contents(changes: &[Change]) -> Vec<&str> {
    changes.iter().map(|c| c.content.as_str()).collect()
}

#[test]
fn sort_order() {
    let mut changes = vec![
        Change {
            kind: Kind::Added,
            breaking: None,
            priority: Some(1),
            created: (OffsetDateTime::now_utc() - Duration::from_secs(10)).unix_timestamp(),
            content: "A".to_string(),
        },
        Change {
            kind: Kind::Added,
            breaking: None,
            priority: None,
            created: OffsetDateTime::now_utc().unix_timestamp(),
            content: "B".to_string(),
        },
        Change {
            kind: Kind::Added,
            breaking: None,
            priority: None,
            created: (OffsetDateTime::now_utc() - Duration::from_secs(30)).unix_timestamp(),
            content: "C".to_string(),
        },
        Change {
            kind: Kind::Added,
            breaking: None,
            priority: Some(5),
            created: OffsetDateTime::now_utc().unix_timestamp(),
            content: "D".to_string(),
        },
        Change {
            kind: Kind::Added,
            breaking: None,
            priority: Some(5),
            created: (OffsetDateTime::now_utc() - Duration::from_secs(10)).unix_timestamp(),
            content: "E".to_string(),
        },
    ];

    sort_changes(&mut changes);

    let sorted: Vec<String> = changes.into_iter().map(|c| c.content).collect();
    assert_eq!(sorted, ["E", "D", "A", "C", "B"])
}

#[test]
fn sorts_by_priority_then_age_with_fixed_times() {
    let (oldest, mid, newest) = (1_700_000_000, 1_700_000_020, 1_700_000_030);
    let mut changes = vec![
        change("one-mid", Some(1), mid),
        change("none-newest", None, newest),
        change("none-oldest", None, oldest),
        change("five-newest", Some(5), newest),
        change("five-mid", Some(5), mid),
    ];
    sort_changes(&mut changes);
    assert_eq!(
        contents(&changes),
        ["five-mid", "five-newest", "one-mid", "none-oldest", "none-newest"]
    );
}

#[test]
fn sorting_is_idempotent() {
    let mut changes = vec![
        change("a", Some(3), 50),
        change("b", None, 10),
        change("c", Some(200), 70),
        change("d", Some(3), 20),
        change("e", None, 5),
        change("f", Some(0), 1),
        change("g", Some(3), 50),
    ];
    sort_changes(&mut changes);
    let once: Vec<String> = changes.iter().map(|c| c.content.clone()).collect();
    assert_eq!(once, ["c", "d", "a", "g", "f", "e", "b"]);
    sort_changes(&mut changes);
    let twice: Vec<String> = changes.iter().map(|c| c.content.clone()).collect();
    assert_eq!(twice, once);
}

#[test]
fn sorting_is_stable_on_ties() {
    let mut changes = vec![
        change("first", Some(2), 100),
        change("second", Some(2), 100),
        change("third", None, 7),
        change("fourth", Some(2), 100),
        change("fifth", None, 7),
    ];
    sort_changes(&mut changes);
    assert_eq!(contents(&changes), ["first", "second", "fourth", "third", "fifth"]);
}

#[test]
fn sorting_agrees_with_the_standard_stable_sort() {
    let mut seed: u64 = 0x2545_f491_4f6c_dd1d;
    let mut next = move || {
        seed ^= seed << 13;
        seed ^= seed >> 7;
        seed ^= seed << 17;
        seed
    };
    for round in 0..50 {
        let len = (next() % 40) as usize;
        let mut changes = Vec::new();
        for i in 0..len {
            let priority = match next() % 4 {
                0 => None,
                n => Some((n * 3 % 5) as u8),
            };
            let created = (next() % 6) as i64 - 3;
            changes.push(change(&format!("{round}-{i}"), priority, created));
        }
        let mut expected = changes.clone();
        expected.sort_by(highest_priority_then_chronologically);
        sort_changes(&mut changes);
        assert_eq!(contents(&changes), contents(&expected));
    }
}

#[test]
fn sorting_handles_the_smallest_batches() {
    let mut none: Vec<Change> = Vec::new();
    sort_changes(&mut none);
    assert!(none.is_empty());
    let mut one = vec![change("only", None, 0)];
    sort_changes(&mut one);
    assert_eq!(contents(&one), ["only"]);
    let mut two = vec![change("late", Some(1), 9), change("early", Some(1), -9)];
    sort_changes(&mut two);
    assert_eq!(contents(&two), ["early", "late"]);
}

#[test]
fn sorting_keeps_the_other_fields_with_their_change() {
    let mut changes = vec![
        Change {
            kind: Kind::Fixed,
            breaking: Some(true),
            priority: None,
            created: 12,
            content: "low".to_string(),
        },
        Change {
            kind: Kind::Removed,
            breaking: Some(false),
            priority: Some(9),
            created: 40,
            content: "high".to_string(),
        },
    ];
    sort_changes(&mut changes);
    assert_eq!(changes[0].content, "high");
    assert_eq!(changes[0].kind, Kind::Removed);
    assert_eq!(changes[0].breaking, Some(false));
    assert_eq!(changes[0].priority, Some(9));
    assert_eq!(changes[0].created, 40);
    assert_eq!(changes[1].content, "low");
    assert_eq!(changes[1].kind, Kind::Fixed);
    assert_eq!(changes[1].breaking, Some(true));
    assert_eq!(changes[1].priority, None);
    assert_eq!(changes[1].created, 12);
}

#[test]
fn comparison_puts_higher_priority_first() {
    let high = change("high", Some(9), 100);
    let low = change("low", Some(1), 1);
    let none = change("none", None, 0);
    assert_eq!(highest_priority_then_chronologically(&high, &low), Ordering::Less);
    assert_eq!(highest_priority_then_chronologically(&low, &high), Ordering::Greater);
    assert_eq!(highest_priority_then_chronologically(&low, &none), Ordering::Less);
    assert_eq!(highest_priority_then_chronologically(&none, &low), Ordering::Greater);
    assert_eq!(
        highest_priority_then_chronologically(&change("zero", Some(0), 5), &none),
        Ordering::Less
    );
}

#[test]
fn comparison_breaks_ties_by_age() {
    let old = change("old", Some(4), -5);
    let new = change("new", Some(4), 5);
    assert_eq!(highest_priority_then_chronologically(&old, &new), Ordering::Less);
    assert_eq!(highest_priority_then_chronologically(&new, &old), Ordering::Greater);
    assert_eq!(highest_priority_then_chronologically(&old, &old), Ordering::Equal);
    let a = change("a", None, i64::MIN);
    let b = change("b", None, i64::MAX);
    assert_eq!(highest_priority_then_chronologically(&a, &b), Ordering::Less);
    assert_eq!(highest_priority_then_chronologically(&b, &a), Ordering::Greater);
    assert_eq!(highest_priority_then_chronologically(&b, &b), Ordering::Equal);
}

#[test]
fn comes_before_is_the_strict_part_of_the_comparison() {
    let old = change("old", Some(4), -5);
    let new = change("new", Some(4), 5);
    let twin = change("twin", Some(4), 5);
    assert!(comes_before(&old, &new));
    assert!(!comes_before(&new, &old));
    assert!(!comes_before(&new, &twin));
    assert!(!comes_before(&twin, &new));
}
