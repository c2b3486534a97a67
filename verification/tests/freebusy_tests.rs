use dav::freebusy::{
    freebusy_entries, merge_intervals, sort_by_start, EventStatus, FbComponent, FbEvent, FreeBusyType, Transparency,
};

#[test]
fn overlapping_and_touching_intervals_merge() {
    let merged = merge_intervals(vec![(10, 20), (1, 5), (5, 7), (15, 30), (40, 50)]);
    assert_eq!(merged, vec![(1, 7), (10, 30), (40, 50)]);
}

#[test]
fn contained_interval_keeps_outer_end() {
    assert_eq!(merge_intervals(vec![(0, 100), (10, 20)]), vec![(0, 100)]);
}

#[test]
fn single_and_empty_inputs_pass_through() {
    assert_eq!(merge_intervals(vec![]), vec![]);
    assert_eq!(merge_intervals(vec![(5, 1)]), vec![(5, 1)]);
}

#[test]
fn sort_is_stable() {
    assert_eq!(sort_by_start(vec![(3, 1), (1, 2), (3, 0), (1, 1)]), vec![(1, 2), (1, 1), (3, 1), (3, 0)]);
}

#[test]
fn merged_periods_are_apart() {
    let merged = merge_intervals(vec![(7, 9), (1, 2), (3, 4), (2, 3), (9, 12)]);
    assert_eq!(merged, vec![(1, 4), (7, 12)]);
    for w in merged.windows(2) {
        assert!(w[0].1 < w[1].0);
    }
}

#[test]
fn test_calendar_freebusy_transparency() {
    let opaque = Transparency::Opaque;
    let transparent = Transparency::Transparent;
    assert_eq!(format!("{:?}", opaque), "Opaque");
    assert_eq!(format!("{:?}", transparent), "Transparent");
}

#[test]
fn test_calendar_freebusy_status() {
    let confirmed = EventStatus::Confirmed;
    let tentative = EventStatus::Tentative;
    let cancelled = EventStatus::Cancelled;
    assert_eq!(format!("{:?}", confirmed), "Confirmed");
    assert_eq!(format!("{:?}", tentative), "Tentative");
    assert_eq!(format!("{:?}", cancelled), "Cancelled");
}

#[test]
fn test_calendar_freebusy_types() {
    let free = FreeBusyType::Free;
    let busy = FreeBusyType::Busy;
    let busy_unavailable = FreeBusyType::BusyUnavailable;
    let busy_tentative = FreeBusyType::BusyTentative;
    assert_eq!(format!("{:?}", free), "Free");
    assert_eq!(format!("{:?}", busy), "Busy");
    assert_eq!(format!("{:?}", busy_unavailable), "BusyUnavailable");
    assert_eq!(format!("{:?}", busy_tentative), "BusyTentative");
}

fn event(transparency: Option<Transparency>, status: Option<EventStatus>, instances: Vec<(i64, i64)>) -> FbComponent {
    FbComponent::Event { transparency, status, instances }
}

#[test]
fn events_group_by_type_in_first_seen_order() {
    let events = vec![
        FbEvent {
            has_instances: true,
            components: vec![
                event(None, Some(EventStatus::Tentative), vec![(50, 60)]),
                event(Some(Transparency::Opaque), None, vec![(10, 20), (15, 30)]),
            ],
        },
        FbEvent {
            has_instances: true,
            components: vec![
                event(None, Some(EventStatus::Confirmed), vec![(40, 45)]),
                event(None, Some(EventStatus::Tentative), vec![(55, 70)]),
            ],
        },
    ];
    let r = freebusy_entries(&events);
    assert_eq!(
        r,
        vec![
            (FreeBusyType::BusyTentative, vec![(50, 70)]),
            (FreeBusyType::Busy, vec![(10, 30), (40, 45)]),
        ]
    );
}

#[test]
fn transparent_cancelled_and_empty_objects_hold_no_time() {
    let events = vec![
        FbEvent { has_instances: true, components: vec![event(Some(Transparency::Transparent), None, vec![(1, 2)])] },
        FbEvent { has_instances: true, components: vec![event(None, Some(EventStatus::Cancelled), vec![(3, 4)])] },
        FbEvent { has_instances: false, components: vec![event(None, None, vec![(5, 6)])] },
        FbEvent { has_instances: true, components: vec![FbComponent::Other] },
    ];
    assert!(freebusy_entries(&events).is_empty());
}

#[test]
fn freebusy_entries_keep_their_type_and_default_to_busy() {
    let events = vec![FbEvent {
        has_instances: true,
        components: vec![
            FbComponent::FreeBusy { fbtype: Some(FreeBusyType::Free), periods: vec![(100, 200)] },
            FbComponent::FreeBusy { fbtype: None, periods: vec![(5, 6)] },
            event(None, Some(EventStatus::Other("X-DRAFT".to_string())), vec![(7, 8)]),
            FbComponent::FreeBusy { fbtype: Some(FreeBusyType::Busy), periods: vec![(1, 3)] },
        ],
    }];
    assert_eq!(
        freebusy_entries(&events),
        vec![
            (FreeBusyType::Free, vec![(100, 200)]),
            (FreeBusyType::Busy, vec![(1, 3), (5, 6)]),
            (FreeBusyType::Other("X-DRAFT".to_string()), vec![(7, 8)]),
        ]
    );
}

#[test]
fn merged_periods_cover_the_same_times() {
    let input = vec![(10, 20), (1, 5), (5, 7), (22, 24), (15, 30), (40, 50)];
    let merged = merge_intervals(input.clone());
    for t in 0..60i64 {
        let before = input.iter().any(|&(s, e)| s <= t && t <= e);
        let after = merged.iter().any(|&(s, e)| s <= t && t <= e);
        assert_eq!(before, after, "time {}", t);
    }
}

#[test]
fn merging_never_adds_periods() {
    let input = vec![(10, 20), (1, 5), (5, 7), (15, 30)];
    assert!(merge_intervals(input.clone()).len() <= input.len());
}
