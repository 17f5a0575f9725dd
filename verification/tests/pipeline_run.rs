use mlb_fetch::date::CalendarDate;
use mlb_fetch::pipeline::{
    complete_item, plan_item, plan_run, start_run, thumbnail_path, ItemPlan,
};
use mlb_fetch::state::{FetchOutcome, NetworkState, SharedState};
use mlb_fetch::types::{
    Content, Cut, DateItem, Editorial, Game, ItemMetadata, Mlb, Photo, Recap, Schedule,
};

fn item_with_photos(id: u32, photos: Vec<(&str, &str)>) -> ItemMetadata {
    ItemMetadata {
        date: "2018-06-10".to_string(),
        id,
        headline: format!("game {}", id),
        subhead: String::new(),
        blurb: String::new(),
        photos: photos
            .into_iter()
            .map(|(res, url)| (res.to_string(), url.to_string()))
            .collect(),
    }
}

/// Stands in for one download task: performs no I/O, counts how many
/// network calls a real task would have made, and reports the given
/// transfer verdict for them.
fn execute_plan(plan: ItemPlan, verdict: Result<(), String>, calls: &mut usize) -> FetchOutcome {
    match plan {
        ItemPlan::Skip(outcome) => outcome,
        ItemPlan::Fetch(_url, path) => {
            *calls += 1;
            complete_item(path, verdict)
        }
    }
}

/// Drives one full run without I/O: every planned transfer gets the
/// verdict at its item's position. Returns the recorded outcomes of the
/// `Done` state, in index order.
fn drive_run(items: Vec<ItemMetadata>, verdicts: &[Result<(), String>]) -> Vec<(usize, FetchOutcome)> {
    let mut cell = SharedState::new();
    let plans = plan_run(&items);
    cell.apply_schedule(0, Ok(items));
    let mut calls = 0;
    for (i, plan) in plans.into_iter().enumerate() {
        let outcome = execute_plan(plan, verdicts[i].clone(), &mut calls);
        assert!(cell.record_outcome(0, i, outcome));
    }
    cell.finish_run(0);
    match cell.state() {
        NetworkState::Done(_, rs) => {
            let mut rs = rs.clone();
            rs.sort_by_key(|(i, _)| *i);
            rs
        }
        other => panic!("expected done, got {:?}", other),
    }
}

#[test]
fn plan_without_canonical_key_makes_no_network_call() {
    let it = item_with_photos(9, vec![("1x1", "http://example.com/tiny.jpg")]);
    let plan = plan_item(&it);
    match &plan {
        ItemPlan::Skip(FetchOutcome::Failure(reason)) => assert_eq!(reason, "URL not found"),
        other => panic!("expected a skip, got {:?}", other),
    }
    let mut calls = 0;
    let outcome = execute_plan(plan, Ok(()), &mut calls);
    assert_eq!(calls, 0);
    assert_eq!(outcome, FetchOutcome::Failure("URL not found".to_string()));
}

#[test]
fn plan_with_canonical_key_fetches_to_derived_path() {
    let it = item_with_photos(
        100,
        vec![
            ("1920x1080", "http://example.com/big.jpg"),
            ("684x385", "http://example.com/canonical.jpg"),
        ],
    );
    match plan_item(&it) {
        ItemPlan::Fetch(url, path) => {
            assert_eq!(url, "http://example.com/canonical.jpg");
            assert_eq!(path, "./assets/thumbnails/100.png");
        }
        other => panic!("expected a fetch, got {:?}", other),
    }
}

#[test]
fn first_matching_key_wins() {
    let it = item_with_photos(
        1,
        vec![
            ("684x385", "http://example.com/first.jpg"),
            ("684x385", "http://example.com/second.jpg"),
        ],
    );
    match plan_item(&it) {
        ItemPlan::Fetch(url, _) => assert_eq!(url, "http://example.com/first.jpg"),
        other => panic!("expected a fetch, got {:?}", other),
    }
}

#[test]
fn complete_item_reports_both_ways() {
    assert_eq!(
        complete_item("p".to_string(), Ok(())),
        FetchOutcome::Success("p".to_string())
    );
    assert_eq!(
        complete_item("p".to_string(), Err("disk full".to_string())),
        FetchOutcome::Failure("disk full".to_string())
    );
}

#[test]
fn thumbnail_paths_are_exact() {
    assert_eq!(thumbnail_path(0), "./assets/thumbnails/0.png");
    assert_eq!(thumbnail_path(100), "./assets/thumbnails/100.png");
    assert_eq!(thumbnail_path(u32::MAX), "./assets/thumbnails/4294967295.png");
}

#[test]
fn format_ymd_is_exact() {
    let date = CalendarDate { year: 2018, month: 6, day: 10 };
    assert_eq!(date.format_ymd(), "2018-06-10");
    let padded = CalendarDate { year: 999, month: 1, day: 2 };
    assert_eq!(padded.format_ymd(), "0999-01-02");
}

#[test]
fn rerun_persists_the_same_ids() {
    let items = vec![
        item_with_photos(100, vec![("684x385", "http://example.com/100.jpg")]),
        item_with_photos(101, vec![]),
        item_with_photos(102, vec![("684x385", "http://example.com/102.jpg")]),
    ];
    // The same transfers succeed in both runs; the failure texts differ.
    let first = drive_run(
        items.clone(),
        &[Ok(()), Err("timeout".to_string()), Err("http 500".to_string())],
    );
    let second = drive_run(
        items,
        &[Ok(()), Err("reset".to_string()), Err("http 503".to_string())],
    );
    assert_eq!(first.len(), second.len());
    for ((i1, o1), (i2, o2)) in first.iter().zip(second.iter()) {
        assert_eq!(i1, i2);
        match (o1, o2) {
            (FetchOutcome::Success(p1), FetchOutcome::Success(p2)) => assert_eq!(p1, p2),
            (FetchOutcome::Failure(_), FetchOutcome::Failure(_)) => {}
            other => panic!("success sets differ at {}: {:?}", i1, other),
        }
    }
    assert!(matches!(&first[0].1, FetchOutcome::Success(p) if p == "./assets/thumbnails/100.png"));
}

#[test]
fn start_run_with_fetch_error() {
    let mut cell = SharedState::new();
    let plans = start_run(&mut cell, 0, Err("http 500".to_string()));
    assert!(plans.is_none());
    match cell.state() {
        NetworkState::Error(reason) => assert_eq!(reason, "http 500"),
        other => panic!("expected an error state, got {:?}", other),
    }
}

#[test]
fn start_run_without_buckets() {
    let mut cell = SharedState::new();
    let plans = start_run(&mut cell, 0, Ok(Schedule { dates: vec![] }));
    assert!(plans.is_none());
    match cell.state() {
        NetworkState::Error(reason) => assert_eq!(reason, "missing metadata"),
        other => panic!("expected an error state, got {:?}", other),
    }
}

#[test]
fn end_to_end_three_games() {
    let with_editorial = |id: u32, cuts: Vec<(&str, &str)>| Game {
        game_pk: id,
        game_date: "2018-06-10".to_string(),
        content: Content {
            editorial: Some(Editorial {
                recap: Recap {
                    mlb: Mlb {
                        headline: format!("recap {}", id),
                        subhead: String::new(),
                        blurb: String::new(),
                        photo: Photo {
                            cuts: cuts
                                .into_iter()
                                .map(|(res, src)| (res.to_string(), Cut { src: src.to_string() }))
                                .collect(),
                        },
                    },
                },
            }),
        },
    };
    let schedule = Schedule {
        dates: vec![DateItem {
            games: vec![
                with_editorial(100, vec![("684x385", "http://example.com/100.jpg")]),
                with_editorial(101, vec![("1x1", "http://example.com/tiny.jpg")]),
                Game {
                    game_pk: 102,
                    game_date: "2018-06-10".to_string(),
                    content: Content { editorial: None },
                },
            ],
        }],
    };

    let mut cell = SharedState::new();
    let plans = start_run(&mut cell, 0, Ok(schedule)).expect("the image phase begins");
    assert_eq!(plans.len(), 2);
    match cell.state() {
        NetworkState::FetchingImages(items, rs) => {
            assert_eq!(items.len(), 2);
            assert_eq!(items[0].id, 100);
            assert_eq!(items[1].id, 101);
            assert!(rs.is_empty());
        }
        other => panic!("expected the image phase, got {:?}", other),
    }

    let mut calls = 0;
    for (i, plan) in plans.into_iter().enumerate() {
        let outcome = execute_plan(plan, Ok(()), &mut calls);
        assert!(cell.record_outcome(0, i, outcome));
    }
    assert_eq!(calls, 1);

    cell.finish_run(0);
    match cell.state() {
        NetworkState::Done(items, rs) => {
            assert_eq!(items.len(), 2);
            let mut rs = rs.clone();
            rs.sort_by_key(|(i, _)| *i);
            assert_eq!(
                rs,
                vec![
                    (0, FetchOutcome::Success("./assets/thumbnails/100.png".to_string())),
                    (1, FetchOutcome::Failure("URL not found".to_string())),
                ]
            );
        }
        other => panic!("expected done, got {:?}", other),
    }
}
