use mlb_fetch::types::{
    extract_run_items, Content, Cut, DateItem, Editorial, Game, Mlb, Photo, Recap, Schedule,
};

fn editorial_game(id: u32, date: &str, headline: &str, cuts: Vec<(&str, &str)>) -> Game {
    Game {
        game_pk: id,
        game_date: date.to_string(),
        content: Content {
            editorial: Some(Editorial {
                recap: Recap {
                    mlb: Mlb {
                        headline: headline.to_string(),
                        subhead: format!("{} subhead", headline),
                        blurb: format!("{} blurb", headline),
                        photo: Photo {
                            cuts: cuts
                                .into_iter()
                                .map(|(res, src)| (res.to_string(), Cut { src: src.to_string() }))
                                .collect(),
                        },
                    },
                },
            }),
        },
    }
}

fn bare_game(id: u32, date: &str) -> Game {
    Game {
        game_pk: id,
        game_date: date.to_string(),
        content: Content { editorial: None },
    }
}

#[test]
fn filters_games_without_editorial() {
    let schedule = Schedule {
        dates: vec![DateItem {
            games: vec![
                editorial_game(
                    100,
                    "2018-06-10",
                    "Opener recap",
                    vec![("684x385", "http://example.com/100.jpg")],
                ),
                bare_game(7, "2018-06-10"),
                editorial_game(101, "2018-06-10", "Nightcap recap", vec![]),
            ],
        }],
    };
    let buckets = schedule.into_item_metadata_data();
    assert_eq!(buckets.len(), 1);
    let items = &buckets[0];
    assert_eq!(items.len(), 2);
    assert_eq!(items[0].id, 100);
    assert_eq!(items[0].date, "2018-06-10");
    assert_eq!(items[0].headline, "Opener recap");
    assert_eq!(items[0].subhead, "Opener recap subhead");
    assert_eq!(items[0].blurb, "Opener recap blurb");
    assert_eq!(
        items[0].photos,
        vec![("684x385".to_string(), "http://example.com/100.jpg".to_string())]
    );
    assert_eq!(items[1].id, 101);
    assert!(items[1].photos.is_empty());
}

#[test]
fn one_bucket_per_date() {
    let schedule = Schedule {
        dates: vec![
            DateItem { games: vec![editorial_game(1, "2018-06-10", "First day", vec![])] },
            DateItem {
                games: vec![
                    bare_game(2, "2018-06-11"),
                    editorial_game(3, "2018-06-11", "Second day", vec![]),
                ],
            },
        ],
    };
    let buckets = schedule.into_item_metadata_data();
    assert_eq!(buckets.len(), 2);
    assert_eq!(buckets[0].len(), 1);
    assert_eq!(buckets[0][0].id, 1);
    assert_eq!(buckets[1].len(), 1);
    assert_eq!(buckets[1][0].id, 3);
}

#[test]
fn run_items_come_from_first_bucket() {
    let schedule = Schedule {
        dates: vec![
            DateItem { games: vec![editorial_game(10, "2018-06-10", "Wanted", vec![])] },
            DateItem { games: vec![editorial_game(20, "2018-06-11", "Ignored", vec![])] },
        ],
    };
    let items = extract_run_items(schedule).expect("first bucket present");
    assert_eq!(items.len(), 1);
    assert_eq!(items[0].id, 10);
}

#[test]
fn missing_bucket_is_fatal() {
    let r = extract_run_items(Schedule { dates: vec![] });
    assert_eq!(r.unwrap_err(), "missing metadata");
}

#[test]
fn empty_first_bucket_yields_no_items() {
    let schedule = Schedule { dates: vec![DateItem { games: vec![] }] };
    let items = extract_run_items(schedule).expect("bucket present");
    assert!(items.is_empty());
}
