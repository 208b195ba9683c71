use userbot::UserBotErrorKind;
use userbot::filters::Filters;

#[test]
fn listing_keeps_insertion_order_per_channel() {
    let mut store = Filters::load_at(":memory:").unwrap();
    store.create_with_data(100, "cat", "meow", None, None).unwrap();
    store.create_with_data(200, "other", "elsewhere", None, None).unwrap();
    store.create_with_data(100, "dog", "woof", None, None).unwrap();

    let in_100 = store.get_all(100).unwrap();
    assert_eq!(in_100.len(), 2);
    assert_eq!(in_100[0].search, "cat");
    assert_eq!(in_100[0].replace, "meow");
    assert_eq!(in_100[0].channel_id, 100);
    assert_eq!(in_100[0].filename, None);
    assert_eq!(in_100[0].data, None);
    assert_eq!(in_100[1].search, "dog");
    assert!(in_100[0].id < in_100[1].id);

    let in_200 = store.get_all(200).unwrap();
    assert_eq!(in_200.len(), 1);
    assert_eq!(in_200[0].search, "other");

    assert_eq!(store.get_all(300).unwrap().len(), 0);
}

#[test]
fn duplicate_triggers_are_kept() {
    let mut store = Filters::load_at(":memory:").unwrap();
    store.create_with_data(100, "cat", "meow", None, None).unwrap();
    store.create_with_data(100, "cat", "purr", None, None).unwrap();
    let all = store.get_all(100).unwrap();
    assert_eq!(all.len(), 2);
    assert_eq!(all[0].replace, "meow");
    assert_eq!(all[1].replace, "purr");
}

#[test]
fn match_round_trip_and_channel_isolation() {
    let mut store = Filters::load_at(":memory:").unwrap();
    store.create_with_data(100, "cat", "meow", None, None).unwrap();

    let hit = store.match_filter(100, "look at the cat!").unwrap();
    assert_eq!(hit.search, "cat");
    assert_eq!(hit.replace, "meow");

    let miss = store.match_filter(100, "nothing here").unwrap_err();
    assert!(matches!(miss.kind(), UserBotErrorKind::NoMatch));

    let other_channel = store.match_filter(200, "look at the cat!").unwrap_err();
    assert!(matches!(other_channel.kind(), UserBotErrorKind::NoMatch));
}

#[test]
fn match_prefers_the_first_stored_filter() {
    let mut store = Filters::load_at(":memory:").unwrap();
    store.create_with_data(100, "cat", "first", None, None).unwrap();
    store.create_with_data(100, "at", "second", None, None).unwrap();
    let hit = store.match_filter(100, "a cat sat").unwrap();
    assert_eq!(hit.replace, "first");
}

#[test]
fn empty_trigger_never_fires() {
    let mut store = Filters::load_at(":memory:").unwrap();
    store.create_with_data(100, "", "ghost", None, None).unwrap();
    let miss = store.match_filter(100, "anything at all").unwrap_err();
    assert!(matches!(miss.kind(), UserBotErrorKind::NoMatch));
    assert_eq!(store.get_all(100).unwrap().len(), 1);
}

#[test]
fn attachment_filters_keep_blob_and_name() {
    let mut store = Filters::load_at(":memory:").unwrap();
    store
        .create_with_data(100, "dog", "woof", Some("y.png".to_string()), Some(vec![1, 2, 3]))
        .unwrap();
    let hit = store.match_filter(100, "big dog here").unwrap();
    assert_eq!(hit.replace, "woof");
    assert_eq!(hit.filename.as_deref(), Some("y.png"));
    assert_eq!(hit.data, Some(vec![1, 2, 3]));
}

#[test]
fn opening_twice_is_idempotent() {
    let uri = "file:idempotent_open_db?mode=memory&cache=shared";
    let mut first = Filters::load_at(uri).unwrap();
    first.create_with_data(100, "cat", "meow", None, None).unwrap();

    let second = Filters::load_at(uri).unwrap();
    let seen = second.get_all(100).unwrap();
    assert_eq!(seen.len(), 1);
    assert_eq!(seen[0].search, "cat");
    assert_eq!(seen[0].replace, "meow");

    let hit = second.match_filter(100, "the cat is back").unwrap();
    assert_eq!(hit.replace, "meow");
}

#[test]
fn unopenable_database_reports_storage_unavailable() {
    let err = match Filters::load_at("file:no_such_db?mode=ro&cache=shared") {
        Ok(_) => panic!("a read-only open of a missing database must fail"),
        Err(e) => e,
    };
    assert!(matches!(err.kind(), UserBotErrorKind::StorageUnavailable));
}

#[test]
fn failed_download_aborts_the_create_with_no_row() {
    let mut store = Filters::load_at(":memory:").unwrap();
    let err = store
        .create_new(
            100,
            "dog",
            "woof".to_string(),
            Some("y.png".to_string()),
            Some("http://127.0.0.1:1/y.png".to_string()),
        )
        .unwrap_err();
    assert!(matches!(err.kind(), UserBotErrorKind::FetchFailed));
    assert_eq!(store.get_all(100).unwrap().len(), 0);
}

#[test]
fn create_new_without_a_url_ignores_the_filename() {
    let mut store = Filters::load_at(":memory:").unwrap();
    store
        .create_new(100, "cat", "meow".to_string(), Some("ignored.png".to_string()), None)
        .unwrap();
    let all = store.get_all(100).unwrap();
    assert_eq!(all.len(), 1);
    assert_eq!(all[0].filename, None);
    assert_eq!(all[0].data, None);
}
