use hikaru::actions::download::DownloadAction;
use hikaru::digits::parse_u32;
use hikaru::feeds::feed_model::{Channel, Item, RssFeedModel};
use hikaru::hconf_parser::model::{
    ClientType, FeedAction, Filter, HConf, HConfParseError, RssFeed, Task, TorrentClient,
};
use hikaru::task::task_pipeline::{build_cycle, CycleEvent, CycleStep, TaskPipeline};

fn item(title: &str, link: &str, size: &str) -> Item {
    Item {
        title: Some(title.to_string()),
        link: Some(link.to_string()),
        linktype: None,
        size: Some(size.to_string()),
        pub_date: None,
        info_hash: None,
    }
}

fn sample_task() -> Task {
    Task {
        schedule: "15m".to_string(),
        max_retries: 3,
        rss_feed: RssFeed {
            url: "http://indexer/feed.xml".to_string(),
            indexer: None,
            filter: Some(Filter {
                accept: vec!["*1080p*".to_string()],
                exclude: vec![],
                min_size: "100".to_string(),
                max_size: "1000".to_string(),
            }),
        },
        // The download action stands first on purpose: the exec phase must
        // still run before any submission.
        actions: vec![
            (
                "grab".to_string(),
                FeedAction::Download {
                    client: "qb1".to_string(),
                    save_path: "/downloads/${get_title.output}".to_string(),
                },
            ),
            (
                "get_title".to_string(),
                FeedAction::Exec { command: "echo Example".to_string(), args: vec![] },
            ),
        ],
    }
}

#[test]
fn exec_runs_before_any_submission_whatever_the_declared_order() {
    let task = sample_task();
    let mut cycle = build_cycle(&"t1".to_string(), &task).unwrap();
    match cycle.instr() {
        CycleStep::RunExec { name, command, .. } => {
            assert_eq!(name, "get_title");
            assert_eq!(command, "echo Example");
        },
        _ => panic!("the first instruction must run the exec action"),
    }
    cycle.step(CycleEvent::ExecDone { output: Some("Example".to_string()) });
    match cycle.instr() {
        CycleStep::FetchFeed { url } => assert_eq!(url, "http://indexer/feed.xml"),
        _ => panic!("after the exec phase the feed is fetched"),
    }
}

#[test]
fn end_to_end_one_matching_item_yields_one_submission() {
    let task = sample_task();
    let mut cycle = build_cycle(&"t1".to_string(), &task).unwrap();
    cycle.step(CycleEvent::ExecDone { output: Some("Example".to_string()) });
    let items = vec![
        item("Show.S01E01.1080p", "http://indexer/a.torrent", "500"),
        item("Show.S01E01.720p", "http://indexer/b.torrent", "500"),
    ];
    cycle.step(CycleEvent::FeedDone { items: Some(items) });
    match cycle.instr() {
        CycleStep::Submit { action } => {
            assert_eq!(action.client, "qb1");
            assert_eq!(action.torrent_link, "http://indexer/a.torrent");
            assert_eq!(action.save_path, "/downloads/Example");
            assert_eq!(action.title, "Show.S01E01.1080p");
        },
        _ => panic!("exactly the matching item is submitted"),
    }
    cycle.step(CycleEvent::SubmitDone { ok: true });
    match cycle.instr() {
        CycleStep::Sleep { seconds } => assert_eq!(seconds, 900),
        _ => panic!("one submission, then the cycle sleeps"),
    }
}

#[test]
fn a_failed_submission_does_not_stop_the_next_one() {
    let mut task = sample_task();
    task.rss_feed.filter = None;
    task.actions = vec![(
        "grab".to_string(),
        FeedAction::Download { client: "qb1".to_string(), save_path: "/d".to_string() },
    )];
    let mut cycle = build_cycle(&"t1".to_string(), &task).unwrap();
    let items = vec![item("A", "http://x/a", "1"), item("B", "http://x/b", "1")];
    cycle.step(CycleEvent::FeedDone { items: Some(items) });
    match cycle.instr() {
        CycleStep::Submit { action } => assert_eq!(action.torrent_link, "http://x/a"),
        _ => panic!("item A goes first"),
    }
    cycle.step(CycleEvent::SubmitDone { ok: false });
    match cycle.instr() {
        CycleStep::Submit { action } => assert_eq!(action.torrent_link, "http://x/b"),
        _ => panic!("item B is still attempted after A failed"),
    }
    cycle.step(CycleEvent::SubmitDone { ok: true });
    assert!(matches!(cycle.instr(), CycleStep::Sleep { .. }));
}

#[test]
fn a_failed_fetch_skips_straight_to_sleep() {
    let mut task = sample_task();
    task.actions = vec![(
        "grab".to_string(),
        FeedAction::Download { client: "qb1".to_string(), save_path: "/d".to_string() },
    )];
    let mut cycle = build_cycle(&"t1".to_string(), &task).unwrap();
    cycle.step(CycleEvent::FeedDone { items: None });
    assert!(matches!(cycle.instr(), CycleStep::Sleep { seconds: 900 }));
}

#[test]
fn an_unresolved_template_skips_the_item() {
    let task = sample_task();
    let mut cycle = build_cycle(&"t1".to_string(), &task).unwrap();
    // The exec action failed: no variable is bound this cycle.
    cycle.step(CycleEvent::ExecDone { output: None });
    let items = vec![item("Show.S01E01.1080p", "http://x/a", "500")];
    cycle.step(CycleEvent::FeedDone { items: Some(items) });
    assert!(matches!(cycle.instr(), CycleStep::Sleep { .. }));

    // A fresh cycle where the variable is bound submits the same item.
    cycle.step(CycleEvent::Woke);
    cycle.step(CycleEvent::ExecDone { output: Some("Example".to_string()) });
    let items = vec![item("Show.S01E01.1080p", "http://x/a", "500")];
    cycle.step(CycleEvent::FeedDone { items: Some(items) });
    assert!(matches!(cycle.instr(), CycleStep::Submit { .. }));
}

#[test]
fn items_missing_required_fields_are_skipped() {
    let mut task = sample_task();
    task.actions = vec![(
        "grab".to_string(),
        FeedAction::Download { client: "qb1".to_string(), save_path: "/d".to_string() },
    )];
    let mut cycle = build_cycle(&"t1".to_string(), &task).unwrap();
    let no_link = Item {
        title: Some("Show.1080p".to_string()),
        link: None,
        linktype: None,
        size: Some("500".to_string()),
        pub_date: None,
        info_hash: None,
    };
    let no_size = Item {
        title: Some("Show.1080p".to_string()),
        link: Some("http://x/c".to_string()),
        linktype: None,
        size: None,
        pub_date: None,
        info_hash: None,
    };
    let bad_size = item("Show.1080p", "http://x/d", "12MB");
    cycle.step(CycleEvent::FeedDone { items: Some(vec![no_link, no_size, bad_size]) });
    assert!(matches!(cycle.instr(), CycleStep::Sleep { .. }));
}

#[test]
fn waking_starts_a_fresh_cycle_with_an_empty_context() {
    let task = sample_task();
    let mut cycle = build_cycle(&"t1".to_string(), &task).unwrap();
    cycle.step(CycleEvent::ExecDone { output: Some("First".to_string()) });
    cycle.step(CycleEvent::FeedDone { items: None });
    cycle.step(CycleEvent::Woke);
    assert!(matches!(cycle.instr(), CycleStep::RunExec { .. }));
    cycle.step(CycleEvent::ExecDone { output: None });
    let items = vec![item("Show.S01E01.1080p", "http://x/a", "500")];
    cycle.step(CycleEvent::FeedDone { items: Some(items) });
    // The binding of the first cycle is gone, so the template is unresolved.
    assert!(matches!(cycle.instr(), CycleStep::Sleep { .. }));
}

#[test]
fn bad_schedule_fails_the_task_at_startup() {
    let mut task = sample_task();
    task.schedule = "soon".to_string();
    assert!(build_cycle(&"t1".to_string(), &task).is_err());
}

#[test]
fn bad_filter_bounds_fail_the_task_at_startup() {
    let mut task = sample_task();
    if let Some(f) = task.rss_feed.filter.as_mut() {
        f.min_size = "100MB".to_string();
    }
    assert!(build_cycle(&"t1".to_string(), &task).is_err());
}

#[test]
fn only_the_qbittorrent_backend_resolves() {
    let conf = HConf {
        torrent_client: TorrentClient {
            id: "qb1".to_string(),
            client_type: ClientType::QBittorrent,
            url: "http://localhost:8080".to_string(),
            username: "admin".to_string(),
            password: "SECRET-REDACTED".to_string(),
        },
        tasks: vec![],
    };
    let pipeline = TaskPipeline::new(conf);
    let client = pipeline.prepare_torr_client().unwrap();
    assert_eq!(client.id(), "qb1");
    assert_eq!(client.client_type(), "qbittorrent");

    let conf2 = HConf {
        torrent_client: TorrentClient {
            id: "d1".to_string(),
            client_type: ClientType::Deluge,
            url: "http://localhost".to_string(),
            username: "u".to_string(),
            password: "SECRET-REDACTED".to_string(),
        },
        tasks: vec![],
    };
    let pipeline2 = TaskPipeline::new(conf2);
    assert!(pipeline2.prepare_torr_client().is_none());
}

#[test]
fn feed_model_hands_its_items_out() {
    let feed = RssFeedModel {
        channel: Channel { items: vec![item("A", "http://x/a", "1")] },
    };
    assert_eq!(feed.get_items().len(), 1);
    assert_eq!(feed.get_items()[0].title, Some("A".to_string()));
}

#[test]
fn download_action_new_keeps_its_fields() {
    let a = DownloadAction::new("qb1".to_string(), "http://x/a".to_string(), "/d".to_string());
    assert_eq!(a.client, "qb1");
    assert_eq!(a.torrent_link, "http://x/a");
    assert_eq!(a.save_path, "/d");
    assert_eq!(a.title, "");
}

#[test]
fn config_error_messages_carry_their_text() {
    assert_eq!(HConfParseError::FileReadError("no file".to_string()).message(), "no file");
    assert_eq!(HConfParseError::ParseError("bad".to_string()).message(), "bad");
}

#[test]
fn configured_filter_sizes_are_checked() {
    let f = Filter {
        accept: vec!["*x*".to_string()],
        exclude: vec!["*y*".to_string()],
        min_size: "100".to_string(),
        max_size: "1000".to_string(),
    };
    let checked = f.to_filters().unwrap();
    assert_eq!(checked.min_size, 100);
    assert_eq!(checked.max_size, 1000);
    assert_eq!(checked.accept, vec!["*x*".to_string()]);
    assert_eq!(checked.exclude, vec!["*y*".to_string()]);

    let bad = Filter {
        accept: vec![],
        exclude: vec![],
        min_size: "lots".to_string(),
        max_size: "1000".to_string(),
    };
    assert!(bad.to_filters().is_none());
}

#[test]
fn parse_u32_reads_digit_strings_only() {
    assert_eq!(parse_u32("0"), Some(0));
    assert_eq!(parse_u32("500"), Some(500));
    assert_eq!(parse_u32("4294967295"), Some(4294967295));
    assert_eq!(parse_u32("4294967296"), None);
    assert_eq!(parse_u32(""), None);
    assert_eq!(parse_u32("12MB"), None);
    assert_eq!(parse_u32("-1"), None);
}
