use openwhoop::cli::{OpenWhoopCli, OpenWhoopCommand};
use openwhoop::history::{
    assign_labels, format_rr_intervals, parse_rr_intervals, search_history, select_unlabelled,
    HeartRateReading, SearchHistory, SEARCH_LIMIT,
};
use openwhoop::record::TelemetryRecord;
use openwhoop::segmentation::{detect_events, Activity, ActivityPolicy};

fn row(time: i64, bpm: i16, rr: &str, activity: Option<i64>) -> HeartRateReading {
    HeartRateReading { time, bpm, rr_intervals: rr.to_string(), activity }
}

#[test]
fn intervals_are_read_back() {
    assert_eq!(parse_rr_intervals("800,810,790"), vec![800, 810, 790]);
    assert_eq!(parse_rr_intervals("65535"), vec![65535]);
    assert_eq!(parse_rr_intervals("0,007,+12"), vec![0, 7, 12]);
}

#[test]
fn empty_text_holds_no_interval() {
    assert_eq!(parse_rr_intervals(""), Vec::<u16>::new());
    assert_eq!(row(1, 60, "", Some(3)).parse_reading().rr, Vec::<u16>::new());
}

#[test]
fn pieces_that_are_no_number_count_as_zero() {
    assert_eq!(parse_rr_intervals(","), vec![0, 0]);
    assert_eq!(parse_rr_intervals(" "), vec![0]);
    assert_eq!(parse_rr_intervals("800,,790,"), vec![800, 0, 790, 0]);
    assert_eq!(parse_rr_intervals("65536,-1, 5,5 ,x,1_0,+,12a,٣"), vec![0; 9]);
    assert_eq!(parse_rr_intervals("99999999999999999999,1"), vec![0, 1]);
}

#[test]
fn labelled_row_is_read_back() {
    let reading = row(1_700_000_000, 64, "812,798", Some(1_000_000_001)).parse_reading();
    assert_eq!(reading.time, 1_700_000_000);
    assert_eq!(reading.bpm, 64);
    assert_eq!(reading.rr, vec![812, 798]);
    assert_eq!(reading.activity, 1_000_000_001);
}

#[test]
fn heart_rate_out_of_range_reads_as_255() {
    for (stored, read) in [(0i16, 0u8), (255, 255), (256, 255), (-1, 255), (i16::MAX, 255), (72, 72)]
    {
        assert_eq!(row(0, stored, "", Some(0)).parse_reading().bpm, read);
    }
}

#[test]
fn row_without_label_is_not_found() {
    let rows = vec![row(5, 60, "800", None), row(6, 61, "", Some(2)), row(7, 62, "9", None)];
    let found = search_history(&rows, SearchHistory { from: None });
    assert_eq!(found.len(), 1);
    assert_eq!((found[0].time, found[0].bpm, found[0].activity), (6, 61, 2));
    assert!(found[0].rr.is_empty());
}

#[test]
fn search_conditions() {
    assert!(SearchHistory { from: None }.conditions(i64::MIN));
    assert!(SearchHistory { from: Some(10) }.conditions(11));
    assert!(!SearchHistory { from: Some(10) }.conditions(10));
    assert!(!SearchHistory { from: Some(10) }.conditions(9));
}

#[test]
fn search_returns_labelled_readings_after_the_bound() {
    let rows = vec![
        row(10, 60, "800", Some(1)),
        row(20, 61, "810", None),
        row(30, 62, "820", Some(2)),
        row(40, 63, "830", Some(3)),
        row(5, 64, "840", Some(4)),
    ];
    let all: Vec<i64> =
        search_history(&rows, SearchHistory { from: None }).iter().map(|r| r.time).collect();
    assert_eq!(all, vec![10, 30, 40, 5]);
    let later: Vec<i64> =
        search_history(&rows, SearchHistory { from: Some(10) }).iter().map(|r| r.time).collect();
    assert_eq!(later, vec![30, 40]);
    assert!(search_history(&rows, SearchHistory { from: Some(40) }).is_empty());
    assert!(search_history(&Vec::new(), SearchHistory { from: None }).is_empty());
}

#[test]
fn search_stops_at_the_limit() {
    assert_eq!(SEARCH_LIMIT, 100_000);
    let rows: Vec<HeartRateReading> =
        (0..SEARCH_LIMIT as i64 + 5).map(|t| row(t, 60, "800", Some(1))).collect();
    let found = search_history(&rows, SearchHistory { from: None });
    assert_eq!(found.len(), SEARCH_LIMIT);
    assert_eq!(found[SEARCH_LIMIT - 1].time, SEARCH_LIMIT as i64 - 1);
}

#[test]
fn only_readings_without_label_are_selected() {
    let rows = vec![
        row(10, 60, "", None),
        row(20, 60, "", Some(7)),
        row(30, 60, "", None),
        row(40, 60, "", None),
    ];
    assert_eq!(select_unlabelled(&rows, None), vec![0, 2, 3]);
    assert_eq!(select_unlabelled(&rows, Some(10)), vec![2, 3]);
    assert_eq!(select_unlabelled(&rows, Some(40)), Vec::<usize>::new());
}

#[test]
fn labels_go_only_to_readings_without_one() {
    let mut rows = vec![
        row(10, 60, "800", None),
        row(20, 61, "810", Some(7)),
        row(30, 62, "820", None),
    ];
    assign_labels(&mut rows, Some(10), &vec![100, 200, 300]);
    let labels: Vec<Option<i64>> = rows.iter().map(|r| r.activity).collect();
    assert_eq!(labels, vec![None, Some(7), Some(300)]);
    assert_eq!(rows[2].rr_intervals, "820");
    assert_eq!((rows[2].time, rows[2].bpm), (30, 62));
}

#[test]
fn a_second_pass_changes_nothing() {
    let mut rows = vec![row(10, 60, "", None), row(20, 60, "", Some(7)), row(30, 60, "", None)];
    assign_labels(&mut rows, None, &vec![1, 2, 3]);
    let once: Vec<Option<i64>> = rows.iter().map(|r| r.activity).collect();
    assert_eq!(once, vec![Some(1), Some(7), Some(3)]);
    assert!(select_unlabelled(&rows, None).is_empty());
    assign_labels(&mut rows, None, &vec![9, 9, 9]);
    let twice: Vec<Option<i64>> = rows.iter().map(|r| r.activity).collect();
    assert_eq!(twice, once);
}

#[test]
fn scan_request_of_each_command() {
    let scan = OpenWhoopCommand::Scan;
    assert!(!scan.downloads());
    let request = scan.scan_request().unwrap();
    assert_eq!((request.device_identifier, request.interactive), (None, false));
    let download = OpenWhoopCommand::DownloadHistory {
        device_identifier: Some("AA:BB:CC:DD:EE:FF".to_string()),
        interactive: true,
    };
    assert!(download.downloads());
    let request = download.scan_request().unwrap();
    assert_eq!(request.device_identifier.as_deref(), Some("AA:BB:CC:DD:EE:FF"));
    assert!(request.interactive);
    assert!(OpenWhoopCommand::ReRun.scan_request().is_none());
    assert!(OpenWhoopCommand::DetectEvents.scan_request().is_none());
    assert!(!OpenWhoopCommand::ReRun.downloads());
}

#[test]
fn command_line_holds_its_parts() {
    let cli = OpenWhoopCli {
        database_url: "sqlite://db.sqlite".to_string(),
        ble_interface: Some("hci0".to_string()),
        subcommand: OpenWhoopCommand::DetectEvents,
    };
    assert_eq!(cli.database_url, "sqlite://db.sqlite");
    assert_eq!(cli.ble_interface.as_deref(), Some("hci0"));
    assert!(matches!(cli.subcommand, OpenWhoopCommand::DetectEvents));
}

#[test]
fn intervals_are_written_as_decimal_text() {
    assert_eq!(format_rr_intervals(&[800, 810, 790]), "800,810,790");
    assert_eq!(format_rr_intervals(&[0]), "0");
    assert_eq!(format_rr_intervals(&[65535, 0, 7, 10, 100]), "65535,0,7,10,100");
    assert_eq!(format_rr_intervals(&[]), "");
}

#[test]
fn written_intervals_read_back() {
    let cases: [&[u16]; 5] = [&[800], &[0], &[1, 22, 333, 4444, 55555], &[65535, 65535], &[9, 10]];
    for rr in cases {
        assert_eq!(parse_rr_intervals(&format_rr_intervals(rr)), rr.to_vec());
    }
    assert_eq!(parse_rr_intervals(&format_rr_intervals(&[])), Vec::<u16>::new());
}

#[test]
fn record_becomes_an_unlabelled_row() {
    let record = TelemetryRecord {
        timestamp: u32::MAX,
        heart_rate_bpm: 255,
        rr_intervals: vec![801, 799],
    };
    let stored = HeartRateReading::from_record(&record);
    assert_eq!(stored.time, 4_294_967_295);
    assert_eq!(stored.bpm, 255);
    assert_eq!(stored.rr_intervals, "801,799");
    assert_eq!(stored.activity, None);
}

#[test]
fn activity_codes() {
    for (activity, code) in [(Activity::Inactive, 0), (Activity::Active, 1), (Activity::Sleep, 2)] {
        assert_eq!(activity.code(), code);
        assert_eq!(Activity::from_code(code), Some(activity));
    }
    assert_eq!(Activity::from_code(-1), None);
    assert_eq!(Activity::from_code(3), None);
    assert_eq!(Activity::from_code(i64::MAX), None);
}

#[test]
fn policy_goes_by_heart_rate() {
    let policy = ActivityPolicy::standard();
    assert_eq!(policy, ActivityPolicy { sleep_below: 50, active_from: 100 });
    assert_eq!(policy.classify(0), Activity::Sleep);
    assert_eq!(policy.classify(49), Activity::Sleep);
    assert_eq!(policy.classify(50), Activity::Inactive);
    assert_eq!(policy.classify(99), Activity::Inactive);
    assert_eq!(policy.classify(100), Activity::Active);
    assert_eq!(policy.classify(255), Activity::Active);
    let odd = ActivityPolicy { sleep_below: 120, active_from: 100 };
    assert_eq!(odd.classify(110), Activity::Sleep);
    assert_eq!(odd.classify(120), Activity::Active);
}

#[test]
fn detection_labels_only_what_has_no_label() {
    let mut rows = vec![
        row(10, 45, "", None),
        row(20, 45, "", Some(77)),
        row(30, 70, "", None),
        row(40, 130, "", None),
        row(50, 300, "", None),
        row(5, 45, "", None),
    ];
    detect_events(&mut rows, Some(5), ActivityPolicy::standard());
    let labels: Vec<Option<i64>> = rows.iter().map(|r| r.activity).collect();
    assert_eq!(labels, vec![Some(2), Some(77), Some(0), Some(1), Some(1), None]);
    let other = ActivityPolicy { sleep_below: 200, active_from: 201 };
    detect_events(&mut rows, Some(5), other);
    let again: Vec<Option<i64>> = rows.iter().map(|r| r.activity).collect();
    assert_eq!(again, labels);
    detect_events(&mut rows, None, other);
    assert_eq!(rows[5].activity, Some(2));
}

#[test]
fn rows_without_a_proposal_are_left_alone() {
    let mut rows = vec![row(10, 60, "", None), row(20, 60, "", None), row(30, 60, "", None)];
    assign_labels(&mut rows, None, &vec![5]);
    let labels: Vec<Option<i64>> = rows.iter().map(|r| r.activity).collect();
    assert_eq!(labels, vec![Some(5), None, None]);
    assign_labels(&mut rows, None, &vec![1, 2, 3, 4, 5]);
    let labels: Vec<Option<i64>> = rows.iter().map(|r| r.activity).collect();
    assert_eq!(labels, vec![Some(5), Some(2), Some(3)]);
    let mut none: Vec<HeartRateReading> = Vec::new();
    assign_labels(&mut none, None, &vec![1]);
    assert!(none.is_empty());
}

#[test]
fn stored_record_reads_back_as_decoded() {
    let cases: [&[u16]; 4] = [&[], &[0], &[801, 799], &[1, 2, 3, 65535]];
    for rr in cases {
        let record =
            TelemetryRecord { timestamp: 1_700_000_000, heart_rate_bpm: 201, rr_intervals: rr.to_vec() };
        let mut stored = HeartRateReading::from_record(&record);
        stored.activity = Some(1);
        let read = stored.parse_reading();
        assert_eq!(read.time, 1_700_000_000);
        assert_eq!(read.bpm, 201);
        assert_eq!(read.rr, rr.to_vec());
        assert_eq!(read.activity, 1);
    }
}
