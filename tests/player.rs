use boombox::guild::TickOutcome;
use boombox::player::{has_elapsed, PlayError, Player};
use boombox::track::{process_output, track_from_fields, ResolutionError, SongInfo};

fn song(title: &str, duration_secs: u64) -> SongInfo {
    SongInfo {
        title: title.to_string(),
        duration_secs,
        stream_url: format!("https://example.com/{}", title),
        channel: 7,
    }
}

fn record(title: &str, duration: u64) -> String {
    format!(
        "{{\"title\": \"{}\", \"duration\": {}, \"url\": \"https://example.com/{}\"}}",
        title, duration, title
    )
}

#[test]
fn queue_is_fifo() {
    let mut p = Player::new();
    for t in ["one", "two", "three"] {
        p.enqueue(1, song(t, 30));
    }
    for t in ["one", "two", "three"] {
        assert!(p.skip(1, 100));
        assert_eq!(p.current(1).unwrap().title, t);
    }
    assert_eq!(p.queue_len(1), 0);
}

#[test]
fn skip_on_empty_queue_keeps_current() {
    let mut p = Player::new();
    p.promote(1, song("now", 30), 5);
    assert!(!p.skip(1, 9));
    assert_eq!(p.current(1).unwrap().title, "now");
    assert!(p.is_playing(1));
}

#[test]
fn skip_to_past_end_changes_nothing() {
    let mut p = Player::new();
    p.enqueue(1, song("a", 10));
    p.enqueue(1, song("b", 10));
    assert_eq!(p.skip_to(1, 3, 50), Err(PlayError::NotEnoughSongs));
    assert_eq!(p.skip_to(1, 0, 50), Err(PlayError::NotEnoughSongs));
    assert_eq!(p.list(1), vec!["a".to_string(), "b".to_string()]);
    assert!(p.current(1).is_none());
}

#[test]
fn skip_to_in_range_plays_that_position() {
    let mut p = Player::new();
    for t in ["a", "b", "c", "d"] {
        p.enqueue(1, song(t, 10));
    }
    assert_eq!(p.skip_to(1, 3, 50), Ok(()));
    assert_eq!(p.current(1).unwrap().title, "c");
    assert_eq!(p.list(1), vec!["d".to_string()]);
    assert!(p.is_playing(1));
}

#[test]
fn pause_then_resume_replays_same_track() {
    let mut p = Player::new();
    p.promote(1, song("held", 60), 10);
    assert!(p.pause(1));
    assert!(!p.is_playing(1));
    assert_eq!(p.resume(1, 20), Ok(()));
    assert!(p.is_playing(1));
    assert_eq!(p.current(1).unwrap().title, "held");
}

#[test]
fn pause_with_nothing_playing_is_noop() {
    let mut p = Player::new();
    p.enqueue(1, song("queued", 60));
    assert!(!p.pause(1));
    assert!(p.current(1).is_none());
    assert_eq!(p.queue_len(1), 1);
}

#[test]
fn resume_without_track_reports_nothing_queued() {
    let mut p = Player::new();
    assert_eq!(p.resume(1, 3), Err(PlayError::NothingQueued));
    assert!(p.current(1).is_none());
}

#[test]
fn tick_advances_after_grace() {
    let mut p = Player::new();
    let now: u64 = 1000;
    p.promote(1, song("first", 120), now - (120 + 11));
    p.enqueue(1, song("second", 90));
    match p.tick(1, now, true) {
        TickOutcome::Next(t) => {
            assert_eq!(t.title, "second");
            p.promote(1, t, now);
        }
        _ => panic!("expected the next track"),
    }
    assert_eq!(p.current(1).unwrap().title, "second");
    assert_eq!(p.queue_len(1), 0);
    assert!(p.is_playing(1));
}

#[test]
fn tick_waits_within_grace() {
    let mut p = Player::new();
    let now: u64 = 1000;
    p.promote(1, song("first", 120), now - (120 + 5));
    p.enqueue(1, song("second", 90));
    assert!(matches!(p.tick(1, now, true), TickOutcome::Idle));
    assert_eq!(p.current(1).unwrap().title, "first");
    assert_eq!(p.queue_len(1), 1);
}

#[test]
fn tick_pauses_when_disconnected_and_keeps_queue() {
    let mut p = Player::new();
    p.promote(1, song("first", 10), 0);
    p.enqueue(1, song("second", 10));
    assert!(matches!(p.tick(1, 100, false), TickOutcome::Paused));
    assert!(!p.is_playing(1));
    assert_eq!(p.current(1).unwrap().title, "first");
    assert_eq!(p.queue_len(1), 1);
}

#[test]
fn tick_with_empty_queue_holds() {
    let mut p = Player::new();
    p.promote(1, song("last", 10), 0);
    assert!(matches!(p.tick(1, 100, true), TickOutcome::Idle));
    assert!(p.is_playing(1));
    assert_eq!(p.current(1).unwrap().title, "last");
}

#[test]
fn elapsed_boundary() {
    assert!(has_elapsed(100, 20, 130));
    assert!(!has_elapsed(100, 20, 129));
    assert!(!has_elapsed(200, 0, 100));
    assert!(!has_elapsed(0, u64::MAX, u64::MAX));
}

#[test]
fn stop_clears_everything() {
    let mut p = Player::new();
    p.promote(1, song("playing", 30), 0);
    p.enqueue(1, song("queued", 30));
    p.enqueue(2, song("other guild", 30));
    p.stop(1);
    assert!(p.list(1).is_empty());
    assert!(p.current(1).is_none());
    assert_eq!(p.list(2), vec!["other guild".to_string()]);
    p.promote(1, song("fresh", 30), 77);
    assert!(p.is_playing(1));
    assert_eq!(p.current(1).unwrap().title, "fresh");
    assert_eq!(p.queue_len(1), 0);
}

#[test]
fn malformed_lines_are_skipped_one_report_each() {
    let mut p = Player::new();
    let lines = vec![
        record("a", 10),
        "not json at all".to_string(),
        record("b", 20),
        "[1, 2]".to_string(),
        record("c", 30),
    ];
    let outcomes = p.add_lines(1, &lines, 9);
    let failures = outcomes.iter().filter(|o| o.is_err()).count();
    assert_eq!(failures, 2);
    assert_eq!(outcomes[1], Err(ResolutionError::Malformed));
    assert_eq!(outcomes[3], Err(ResolutionError::Malformed));
    assert_eq!(p.list(1), vec!["a".to_string(), "b".to_string(), "c".to_string()]);
}

#[test]
fn add_line_appends_decoded_track() {
    let mut p = Player::new();
    assert_eq!(p.add_line(4, &record("song", 42), 11), Ok(()));
    assert_eq!(p.add_line(4, "{", 11), Err(ResolutionError::Malformed));
    assert_eq!(p.queue_len(4), 1);
    assert!(p.skip(4, 0));
    let t = p.current(4).unwrap();
    assert_eq!(t.title, "song");
    assert_eq!(t.duration_secs, 42);
    assert_eq!(t.stream_url, "https://example.com/song");
    assert_eq!(t.channel, 11);
}

#[test]
fn start_line_loads_track() {
    let mut p = Player::new();
    assert_eq!(p.start_line(3, &record("go", 5), 8, 40), Ok(()));
    assert!(p.is_playing(3));
    assert_eq!(p.current(3).unwrap().title, "go");
    assert_eq!(p.start_line(5, "oops", 8, 40), Err(ResolutionError::Malformed));
    assert!(p.current(5).is_none());
}

#[test]
fn process_output_decodes_fields() {
    let t = process_output(&record("x", 3), 2).unwrap();
    assert_eq!(t.title, "x");
    assert_eq!(t.duration_secs, 3);
    assert_eq!(t.stream_url, "https://example.com/x");
    assert_eq!(t.channel, 2);
}

#[test]
fn process_output_missing_field() {
    let line = "{\"title\": \"x\", \"url\": \"u\"}";
    assert_eq!(process_output(line, 2).err(), Some(ResolutionError::MissingField));
    let line = "{\"title\": \"x\", \"duration\": \"long\", \"url\": \"u\"}";
    assert_eq!(process_output(line, 2).err(), Some(ResolutionError::MissingField));
}

#[test]
fn track_from_fields_needs_all() {
    let t = track_from_fields(Some("t".to_string()), Some(4), Some("u".to_string()), 1).unwrap();
    assert_eq!(t.title, "t");
    assert!(track_from_fields(None, Some(4), Some("u".to_string()), 1).is_err());
    assert!(track_from_fields(Some("t".to_string()), None, Some("u".to_string()), 1).is_err());
    assert!(track_from_fields(Some("t".to_string()), Some(4), None, 1).is_err());
}

#[test]
fn copy_keeps_fields() {
    let a = song("dup", 12);
    let b = a.copy();
    assert_eq!(b.title, "dup");
    assert_eq!(b.duration_secs, 12);
    assert_eq!(b.stream_url, a.stream_url);
    assert_eq!(b.channel, 7);
}

#[test]
fn guilds_are_independent() {
    let mut p = Player::new();
    p.enqueue(1, song("g1", 10));
    p.enqueue(2, song("g2", 10));
    assert!(p.skip(1, 0));
    assert_eq!(p.queue_len(2), 1);
    assert!(p.current(2).is_none());
}

#[test]
fn lines_from_before_a_stop_are_dropped() {
    let mut p = Player::new();
    let epoch = p.current_epoch(6);
    assert_eq!(epoch, 0);
    assert_eq!(p.add_line_in(6, epoch, &record("early", 10), 1), Some(Ok(())));
    p.stop(6);
    assert_eq!(p.current_epoch(6), 1);
    assert_eq!(p.add_line_in(6, epoch, &record("late", 10), 1), None);
    assert!(p.list(6).is_empty());
    assert_eq!(p.add_line_in(6, 1, "bad", 1), Some(Err(ResolutionError::Malformed)));
    assert_eq!(p.add_line_in(6, 1, &record("fresh", 10), 1), Some(Ok(())));
    assert_eq!(p.list(6), vec!["fresh".to_string()]);
}

#[test]
fn guilds_lists_loaded_ones() {
    let mut p = Player::new();
    p.promote(3, song("a", 1), 0);
    p.promote(8, song("b", 1), 0);
    p.enqueue(9, song("c", 1));
    let mut gs = p.guilds();
    gs.sort();
    assert_eq!(gs, vec![3, 8]);
}

#[test]
fn incomplete_record_is_reported_and_later_lines_still_queue() {
    let mut p = Player::new();
    p.enqueue(2, song("already", 5));
    let lines = vec![
        record("a", 10),
        "{\"title\": \"no url\", \"duration\": 3}".to_string(),
        record("b", 20),
    ];
    let outcomes = p.add_lines(2, &lines, 4);
    assert_eq!(outcomes, vec![Ok(()), Err(ResolutionError::MissingField), Ok(())]);
    assert_eq!(
        p.list(2),
        vec!["already".to_string(), "a".to_string(), "b".to_string()]
    );
}

#[test]
fn well_formed_lines_all_queue_in_order() {
    let mut p = Player::new();
    let lines = vec![record("x", 1), record("y", 2), record("z", 3)];
    let outcomes = p.add_lines(5, &lines, 4);
    assert!(outcomes.iter().all(|o| o.is_ok()));
    for (i, t) in ["x", "y", "z"].iter().enumerate() {
        assert!(p.skip(5, 0));
        let cur = p.current(5).unwrap();
        assert_eq!(cur.title, *t);
        assert_eq!(cur.duration_secs, i as u64 + 1);
        assert_eq!(cur.channel, 4);
    }
}

#[test]
fn play_after_stop_starts_fresh() {
    let mut p = Player::new();
    p.enqueue(1, song("old", 5));
    p.promote(1, song("old current", 5), 0);
    p.stop(1);
    let epoch = p.current_epoch(1);
    assert_eq!(p.start_line(1, &record("first", 30), 2, 500), Ok(()));
    assert_eq!(p.add_line_in(1, epoch, &record("second", 30), 2), Some(Ok(())));
    assert!(p.is_playing(1));
    assert_eq!(p.current(1).unwrap().title, "first");
    assert_eq!(p.current(1).unwrap().stream_url, "https://example.com/first");
    assert_eq!(p.list(1), vec!["second".to_string()]);
}
