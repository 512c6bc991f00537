use std::time::Duration;
use voicebot::music::{
    added_track_embed, build_queue_embed, deleted_reply, format_duration, format_secs, is_search_query,
    list_reply, plan_delete, shuffle_reply, shuffle_upcoming, skipped_reply, ytdlp_args, DeletePlan, QueueReply,
    TrackData,
};
use voicebot::text::{decimal_text, join_text, two_digit_text};

fn track(title: Option<&str>, url: Option<&str>, secs: Option<u64>) -> TrackData {
    TrackData {
        title: title.map(|s| s.to_string()),
        source_url: url.map(|s| s.to_string()),
        duration: secs.map(Duration::from_secs),
    }
}

#[test]
fn decimal_and_padding() {
    assert_eq!(decimal_text(0), "0");
    assert_eq!(decimal_text(1234567890), "1234567890");
    assert_eq!(decimal_text(u64::MAX), u64::MAX.to_string());
    assert_eq!(two_digit_text(5), "05");
    assert_eq!(two_digit_text(42), "42");
    assert_eq!(two_digit_text(123), "123");
}

#[test]
fn join_lines_with_separator() {
    assert_eq!(join_text(&vec![], "\n"), "");
    assert_eq!(join_text(&vec!["a".to_string()], "\n"), "a");
    assert_eq!(join_text(&vec!["a".to_string(), "b".to_string(), "c".to_string()], ", "), "a, b, c");
}

#[test]
fn clock_format() {
    assert_eq!(format_secs(0), "0:00");
    assert_eq!(format_secs(65), "1:05");
    assert_eq!(format_secs(3725), "62:05");
}

#[test]
fn duration_format_uses_whole_seconds() {
    assert_eq!(format_duration(None), None);
    assert_eq!(format_duration(Some(Duration::from_millis(125_900))), Some("2:05".to_string()));
    assert_eq!(format_duration(Some(Duration::from_secs(59))), Some("0:59".to_string()));
}

#[test]
fn queue_embed_empty() {
    let e = build_queue_embed(&[]);
    assert_eq!(e.title, "再生キュー: 0 件");
    assert_eq!(e.description, "");
}

#[test]
fn queue_embed_labels_and_states() {
    let tracks = vec![
        track(Some("Song A"), Some("https://a"), Some(185)),
        track(None, Some("https://b"), None),
        track(None, None, Some(9)),
    ];
    let e = build_queue_embed(&tracks);
    assert_eq!(e.title, "再生キュー: 3 件");
    assert_eq!(
        e.description,
        "1. [再生中] Song A (3:05)\n2. [待機] https://b\n3. [待機] 不明 (0:09)"
    );
}

#[test]
fn queue_embed_truncates_after_fifteen() {
    let tracks: Vec<TrackData> = (0..17).map(|i| track(Some(&format!("t{i}")), None, None)).collect();
    let e = build_queue_embed(&tracks);
    assert_eq!(e.title, "再生キュー: 17 件");
    let lines: Vec<&str> = e.description.split('\n').collect();
    assert_eq!(lines.len(), 16);
    assert_eq!(lines[0], "1. [再生中] t0");
    assert_eq!(lines[14], "15. [待機] t14");
    assert_eq!(lines[15], "...他 2 件");
}

#[test]
fn shuffle_keeps_playing_first() {
    let mut q: Vec<u32> = (0..50).collect();
    assert!(shuffle_upcoming(&mut q));
    assert_eq!(q[0], 0);
    let mut sorted = q.clone();
    sorted.sort();
    assert_eq!(sorted, (0..50).collect::<Vec<u32>>());
    // With 49 waiting tracks the chance that nothing moves is 1/49!; over
    // three shuffles in a row it is (1/49!)^3.
    let mut moved = q != (0..50).collect::<Vec<u32>>();
    for _ in 0..2 {
        if !moved {
            let mut again: Vec<u32> = (0..50).collect();
            shuffle_upcoming(&mut again);
            moved = again != (0..50).collect::<Vec<u32>>();
        }
    }
    assert!(moved);
}

#[test]
fn shuffle_needs_two_tracks() {
    let mut empty: Vec<u32> = vec![];
    assert!(!shuffle_upcoming(&mut empty));
    let mut one = vec![7u32];
    assert!(!shuffle_upcoming(&mut one));
    assert_eq!(one, vec![7]);
}

fn refusal(plan: DeletePlan) -> String {
    match plan {
        DeletePlan::Refuse(t) => t,
        DeletePlan::Dequeue(p) => panic!("expected a refusal, got dequeue {p}"),
    }
}

#[test]
fn delete_plans() {
    assert_eq!(refusal(plan_delete(0, 1)), "再生キューは空です");
    assert_eq!(refusal(plan_delete(3, 0)), "無効な番号です。1 から 3 の範囲で指定してください");
    assert_eq!(refusal(plan_delete(3, 4)), "無効な番号です。1 から 3 の範囲で指定してください");
    assert_eq!(refusal(plan_delete(3, 1)), "再生中の曲は削除できません。/music skip を使ってください");
    assert!(matches!(plan_delete(3, 2), DeletePlan::Dequeue(1)));
    assert!(matches!(plan_delete(3, 3), DeletePlan::Dequeue(2)));
}

#[test]
fn delete_replies() {
    assert_eq!(deleted_reply(4, true), "4 番目の曲を削除しました");
    assert_eq!(deleted_reply(4, false), "削除対象を見つけられませんでした");
}

#[test]
fn search_or_url() {
    assert!(!is_search_query("https://youtu.be/x"));
    assert!(!is_search_query("http"));
    assert!(is_search_query("htt"));
    assert!(is_search_query("lofi hip hop"));
    assert!(is_search_query(""));
    assert!(is_search_query("Http://x"));
}

#[test]
fn ytdlp_arguments() {
    let args = ytdlp_args("/tmp/cookies.txt".to_string());
    assert_eq!(
        args,
        vec![
            "--cookies",
            "/tmp/cookies.txt",
            "--user-agent",
            "Mozilla/5.0 (X11; Linux x86_64; rv:135.0) Gecko/20100101 Firefox/135.0",
            "--remote-components",
            "ejs:github",
            "--js-runtime",
            "deno",
        ]
    );
}

#[test]
fn added_embed_full() {
    let e = added_track_embed(&track(Some("Song"), Some("https://s"), Some(61)));
    assert_eq!(e.title, "再生キューに追加しました");
    assert_eq!(e.url.as_deref(), Some("https://s"));
    let f: Vec<(String, String, bool)> = e.fields.into_iter().map(|f| (f.name, f.value, f.inline)).collect();
    assert_eq!(
        f,
        vec![
            ("タイトル".to_string(), "Song".to_string(), false),
            ("URL".to_string(), "https://s".to_string(), false),
            ("再生時間".to_string(), "1:01".to_string(), true),
        ]
    );
}

#[test]
fn added_embed_unknown_title() {
    let e = added_track_embed(&track(None, None, None));
    assert_eq!(e.url, None);
    assert_eq!(e.fields.len(), 1);
    assert_eq!(e.fields[0].name, "タイトル");
    assert_eq!(e.fields[0].value, "不明なタイトル");
}

#[test]
fn default_track_knows_nothing() {
    let t = TrackData::default();
    assert_eq!(t.title, None);
    assert_eq!(t.source_url, None);
    assert_eq!(t.duration, None);
    let e = build_queue_embed(&[t]);
    assert_eq!(e.description, "1. [再生中] 不明");
}

#[test]
fn queue_command_texts() {
    assert_eq!(skipped_reply(), "スキップしました");
    match list_reply(&[]) {
        QueueReply::Text(t) => assert_eq!(t, "再生キューは空です"),
        QueueReply::Embed(_) => panic!("expected a text"),
    }
    match list_reply(&[track(Some("a"), None, None)]) {
        QueueReply::Embed(e) => assert_eq!(e.description, "1. [再生中] a"),
        QueueReply::Text(_) => panic!("expected the listing"),
    }
    match shuffle_reply(false, &[track(Some("a"), None, None)]) {
        QueueReply::Text(t) => assert_eq!(t, "シャッフルできる曲がありません"),
        QueueReply::Embed(_) => panic!("expected a text"),
    }
    match shuffle_reply(true, &[track(Some("a"), None, None), track(Some("b"), None, None)]) {
        QueueReply::Embed(e) => assert_eq!(e.title, "再生キュー: 2 件"),
        QueueReply::Text(_) => panic!("expected the listing"),
    }
}
