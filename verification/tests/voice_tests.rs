use voicebot::voice::{
    count_humans, join_channel, joined_reply, leave_reply, not_in_call_text, respond_to_voice_event, speech_style, style_changed_reply, StyleRegistry, VoiceAction,
    VoiceEvent, VoiceStateInfo, DEFAULT_STYLE,
};

#[test]
fn style_read_after_write() {
    let mut r = StyleRegistry::new();
    assert_eq!(r.style_for(10), DEFAULT_STYLE);
    assert_eq!(r.style_for(10), 3);
    r.set_style(10, 8);
    assert_eq!(r.style_for(10), 8);
    assert_eq!(r.style_for(11), 3);
    r.set_style(10, 2);
    assert_eq!(r.style_for(10), 2);
}

#[test]
fn speech_only_in_bot_channel() {
    let mut r = StyleRegistry::new();
    r.set_style(1, 20);
    assert_eq!(speech_style(false, Some(1), Some(5), 5, &r), Some(20));
    assert_eq!(speech_style(false, Some(2), Some(5), 5, &r), Some(3));
    assert_eq!(speech_style(true, Some(1), Some(5), 5, &r), None);
    assert_eq!(speech_style(false, None, Some(5), 5, &r), None);
    assert_eq!(speech_style(false, Some(1), None, 5, &r), None);
    assert_eq!(speech_style(false, Some(1), Some(6), 5, &r), None);
}

fn st(user: u64, ch: Option<u64>) -> VoiceStateInfo {
    VoiceStateInfo { user_id: user, channel_id: ch }
}

#[test]
fn humans_counted_in_channel() {
    let states = vec![st(1, Some(9)), st(2, Some(9)), st(3, Some(8)), st(4, None), st(99, Some(9))];
    assert_eq!(count_humans(&states, 9, 99), 2);
    assert_eq!(count_humans(&states, 8, 99), 1);
    assert_eq!(count_humans(&states, 7, 99), 0);
}

#[test]
fn leaves_when_alone() {
    let alone = vec![st(99, Some(9)), st(1, Some(8))];
    let company = vec![st(99, Some(9)), st(1, Some(9))];
    assert_eq!(respond_to_voice_event(VoiceEvent::ClientDisconnect, Some(9), Some(&alone), 99), VoiceAction::ClearQueueAndLeave);
    assert_eq!(respond_to_voice_event(VoiceEvent::ClientDisconnect, Some(9), Some(&company), 99), VoiceAction::Nothing);
    assert_eq!(respond_to_voice_event(VoiceEvent::ClientDisconnect, None, Some(&alone), 99), VoiceAction::Nothing);
    assert_eq!(respond_to_voice_event(VoiceEvent::ClientDisconnect, Some(9), None, 99), VoiceAction::Nothing);
    assert_eq!(respond_to_voice_event(VoiceEvent::DriverDisconnect, None, None, 99), VoiceAction::ClearQueueAndLeave);
    assert_eq!(respond_to_voice_event(VoiceEvent::Other, Some(9), Some(&alone), 99), VoiceAction::Nothing);
}

#[test]
fn join_needs_voice_channel() {
    assert_eq!(join_channel(Some(4)), Ok(4));
    assert_eq!(join_channel(None), Err("先にボイスチャンネルに参加してください".to_string()));
}

#[test]
fn style_reply() {
    assert_eq!(style_changed_reply(0), "スタイルIDを 0 に変更しました");
    assert_eq!(style_changed_reply(65535), "スタイルIDを 65535 に変更しました");
}

#[test]
fn voice_command_texts() {
    assert_eq!(joined_reply(), "ボイスチャンネルに参加しました");
    assert_eq!(leave_reply(true), "ボイスチャンネルから退出しました");
    assert_eq!(leave_reply(false), "ボイスチャンネルに参加していません");
    assert_eq!(not_in_call_text(), "ボイスチャンネルに参加していません");
}
