//! The voice side: which chat messages are read aloud and in which voice
//! style, what the bot does when someone leaves its voice channel, and the
//! texts of the voice commands.

use vstd::prelude::*;
use vstd::string::*;
use dashmap::DashMap;

use crate::text::{decimal, decimal_text};

verus! {

#[verifier::external_type_specification]
#[verifier::external_body]
#[verifier::reject_recursive_types(K)]
#[verifier::reject_recursive_types(V)]
#[verifier::reject_recursive_types(S)]
pub struct ExDashMap<K, V, S>(dashmap::DashMap<K, V, S>);

/// A concurrent map from guild to the voice style it chose.
pub type StyleTable = DashMap<u64, u16>;

/// What a map from guild to voice style holds.
pub uninterp spec fn style_table(m: StyleTable) -> Map<u64, u16>;

/// `DashMap::new`: a map with nothing in it.
#[verifier::external_body]
fn new_style_table() -> (table: StyleTable)
    ensures
        style_table(table) =~= Map::empty(),
{
    DashMap::new()
}

/// `DashMap::insert`: sets the value of `guild`, and returns the value it
/// had before, if any. The map's method takes `&self`; it is called here
/// through `&mut` only, so that every change is seen in the contents.
#[verifier::external_body]
fn style_table_insert(m: &mut StyleTable, guild: u64, style: u16) -> (previous: Option<u16>)
    ensures
        style_table(*final(m)) == style_table(*old(m)).insert(guild, style),
        previous == (if style_table(*old(m)).contains_key(guild) {
            Some(style_table(*old(m))[guild])
        } else {
            None
        }),
{
    m.insert(guild, style)
}

/// `DashMap::get`, with the value copied out of the guard it returns:
/// the value of `guild`, if it has one.
#[verifier::external_body]
fn style_table_get(m: &StyleTable, guild: u64) -> (style: Option<u16>)
    ensures
        style == (if style_table(*m).contains_key(guild) {
            Some(style_table(*m)[guild])
        } else {
            None
        }),
{
    m.get(&guild).map(|r| *r)
}

/// The voice style used where a guild has chosen none.
pub const DEFAULT_STYLE: u16 = 3;

/// The voice style of `guild` under the choices `styles`.
pub open spec fn style_of(styles: Map<u64, u16>, guild: u64) -> u16 {
    if styles.contains_key(guild) {
        styles[guild]
    } else {
        DEFAULT_STYLE
    }
}

/// The voice style each guild has chosen for speech.
pub struct StyleRegistry {
    styles: StyleTable,
}

impl View for StyleRegistry {
    type V = Map<u64, u16>;

    closed spec fn view(&self) -> Map<u64, u16> {
        style_table(self.styles)
    }
}

impl StyleRegistry {
    /// A registry in which no guild has chosen a style.
    pub fn new() -> (r: Self)
        ensures
            r@ == Map::<u64, u16>::empty(),
    {
        StyleRegistry { styles: new_style_table() }
    }

    /// Records that `guild` speaks in `style` from now on.
    pub fn set_style(&mut self, guild: u64, style: u16)
        ensures
            final(self)@ == old(self)@.insert(guild, style),
    {
        let _ = style_table_insert(&mut self.styles, guild, style);
    }

    /// The style `guild` speaks in: the one it chose last, else
    /// `DEFAULT_STYLE`.
    pub fn style_for(&self, guild: u64) -> (style: u16)
        ensures
            style == style_of(self@, guild),
    {
        match style_table_get(&self.styles, guild) {
            Some(s) => s,
            None => DEFAULT_STYLE,
        }
    }
}

/// A style that was set is the one read back for that guild, and the
/// styles of all other guilds stay as they were.
pub proof fn lemma_style_read_after_write(styles: Map<u64, u16>, guild: u64, style: u16, other: u64)
    ensures
        style_of(styles.insert(guild, style), guild) == style,
        other != guild ==> style_of(styles.insert(guild, style), other) == style_of(styles, other),
{
}

/// In a fresh registry every guild speaks in the default style.
pub proof fn lemma_fresh_registry_default(guild: u64)
    ensures
        style_of(Map::<u64, u16>::empty(), guild) == DEFAULT_STYLE,
{
}

/// Whether a chat message is read aloud: not when a bot wrote it, not
/// outside a guild, and only when the bot is in a voice call whose channel
/// is the one the message was written in.
pub open spec fn is_spoken(author_is_bot: bool, guild: Option<u64>, call_channel: Option<u64>, message_channel: u64) -> bool {
    &&& !author_is_bot
    &&& guild is Some
    &&& call_channel == Some(message_channel)
}

/// The voice style in which a chat message is read aloud, or `None` when
/// it is not read. `call_channel` is the channel of the bot's voice call in
/// the message's guild, if it is in one.
pub fn speech_style(
    author_is_bot: bool,
    guild: Option<u64>,
    call_channel: Option<u64>,
    message_channel: u64,
    styles: &StyleRegistry,
) -> (style: Option<u32>)
    ensures
        match style {
            Some(s) => is_spoken(author_is_bot, guild, call_channel, message_channel)
                && s == style_of(styles@, guild.unwrap()) as u32,
            None => !is_spoken(author_is_bot, guild, call_channel, message_channel),
        },
        style is Some <==> (!author_is_bot && guild is Some && call_channel == Some(message_channel)),
        style is Some ==> style.unwrap() == (if styles@.contains_key(guild.unwrap()) {
            styles@[guild.unwrap()]
        } else {
            3u16
        }) as u32,
{
    if author_is_bot {
        return None;
    }
    let g = match guild {
        Some(g) => g,
        None => return None,
    };
    let channel = match call_channel {
        Some(c) => c,
        None => return None,
    };
    if channel != message_channel {
        return None;
    }
    Some(styles.style_for(g) as u32)
}

/// One member's voice state in a guild.
pub struct VoiceStateInfo {
    pub user_id: u64,
    pub channel_id: Option<u64>,
}

/// Whether a voice state is a person other than the bot in `channel`.
pub open spec fn is_human_in(state: VoiceStateInfo, channel: u64, bot_id: u64) -> bool {
    state.channel_id == Some(channel) && state.user_id != bot_id
}

/// How many of `states` are people other than the bot in `channel`.
pub open spec fn humans_in(states: Seq<VoiceStateInfo>, channel: u64, bot_id: u64) -> nat
    decreases states.len(),
{
    if states.len() == 0 {
        0
    } else {
        humans_in(states.drop_last(), channel, bot_id) + if is_human_in(states.last(), channel, bot_id) {
            1nat
        } else {
            0nat
        }
    }
}

/// Counts the people other than the bot in `channel`.
pub fn count_humans(states: &Vec<VoiceStateInfo>, channel: u64, bot_id: u64) -> (count: usize)
    ensures
        count == humans_in(states@, channel, bot_id),
        count == states@.filter(|s: VoiceStateInfo| s.channel_id == Some(channel) && s.user_id != bot_id).len(),
        count == 0 <==> forall|i: int|
            0 <= i < states@.len() ==> !(#[trigger] states@[i].channel_id == Some(channel) && states@[i].user_id != bot_id),
{
    let mut count: usize = 0;
    let mut i: usize = 0;
    while i < states.len()
        invariant
            i <= states.len(),
            count == humans_in(states@.take(i as int), channel, bot_id),
            count <= i,
        decreases states.len() - i,
    {
        assert(states@.take(i + 1).drop_last() =~= states@.take(i as int));
        let s = &states[i];
        let human = match s.channel_id {
            Some(c) => c == channel && s.user_id != bot_id,
            None => false,
        };
        if human {
            count = count + 1;
        }
        i = i + 1;
    }
    assert(states@.take(states.len() as int) =~= states@);
    proof {
        lemma_humans_are_the_others_in_channel(states@, channel, bot_id);
    }
    count
}

/// The voice events the bot listens to.
pub enum VoiceEvent {
    /// The bot's own connection was dropped (kicked, network lost).
    DriverDisconnect,
    /// Someone left the voice channel.
    ClientDisconnect,
    /// Any other event.
    Other,
}

/// What the bot does after a voice event.
#[derive(PartialEq, Eq, Structural, Debug)]
pub enum VoiceAction {
    Nothing,
    /// Empty the play queue and leave the voice channel.
    ClearQueueAndLeave,
}

/// The response to a voice event: when the bot's connection drops it
/// leaves the channel and empties the queue; when someone leaves and no person other than the bot
/// is left in the bot's channel, the queue is emptied and the bot leaves.
pub open spec fn voice_response(
    event: VoiceEvent,
    call_channel: Option<u64>,
    states: Option<Seq<VoiceStateInfo>>,
    bot_id: u64,
) -> VoiceAction {
    match event {
        VoiceEvent::DriverDisconnect => VoiceAction::ClearQueueAndLeave,
        VoiceEvent::ClientDisconnect => match (call_channel, states) {
            (Some(ch), Some(st)) => if humans_in(st, ch, bot_id) == 0 {
                VoiceAction::ClearQueueAndLeave
            } else {
                VoiceAction::Nothing
            },
            _ => VoiceAction::Nothing,
        },
        VoiceEvent::Other => VoiceAction::Nothing,
    }
}

/// Decides the response to a voice event. `call_channel` is the channel of
/// the bot's call in the guild, if any; `states` are the guild's voice
/// states, if the guild is in the cache.
pub fn respond_to_voice_event(
    event: VoiceEvent,
    call_channel: Option<u64>,
    states: Option<&Vec<VoiceStateInfo>>,
    bot_id: u64,
) -> (action: VoiceAction)
    ensures
        action == voice_response(
            event,
            call_channel,
            match states {
                Some(s) => Some(s@),
                None => None,
            },
            bot_id,
        ),
        event is DriverDisconnect ==> action == VoiceAction::ClearQueueAndLeave,
        event is Other ==> action == VoiceAction::Nothing,
        event is ClientDisconnect ==> (action == VoiceAction::ClearQueueAndLeave <==> (
            call_channel is Some && states is Some && forall|i: int|
                0 <= i < states.unwrap()@.len() ==> !(#[trigger] states.unwrap()@[i].channel_id == call_channel
                    && states.unwrap()@[i].user_id != bot_id))),
{
    match event {
        VoiceEvent::DriverDisconnect => VoiceAction::ClearQueueAndLeave,
        VoiceEvent::ClientDisconnect => {
            let channel = match call_channel {
                Some(c) => c,
                None => return VoiceAction::Nothing,
            };
            let st = match states {
                Some(s) => s,
                None => return VoiceAction::Nothing,
            };
            let humans = count_humans(st, channel, bot_id);
            if humans == 0 {
                VoiceAction::ClearQueueAndLeave
            } else {
                VoiceAction::Nothing
            }
        },
        VoiceEvent::Other => VoiceAction::Nothing,
    }
}

/// The channel the join command connects to: the caller's voice channel;
/// a caller outside any voice channel is asked to join one first.
pub fn join_channel(user_channel: Option<u64>) -> (target: Result<u64, String>)
    ensures
        match target {
            Ok(c) => user_channel == Some(c),
            Err(text) => user_channel is None && text@ == "先にボイスチャンネルに参加してください"@,
        },
{
    match user_channel {
        Some(c) => Ok(c),
        None => Err(String::from_str("先にボイスチャンネルに参加してください")),
    }
}

/// The answer of the model command: `スタイルIDを n に変更しました`.
pub fn style_changed_reply(style_id: u16) -> (text: String)
    ensures
        text@ == "スタイルIDを "@ + decimal(style_id as nat) + " に変更しました"@,
{
    let mut text = String::from_str("スタイルIDを ");
    let n = decimal_text(style_id as u64);
    text.append(n.as_str());
    text.append(" に変更しました");
    text
}


/// The bot never leaves a voice channel while a person other than itself
/// is in it, and it leaves on the last person's departure.
pub proof fn lemma_leaves_only_when_alone(channel: u64, states: Seq<VoiceStateInfo>, bot_id: u64)
    ensures
        humans_in(states, channel, bot_id) > 0 ==> voice_response(VoiceEvent::ClientDisconnect, Some(channel), Some(states), bot_id)
            == VoiceAction::Nothing,
        humans_in(states, channel, bot_id) == 0 ==> voice_response(VoiceEvent::ClientDisconnect, Some(channel), Some(states), bot_id)
            == VoiceAction::ClearQueueAndLeave,
        voice_response(VoiceEvent::DriverDisconnect, Some(channel), Some(states), bot_id) == VoiceAction::ClearQueueAndLeave,
{
}

/// Messages written by bots are never read aloud, whatever the channel.
pub proof fn lemma_bots_never_spoken(guild: Option<u64>, call_channel: Option<u64>, message_channel: u64)
    ensures
        !is_spoken(true, guild, call_channel, message_channel),
{
}

/// The answer of the join command once the bot is in the channel.
pub fn joined_reply() -> (text: String)
    ensures
        text@ == "ボイスチャンネルに参加しました"@,
{
    String::from_str("ボイスチャンネルに参加しました")
}

/// The answer, or the error, where a command needs the bot in a voice
/// call and it is in none.
pub fn not_in_call_text() -> (text: String)
    ensures
        text@ == "ボイスチャンネルに参加していません"@,
{
    String::from_str("ボイスチャンネルに参加していません")
}

/// The answer of the leave command: the bot left its call, or it was in
/// none.
pub fn leave_reply(was_in_call: bool) -> (text: String)
    ensures
        text@ == if was_in_call {
            "ボイスチャンネルから退出しました"@
        } else {
            "ボイスチャンネルに参加していません"@
        },
{
    if was_in_call {
        String::from_str("ボイスチャンネルから退出しました")
    } else {
        not_in_call_text()
    }
}

/// The people counted in a channel are exactly the voice states in that
/// channel whose user is not the bot: their number is the number of such
/// states, and it is zero exactly when no such state exists.
pub proof fn lemma_humans_are_the_others_in_channel(states: Seq<VoiceStateInfo>, channel: u64, bot_id: u64)
    ensures
        humans_in(states, channel, bot_id)
            == states.filter(|s: VoiceStateInfo| s.channel_id == Some(channel) && s.user_id != bot_id).len(),
        humans_in(states, channel, bot_id) == 0 <==> forall|i: int|
            0 <= i < states.len() ==> !(#[trigger] states[i].channel_id == Some(channel) && states[i].user_id != bot_id),
        humans_in(states, channel, bot_id) <= states.len(),
    decreases states.len(),
{
    reveal_with_fuel(Seq::filter, 1);
    if states.len() > 0 {
        let rest = states.drop_last();
        lemma_humans_are_the_others_in_channel(rest, channel, bot_id);
        assert forall|i: int| 0 <= i < rest.len() implies rest[i] == states[i] by {}
        if humans_in(states, channel, bot_id) == 0 {
            assert forall|i: int| 0 <= i < states.len() implies !(#[trigger] states[i].channel_id == Some(channel)
                && states[i].user_id != bot_id) by {
                if i < rest.len() {
                    assert(rest[i] == states[i]);
                }
            }
        }
        if forall|i: int| 0 <= i < states.len() ==> !(#[trigger] states[i].channel_id == Some(channel)
            && states[i].user_id != bot_id) {
            assert(!(states[states.len() - 1].channel_id == Some(channel) && states[states.len() - 1].user_id != bot_id));
            assert forall|i: int| 0 <= i < rest.len() implies !(#[trigger] rest[i].channel_id == Some(channel)
                && rest[i].user_id != bot_id) by {
                assert(rest[i] == states[i]);
            }
        }
    }
}

/// A chat message is read aloud exactly when a person (not a bot) wrote it
/// in a guild, in the very channel of the bot's voice call; in any other
/// channel it is not read, whatever the channels' numbers.
pub proof fn lemma_spoken_only_in_call_channel(
    author_is_bot: bool,
    guild: Option<u64>,
    call_channel: Option<u64>,
    message_channel: u64,
)
    ensures
        is_spoken(author_is_bot, guild, call_channel, message_channel) <==> (!author_is_bot && guild is Some
            && call_channel == Some(message_channel)),
        call_channel matches Some(c) && c != message_channel ==> !is_spoken(author_is_bot, guild, call_channel, message_channel),
{
}

} // verus!
