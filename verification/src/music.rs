//! The music queue: what a queued track carries, how the queue is listed,
//! shuffled and edited, and the texts that answer each command.

use vstd::prelude::*;
use vstd::string::*;
use std::time::Duration;
use rand::rngs::ThreadRng;
use rand::seq::SliceRandom;

use crate::text::{decimal, decimal_text, two_digit_text, two_digits, join_lines, join_text};

verus! {

/// The most tracks that a queue listing shows one by one.
pub const MAX_SHOWN: usize = 15;

/// What the player keeps of each queued track.
#[derive(Clone, Debug)]
pub struct TrackData {
    pub title: Option<String>,
    pub source_url: Option<String>,
    pub duration: Option<Duration>,
}

impl Default for TrackData {
    /// A track of which nothing is known.
    fn default() -> (t: Self)
        ensures
            t.title is None,
            t.source_url is None,
            t.duration is None,
    {
        TrackData { title: None, source_url: None, duration: None }
    }
}

/// The whole seconds of a duration, as `Duration::as_secs` returns them.
pub uninterp spec fn whole_seconds(d: Duration) -> u64;

/// `Duration::as_secs`: the number of whole seconds in the duration.
/// Its result is given the name `whole_seconds`; nothing more of it is stated.
#[verifier::external_body]
fn duration_secs(d: &Duration) -> (secs: u64)
    ensures
        secs == whole_seconds(*d),
{
    d.as_secs()
}

/// `m:ss` for a number of seconds: minutes in decimal, a colon, and the
/// remaining seconds padded to two digits.
pub open spec fn clock_text(total: nat) -> Seq<char> {
    decimal(total / 60) + seq![':'] + two_digits(total % 60)
}

/// The length of a track as the queue shows it, if it is known.
pub open spec fn duration_text(duration: Option<Duration>) -> Option<Seq<char>> {
    match duration {
        Some(d) => Some(clock_text(whole_seconds(d) as nat)),
        None => None,
    }
}

/// Renders a number of seconds as `m:ss`.
pub fn format_secs(total: u64) -> (s: String)
    ensures
        s@ == clock_text(total as nat),
{
    let mut s = decimal_text(total / 60);
    proof { reveal_strlit(":"); }
    s.append(":");
    let rest = two_digit_text(total % 60);
    s.append(rest.as_str());
    s
}

/// Renders a track length as `m:ss`; `None` when the length is unknown.
pub fn format_duration(duration: Option<Duration>) -> (s: Option<String>)
    ensures
        match s {
            Some(t) => duration_text(duration) == Some(t@),
            None => duration is None,
        },
{
    match duration {
        Some(d) => {
            let total = duration_secs(&d);
            Some(format_secs(total))
        },
        None => None,
    }
}


/// How a track is named in the queue: its title, else its source URL,
/// else "不明" (unknown).
pub open spec fn track_label(t: TrackData) -> Seq<char> {
    match t.title {
        Some(title) => title@,
        None => match t.source_url {
            Some(url) => url@,
            None => "不明"@,
        },
    }
}

/// The state word of the queue entry at `index`: the first one plays,
/// the others wait.
pub open spec fn queue_status(index: nat) -> Seq<char> {
    if index == 0 {
        "再生中"@
    } else {
        "待機"@
    }
}

/// One line of the queue listing: `n. [state] label`, followed by
/// ` (m:ss)` when the length is known; `n` counts from one.
pub open spec fn queue_line(index: nat, t: TrackData) -> Seq<char> {
    let head = decimal(index + 1) + ". ["@ + queue_status(index) + "] "@ + track_label(t);
    match duration_text(t.duration) {
        Some(d) => head + " ("@ + d + ")"@,
        None => head,
    }
}

/// The first `count` lines of the listing of `tracks`.
pub open spec fn shown_lines(tracks: Seq<TrackData>, count: nat) -> Seq<Seq<char>> {
    Seq::new(count, |i: int| queue_line(i as nat, tracks[i]))
}

/// All lines of the listing: one per track for the first `MAX_SHOWN`
/// tracks, then `...他 k 件` ("k more") when `k > 0` tracks are left out.
pub open spec fn queue_lines(tracks: Seq<TrackData>) -> Seq<Seq<char>> {
    if tracks.len() > MAX_SHOWN {
        shown_lines(tracks, MAX_SHOWN as nat).push(
            "...他 "@ + decimal((tracks.len() - MAX_SHOWN) as nat) + " 件"@,
        )
    } else {
        shown_lines(tracks, tracks.len())
    }
}

/// The heading of the listing: `再生キュー: n 件` ("queue: n tracks").
pub open spec fn queue_heading(count: nat) -> Seq<char> {
    "再生キュー: "@ + decimal(count) + " 件"@
}

/// The texts of the embed that lists the queue.
pub struct QueueEmbed {
    pub title: String,
    pub description: String,
}

/// The label of a track, as `track_label` defines it.
fn label_text(t: &TrackData) -> (s: String)
    ensures
        s@ == track_label(*t),
{
    match &t.title {
        Some(title) => title.clone(),
        None => match &t.source_url {
            Some(url) => url.clone(),
            None => String::from_str("不明"),
        },
    }
}

/// One line of the queue listing, as `queue_line` defines it.
fn line_text(index: usize, t: &TrackData) -> (s: String)
    requires
        index < MAX_SHOWN,
    ensures
        s@ == queue_line(index as nat, *t),
{
    let mut s = decimal_text((index + 1) as u64);
    s.append(". [");
    if index == 0 {
        s.append("再生中");
    } else {
        s.append("待機");
    }
    s.append("] ");
    let label = label_text(t);
    s.append(label.as_str());
    match format_duration(t.duration) {
        Some(d) => {
            s.append(" (");
            s.append(d.as_str());
            s.append(")");
        },
        None => {},
    }
    s
}

/// The queue embed: its heading counts all tracks, and its description
/// lists them one per line as `queue_lines` defines, joined by newlines.
pub fn build_queue_embed(tracks: &[TrackData]) -> (embed: QueueEmbed)
    ensures
        embed.title@ == queue_heading(tracks@.len()),
        embed.description@ == join_lines(queue_lines(tracks@), "\n"@),
{
    let shown = if tracks.len() < MAX_SHOWN { tracks.len() } else { MAX_SHOWN };
    let mut lines: Vec<String> = Vec::new();
    let mut i: usize = 0;
    while i < shown
        invariant
            shown <= tracks.len(),
            shown <= MAX_SHOWN,
            i <= shown,
            lines@.map_values(|l: String| l@) =~= shown_lines(tracks@, i as nat),
        decreases shown - i,
    {
        let line = line_text(i, &tracks[i]);
        let ghost before = lines@;
        lines.push(line);
        proof {
            assert(lines@ =~= before.push(line));
            assert(lines@.map_values(|l: String| l@) =~= before.map_values(|l: String| l@).push(line@));
            assert(shown_lines(tracks@, (i + 1) as nat) =~= shown_lines(tracks@, i as nat).push(
                queue_line(i as nat, tracks@[i as int]),
            ));
        }
        i = i + 1;
    }
    if tracks.len() > MAX_SHOWN {
        let mut more = String::from_str("...他 ");
        let rest = decimal_text((tracks.len() - MAX_SHOWN) as u64);
        more.append(rest.as_str());
        more.append(" 件");
        lines.push(more);
    }
    assert(lines@.map_values(|l: String| l@) =~= queue_lines(tracks@));
    let mut title = String::from_str("再生キュー: ");
    let count = decimal_text(tracks.len() as u64);
    title.append(count.as_str());
    title.append(" 件");
    let description = join_text(&lines, "\n");
    QueueEmbed { title, description }
}


#[verifier::external_type_specification]
#[verifier::external_body]
pub struct ExThreadRng(rand::rngs::ThreadRng);

/// `rand::thread_rng`: a handle to the lazily seeded random generator of
/// this thread. Nothing is stated of it.
#[verifier::external_body]
fn thread_rng() -> ThreadRng {
    rand::thread_rng()
}

/// `SliceRandom::shuffle` on the items: in rand 0.8 a Fisher-Yates shuffle
/// that only swaps items, so the same items come out in some order.
/// Which order is left open: it rests on the generator.
#[verifier::external_body]
fn shuffle_items<T>(items: &mut Vec<T>, rng: &mut ThreadRng)
    ensures
        final(items)@.len() == old(items)@.len(),
        final(items)@.to_multiset() == old(items)@.to_multiset(),
{
    items.shuffle(rng)
}

/// Shuffles the tracks that wait behind the one that plays. Returns whether
/// there was anything to shuffle (more than one track); otherwise the
/// queue is left as it is. The playing track stays first and no track is
/// added or lost.
pub fn shuffle_upcoming<T>(queue: &mut Vec<T>) -> (shuffled: bool)
    ensures
        shuffled == (old(queue)@.len() > 1),
        !shuffled ==> final(queue)@ == old(queue)@,
        final(queue)@.len() == old(queue)@.len(),
        final(queue)@.to_multiset() == old(queue)@.to_multiset(),
        old(queue)@.len() > 0 ==> final(queue)@[0] == old(queue)@[0],
{
    if queue.len() <= 1 {
        return false;
    }
    let ghost before = queue@;
    let mut rest = queue.split_off(1);
    let ghost rest_before = rest@;
    let mut rng = thread_rng();
    shuffle_items(&mut rest, &mut rng);
    let ghost rest_after = rest@;
    queue.append(&mut rest);
    proof {
        assert(before =~= before.subrange(0, 1) + rest_before);
        vstd::seq_lib::lemma_multiset_commutative(before.subrange(0, 1), rest_before);
        vstd::seq_lib::lemma_multiset_commutative(before.subrange(0, 1), rest_after);
    }
    true
}

/// What the delete command does with a 1-based position in a queue of `len`.
pub enum DeletePlan {
    /// Answer with this text and leave the queue as it is.
    Refuse(String),
    /// Take out the track at this 0-based position.
    Dequeue(usize),
}

/// The refusal for a position outside `1..=len`.
pub open spec fn out_of_range_text(len: nat) -> Seq<char> {
    "無効な番号です。1 から "@ + decimal(len) + " の範囲で指定してください"@
}

/// The decision of the delete command: an empty queue and a position out
/// of range are refused, the playing track (position 1) is not deleted,
/// and any other track is taken out at `index - 1`.
pub open spec fn delete_plan_spec(len: nat, index: nat) -> Result<nat, Seq<char>> {
    if len == 0 {
        Err("再生キューは空です"@)
    } else if index == 0 || index > len {
        Err(out_of_range_text(len))
    } else if index == 1 {
        Err("再生中の曲は削除できません。/music skip を使ってください"@)
    } else {
        Ok((index - 1) as nat)
    }
}

/// Decides what the delete command does with position `index` (counted
/// from one, as the listing shows) in a queue of `len` tracks.
pub fn plan_delete(len: usize, index: usize) -> (plan: DeletePlan)
    ensures
        match plan {
            DeletePlan::Dequeue(pos) => delete_plan_spec(len as nat, index as nat) == Ok::<nat, Seq<char>>(pos as nat),
            DeletePlan::Refuse(text) => delete_plan_spec(len as nat, index as nat) == Err::<nat, Seq<char>>(text@),
        },
        plan is Dequeue <==> 2 <= index <= len,
        plan matches DeletePlan::Dequeue(pos) ==> pos + 1 == index,
        len == 0 ==> (plan matches DeletePlan::Refuse(t) && t@ == "再生キューは空です"@),
        len > 0 && (index == 0 || index > len) ==> (plan matches DeletePlan::Refuse(t)
            && t@ == "無効な番号です。1 から "@ + decimal(len as nat) + " の範囲で指定してください"@),
        len > 0 && index == 1 ==> (plan matches DeletePlan::Refuse(t)
            && t@ == "再生中の曲は削除できません。/music skip を使ってください"@),
{
    if len == 0 {
        DeletePlan::Refuse(String::from_str("再生キューは空です"))
    } else if index == 0 || index > len {
        let mut text = String::from_str("無効な番号です。1 から ");
        let n = decimal_text(len as u64);
        text.append(n.as_str());
        text.append(" の範囲で指定してください");
        DeletePlan::Refuse(text)
    } else if index == 1 {
        DeletePlan::Refuse(String::from_str("再生中の曲は削除できません。/music skip を使ってください"))
    } else {
        DeletePlan::Dequeue(index - 1)
    }
}

/// The answer after a dequeue at the 1-based position `index`: the track
/// was deleted, or (when the queue no longer had it) it was not found.
pub fn deleted_reply(index: usize, removed: bool) -> (text: String)
    ensures
        text@ == if removed {
            decimal(index as nat) + " 番目の曲を削除しました"@
        } else {
            "削除対象を見つけられませんでした"@
        },
{
    if removed {
        let mut text = decimal_text(index as u64);
        text.append(" 番目の曲を削除しました");
        text
    } else {
        String::from_str("削除対象を見つけられませんでした")
    }
}


/// Whether the play command treats its argument as a search query rather
/// than a URL: it does so unless the argument starts with `http`.
pub fn is_search_query(url: &str) -> (search: bool)
    ensures
        search == !(url@.len() >= 4 && url@.subrange(0, 4) == "http"@),
{
    proof { reveal_strlit("http"); }
    let n = url.unicode_len();
    if n < 4 {
        return true;
    }
    let c0 = url.get_char(0);
    let c1 = url.get_char(1);
    let c2 = url.get_char(2);
    let c3 = url.get_char(3);
    let is_http = c0 == 'h' && c1 == 't' && c2 == 't' && c3 == 'p';
    proof {
        if is_http {
            assert(url@.subrange(0, 4) =~= "http"@);
        } else {
            if url@.subrange(0, 4) == "http"@ {
                assert(url@.subrange(0, 4)[0] == url@[0]);
                assert(url@.subrange(0, 4)[1] == url@[1]);
                assert(url@.subrange(0, 4)[2] == url@[2]);
                assert(url@.subrange(0, 4)[3] == url@[3]);
            }
        }
    }
    !is_http
}

/// The user agent that yt-dlp presents.
pub open spec fn user_agent() -> Seq<char> {
    "Mozilla/5.0 (X11; Linux x86_64; rv:135.0) Gecko/20100101 Firefox/135.0"@
}

/// The extra arguments handed to yt-dlp: the cookie file, a browser user
/// agent, the remote EJS components from GitHub and deno as JS runtime.
pub open spec fn ytdlp_args_spec(cookies: Seq<char>) -> Seq<Seq<char>> {
    seq![
        "--cookies"@, cookies,
        "--user-agent"@, user_agent(),
        "--remote-components"@, "ejs:github"@,
        "--js-runtime"@, "deno"@,
    ]
}

/// The extra yt-dlp arguments for the cookie file `cookies`.
pub fn ytdlp_args(cookies: String) -> (args: Vec<String>)
    ensures
        args@.map_values(|a: String| a@) == ytdlp_args_spec(cookies@),
{
    let mut args: Vec<String> = Vec::new();
    args.push(String::from_str("--cookies"));
    args.push(cookies);
    args.push(String::from_str("--user-agent"));
    args.push(String::from_str("Mozilla/5.0 (X11; Linux x86_64; rv:135.0) Gecko/20100101 Firefox/135.0"));
    args.push(String::from_str("--remote-components"));
    args.push(String::from_str("ejs:github"));
    args.push(String::from_str("--js-runtime"));
    args.push(String::from_str("deno"));
    assert(args@.map_values(|a: String| a@) =~= ytdlp_args_spec(cookies@));
    args
}

/// A named field of an embed.
pub struct EmbedField {
    pub name: String,
    pub value: String,
    pub inline: bool,
}

/// A field as plain values: name, value and whether it stands inline.
pub open spec fn field_view(f: EmbedField) -> (Seq<char>, Seq<char>, bool) {
    (f.name@, f.value@, f.inline)
}

/// The texts of the embed that confirms a track was queued.
pub struct AddedEmbed {
    pub title: String,
    pub url: Option<String>,
    pub fields: Vec<EmbedField>,
}

/// The title shown for a queued track: its title, else "不明なタイトル".
pub open spec fn added_title(t: TrackData) -> Seq<char> {
    match t.title {
        Some(title) => title@,
        None => "不明なタイトル"@,
    }
}

/// The fields of the confirmation: the title; the source URL when known;
/// the length (inline) when known.
pub open spec fn added_fields(t: TrackData) -> Seq<(Seq<char>, Seq<char>, bool)> {
    let with_title = seq![("タイトル"@, added_title(t), false)];
    let with_url = match t.source_url {
        Some(url) => with_title.push(("URL"@, url@, false)),
        None => with_title,
    };
    match duration_text(t.duration) {
        Some(d) => with_url.push(("再生時間"@, d, true)),
        None => with_url,
    }
}

/// The confirmation embed for a track that was just queued: titled
/// "再生キューに追加しました", linking the source URL when there is one.
pub fn added_track_embed(track: &TrackData) -> (embed: AddedEmbed)
    ensures
        embed.title@ == "再生キューに追加しました"@,
        match track.source_url {
            Some(url) => embed.url is Some && embed.url.unwrap()@ == url@,
            None => embed.url is None,
        },
        embed.fields@.map_values(|f: EmbedField| field_view(f)) == added_fields(*track),
{
    let title = match &track.title {
        Some(t) => t.clone(),
        None => String::from_str("不明なタイトル"),
    };
    let mut fields: Vec<EmbedField> = Vec::new();
    fields.push(EmbedField { name: String::from_str("タイトル"), value: title, inline: false });
    let url = match &track.source_url {
        Some(u) => {
            fields.push(EmbedField { name: String::from_str("URL"), value: u.clone(), inline: false });
            Some(u.clone())
        },
        None => None,
    };
    match format_duration(track.duration) {
        Some(d) => {
            fields.push(EmbedField { name: String::from_str("再生時間"), value: d, inline: true });
        },
        None => {},
    }
    assert(fields@.map_values(|f: EmbedField| field_view(f)) =~= added_fields(*track));
    AddedEmbed { title: String::from_str("再生キューに追加しました"), url, fields }
}


/// The listing of `n` tracks has one line per track for at most
/// `MAX_SHOWN` of them, plus one summary line when more are queued; the
/// first line is the playing track.
pub proof fn lemma_listing_shape(tracks: Seq<TrackData>)
    ensures
        queue_lines(tracks).len() == if tracks.len() > MAX_SHOWN { MAX_SHOWN + 1 } else { tracks.len() as int },
        tracks.len() > 0 ==> queue_lines(tracks)[0] == queue_line(0, tracks[0]),
        tracks.len() > 0 ==> queue_status(0) == "再生中"@,
{
}

/// The delete command only ever takes out a track that waits: never the
/// playing one, and never past the end of the queue.
pub proof fn lemma_delete_spares_playing(len: nat, index: nat)
    ensures
        delete_plan_spec(len, index) matches Ok(pos) ==> 1 <= pos < len && pos == index - 1,
{
}

/// The answer of the skip command.
pub fn skipped_reply() -> (text: String)
    ensures
        text@ == "スキップしました"@,
{
    String::from_str("スキップしました")
}

/// An answer that is either a plain text or the queue listing.
pub enum QueueReply {
    Text(String),
    Embed(QueueEmbed),
}

/// Whether `reply` is the listing of `tracks`, as `build_queue_embed`
/// makes it.
pub open spec fn is_listing_of(reply: QueueReply, tracks: Seq<TrackData>) -> bool {
    match reply {
        QueueReply::Embed(e) => e.title@ == queue_heading(tracks.len())
            && e.description@ == join_lines(queue_lines(tracks), "\n"@),
        QueueReply::Text(_) => false,
    }
}

/// The answer of the list command: "再生キューは空です" for an empty
/// queue, else the listing.
pub fn list_reply(tracks: &[TrackData]) -> (reply: QueueReply)
    ensures
        tracks@.len() == 0 ==> (reply matches QueueReply::Text(t) && t@ == "再生キューは空です"@),
        tracks@.len() > 0 ==> is_listing_of(reply, tracks@),
{
    if tracks.len() == 0 {
        QueueReply::Text(String::from_str("再生キューは空です"))
    } else {
        QueueReply::Embed(build_queue_embed(tracks))
    }
}

/// The answer of the shuffle command: "シャッフルできる曲がありません"
/// when there was nothing to shuffle, else the listing of the shuffled
/// queue `tracks`.
pub fn shuffle_reply(shuffled: bool, tracks: &[TrackData]) -> (reply: QueueReply)
    ensures
        !shuffled ==> (reply matches QueueReply::Text(t) && t@ == "シャッフルできる曲がありません"@),
        shuffled ==> is_listing_of(reply, tracks@),
{
    if !shuffled {
        QueueReply::Text(String::from_str("シャッフルできる曲がありません"))
    } else {
        QueueReply::Embed(build_queue_embed(tracks))
    }
}

/// Every waiting track can be deleted by its listed number: for a queue of
/// `len` tracks, the numbers `2..=len` and no others are taken out, each
/// at the position one below its number; number 1 (the playing track), 0
/// and numbers past the end are refused.
pub proof fn lemma_delete_accepts_every_waiting_track(len: nat, index: nat)
    ensures
        2 <= index <= len ==> delete_plan_spec(len, index) == Ok::<nat, Seq<char>>((index - 1) as nat),
        delete_plan_spec(len, index) is Ok <==> 2 <= index <= len,
        len > 0 && index == 1 ==> delete_plan_spec(len, index)
            == Err::<nat, Seq<char>>("再生中の曲は削除できません。/music skip を使ってください"@),
        len > 0 && (index == 0 || index > len) ==> delete_plan_spec(len, index)
            == Err::<nat, Seq<char>>("無効な番号です。1 から "@ + decimal(len) + " の範囲で指定してください"@),
        len == 0 ==> delete_plan_spec(len, index) == Err::<nat, Seq<char>>("再生キューは空です"@),
{
}

} // verus!
