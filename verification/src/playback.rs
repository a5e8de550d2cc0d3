//! Decisions taken while a video source is being opened and watched.

use vstd::prelude::*;
use crate::text::{decimal, decimal2, digit_char, digit, owned, push_decimal, push_decimal2};

verus! {

/// Seconds after which a player whose control socket never appeared is
/// given up on.
pub const SOCKET_TIMEOUT_SECS: u64 = 25;

/// Which player an episode opens in.
#[derive(Clone, Copy, Debug, PartialEq, Eq, Structural)]
pub enum PlayRoute {
    /// The player inside the application window.
    Embedded,
    /// The external mpv process.
    External,
}

/// How playing an episode starts, whatever the player: the episode becomes
/// the current one and goes into the local history first, then the player
/// the settings ask for opens.
#[derive(Clone, Copy, Debug, PartialEq, Eq, Structural)]
pub struct PlayPlan {
    /// The episode recorded as current and added to the history.
    pub title_id: u64,
    pub season: u64,
    pub episode: u64,
    pub route: PlayRoute,
}

pub fn play_plan(title_id: u64, season: u64, episode: u64, embedded_player: bool) -> (r: PlayPlan)
    ensures
        r.title_id == title_id && r.season == season && r.episode == episode,
        r.route == if embedded_player {
            PlayRoute::Embedded
        } else {
            PlayRoute::External
        },
{
    PlayPlan {
        title_id,
        season,
        episode,
        route: if embedded_player {
            PlayRoute::Embedded
        } else {
            PlayRoute::External
        },
    }
}

/// The patience a source gets, from the user's setting: never under ten
/// seconds.
pub fn patience_from_setting(setting_secs: u64) -> (r: u64)
    ensures
        r == if setting_secs < 10 {
            10
        } else {
            setting_secs
        },
{
    if setting_secs < 10 {
        10
    } else {
        setting_secs
    }
}

/// After the player process of one source has been polled: should the next
/// source be tried, and does playback still count as running?
///
/// Returns `(retry, playing)`.
pub fn decide_retry(exited: bool, success: bool, playing: bool) -> (r: (bool, bool))
    ensures
        r.0 == (exited && playing && !success),
        r.1 == (playing && !(exited && !success)),
{
    if !exited {
        return (false, playing);
    }
    if playing && !success {
        return (true, false);
    }
    (false, playing)
}

/// A source is dead when its media never loaded, the player core sits idle
/// without a known duration, and the user's patience has run out.
///
/// `no_duration` tells that the reported duration is not above zero.
pub fn source_is_dead(
    elapsed_secs: u64,
    core_idle: bool,
    no_duration: bool,
    media_loaded: bool,
    threshold_secs: u64,
) -> (r: bool)
    ensures
        r == (!media_loaded && core_idle && no_duration && elapsed_secs >= threshold_secs),
{
    !media_loaded && core_idle && no_duration && elapsed_secs >= threshold_secs
}

/// The control socket never appeared and the waiting time is over.
pub fn socket_timeout_hit(elapsed_secs: u64, socket_seen: bool) -> (r: bool)
    ensures
        r == (!socket_seen && elapsed_secs >= SOCKET_TIMEOUT_SECS),
{
    !socket_seen && elapsed_secs >= SOCKET_TIMEOUT_SECS
}


// ---------------------------------------------------------------------------
// Intro and outro
// ---------------------------------------------------------------------------

/// Intro (opening) and outro (ending) times of an episode as AniSkip gives
/// them, in milliseconds.
#[derive(Clone, Copy, Debug, PartialEq, Eq, Structural)]
pub struct SkipTimes {
    pub op_start: Option<u64>,
    pub op_end: Option<u64>,
    pub ed_start: Option<u64>,
    pub ed_end: Option<u64>,
}

/// `pos` lies in the part that can be skipped: from a second and a half
/// before `start` up to `end`.
pub open spec fn in_skip_window(pos: u64, start: u64, end: u64) -> bool {
    pos + 1500 >= start && pos <= end
}

/// What a skip would jump to now: the end of the intro (`true`) while in
/// the intro and it has not been skipped yet, else the end of the outro
/// (`false`) likewise.
pub open spec fn skip_target_spec(t: SkipTimes, pos: u64, op_done: bool, ed_done: bool) -> Option<(u64, bool)> {
    if !op_done && t.op_start is Some && t.op_end is Some && in_skip_window(
        pos,
        t.op_start->0,
        t.op_end->0,
    ) {
        Some((t.op_end->0, true))
    } else if !ed_done && t.ed_start is Some && t.ed_end is Some && in_skip_window(
        pos,
        t.ed_start->0,
        t.ed_end->0,
    ) {
        Some((t.ed_end->0, false))
    } else {
        None
    }
}

fn within_skip(pos: u64, start: u64, end: u64) -> (r: bool)
    ensures
        r == in_skip_window(pos, start, end),
{
    (start <= 1500 || pos >= start - 1500) && pos <= end
}

/// The skip target at `pos_ms`, with whether it ends the intro.
pub fn skip_target(t: &SkipTimes, pos_ms: u64, op_done: bool, ed_done: bool) -> (r: Option<(u64, bool)>)
    ensures
        r == skip_target_spec(*t, pos_ms, op_done, ed_done),
{
    if !op_done {
        if let (Some(st), Some(en)) = (t.op_start, t.op_end) {
            if within_skip(pos_ms, st, en) {
                return Some((en, true));
            }
        }
    }
    if !ed_done {
        if let (Some(st), Some(en)) = (t.ed_start, t.ed_end) {
            if within_skip(pos_ms, st, en) {
                return Some((en, false));
            }
        }
    }
    None
}

/// A skip goes forward: the target is never before the position.
pub proof fn lemma_skip_goes_forward(t: SkipTimes, pos: u64, op_done: bool, ed_done: bool)
    ensures
        skip_target_spec(t, pos, op_done, ed_done) matches Some((target, _)) ==> target >= pos,
{
}

/// A part already skipped is not offered again.
pub proof fn lemma_skip_once(t: SkipTimes, pos: u64)
    ensures
        skip_target_spec(t, pos, true, true) is None,
        skip_target_spec(t, pos, true, false) matches Some((_, intro)) ==> !intro,
        skip_target_spec(t, pos, false, true) matches Some((_, intro)) ==> intro,
{
}

/// The moment to announce a part: from a second and a half before its
/// start to 25 seconds after it.
pub open spec fn in_prompt_window(pos: u64, start: u64) -> bool {
    pos + 1500 >= start && pos <= start + 25000
}

pub fn prompt_due(pos_ms: u64, start_ms: u64) -> (r: bool)
    ensures
        r == in_prompt_window(pos_ms, start_ms),
{
    (start_ms <= 1500 || pos_ms >= start_ms - 1500) && (start_ms > u64::MAX - 25000 || pos_ms
        <= start_ms + 25000)
}

// ---------------------------------------------------------------------------
// Where playback starts
// ---------------------------------------------------------------------------

/// A locally saved position worth resuming: past the first five seconds
/// and before 95% of a known duration.
pub open spec fn local_resume(local: Option<(u64, u64)>) -> Option<u64> {
    match local {
        Some((pos, dur)) => if pos > 5000 && dur > 0 && pos * 100 < dur * 95 {
            Some(pos)
        } else {
            None
        },
        None => None,
    }
}

/// The start position: the larger of the local position and the one the
/// server keeps. A local position counts past five seconds and before 95%
/// of the episode; a server position counts past five seconds.
pub open spec fn start_pos_spec(local: Option<(u64, u64)>, remote: Option<u64>) -> Option<u64> {
    let l = local_resume(local);
    let r = match remote {
        Some(x) => if x > 5000 {
            Some(x)
        } else {
            None
        },
        None => None,
    };
    match (l, r) {
        (Some(a), Some(b)) => if b > a {
            Some(b)
        } else {
            Some(a)
        },
        (Some(a), None) => Some(a),
        (None, Some(b)) => Some(b),
        (None, None) => None,
    }
}

/// Where to start an episode, in milliseconds, from the locally saved
/// `(position, duration)` and the position the server remembers.
pub fn start_pos(local: Option<(u64, u64)>, remote: Option<u64>) -> (r: Option<u64>)
    ensures
        r == start_pos_spec(local, remote),
{
    let l = match local {
        Some((pos, dur)) => if pos > 5000 && dur > 0 && (pos as u128) * 100 < (dur as u128) * 95 {
            Some(pos)
        } else {
            None
        },
        None => None,
    };
    let r = match remote {
        Some(x) => if x > 5000 {
            Some(x)
        } else {
            None
        },
        None => None,
    };
    match (l, r) {
        (Some(a), Some(b)) => if b > a {
            Some(b)
        } else {
            Some(a)
        },
        (Some(a), None) => Some(a),
        (None, Some(b)) => Some(b),
        (None, None) => None,
    }
}

/// Resuming never loses ground: the start is at least every position that
/// counts, and is one of them.
pub proof fn lemma_start_pos_is_max(local: Option<(u64, u64)>, remote: Option<u64>)
    ensures
        start_pos_spec(local, remote) matches Some(p) ==> (local_resume(local) matches Some(a)
            ==> p >= a) && (remote matches Some(b) ==> b > 5000 ==> p >= b) && (
        local_resume(local) == Some(p) || remote == Some(p)),
        (start_pos_spec(local, remote) is None) == (local_resume(local) is None && !(
        remote matches Some(b) && b > 5000)),
{
}

// ---------------------------------------------------------------------------
// The key bindings of the external player
// ---------------------------------------------------------------------------

/// `MM:SS` of a time in milliseconds, seconds cut off.
pub open spec fn mm_ss(ms: u64) -> Seq<char> {
    decimal2(((ms / 1000) / 60) as nat) + seq![':'] + decimal2(((ms / 1000) % 60) as nat)
}

/// Seconds with one decimal (`{:.1}`) of a time in milliseconds, rounded
/// to the nearest tenth.
pub open spec fn tenths_text(ms: u64) -> Seq<char> {
    let t = (ms as nat + 50) / 100;
    decimal(t / 10) + seq!['.'] + seq![digit_char(t % 10)]
}

/// The input.conf lines for the `s` (intro) and `e` (outro) keys: a seek
/// to the end of the part when AniSkip knows it, else a notice; then back
/// thirty seconds on `S`, and `End` ignored.
pub open spec fn input_conf_spec(t: SkipTimes) -> Seq<char> {
    let skip = if t.op_start is Some && t.op_end is Some {
        "s seek "@ + tenths_text(t.op_end->0) + " absolute; show-text \"⏩ İntro Atlandı (AniSkip: "@
            + mm_ss(t.op_start->0) + " → "@ + mm_ss(t.op_end->0) + ")\" 3000\n"@
    } else {
        "s show-text \"⚠️ İntro zamanı bulunamadı (AniSkip)\" 2500\n"@
    };
    let outro = if t.ed_start is Some && t.ed_end is Some {
        "e seek "@ + tenths_text(t.ed_end->0) + " absolute; show-text \"⏩ Outro Atlandı (AniSkip: "@
            + mm_ss(t.ed_start->0) + " → "@ + mm_ss(t.ed_end->0) + ")\" 3000\n"@
    } else {
        "e show-text \"⚠️ Outro zamanı bulunamadı (AniSkip)\" 2500\n"@
    };
    skip + outro + "S seek -30; show-text \"⏪ 30s Geri\" 2000\nEnd ignore\n"@
}

fn push_mm_ss(s: &mut String, ms: u64)
    ensures
        final(s)@ == old(s)@ + mm_ss(ms),
{
    let secs = ms / 1000;
    push_decimal2(s, secs / 60);
    crate::text::push_char(s, ':');
    push_decimal2(s, secs % 60);
}

/// Appends the seconds of `ms` with one decimal.
pub fn push_tenths_text(s: &mut String, ms: u64)
    ensures
        final(s)@ == old(s)@ + tenths_text(ms),
{
    let t: u64 = ms / 100 + if ms % 100 >= 50 {
        1
    } else {
        0
    };
    assert(t == (ms as nat + 50) / 100);
    push_decimal(s, t / 10);
    crate::text::push_char(s, '.');
    crate::text::push_char(s, digit(t % 10));
}

/// The key bindings written for the external player.
pub fn aniskip_input_conf(t: &SkipTimes) -> (r: String)
    ensures
        r@ == input_conf_spec(*t),
{
    let mut s = String::new();
    if let (Some(st), Some(et)) = (t.op_start, t.op_end) {
        s.append("s seek ");
        push_tenths_text(&mut s, et);
        s.append(" absolute; show-text \"⏩ İntro Atlandı (AniSkip: ");
        push_mm_ss(&mut s, st);
        s.append(" → ");
        push_mm_ss(&mut s, et);
        s.append(")\" 3000\n");
    } else {
        s.append("s show-text \"⚠️ İntro zamanı bulunamadı (AniSkip)\" 2500\n");
    }
    if let (Some(st), Some(et)) = (t.ed_start, t.ed_end) {
        s.append("e seek ");
        push_tenths_text(&mut s, et);
        s.append(" absolute; show-text \"⏩ Outro Atlandı (AniSkip: ");
        push_mm_ss(&mut s, st);
        s.append(" → ");
        push_mm_ss(&mut s, et);
        s.append(")\" 3000\n");
    } else {
        s.append("e show-text \"⚠️ Outro zamanı bulunamadı (AniSkip)\" 2500\n");
    }
    s.append("S seek -30; show-text \"⏪ 30s Geri\" 2000\nEnd ignore\n");
    assert(s@ =~= input_conf_spec(*t));
    s
}

/// The key bindings written before AniSkip answered: a waiting notice on
/// `s` and `e`, or that AniSkip is off.
pub open spec fn initial_conf_spec(aniskip_enabled: bool) -> Seq<char> {
    if aniskip_enabled {
        "s show-text \"⏳ AniSkip çözümleniyor…\" 2000\ne show-text \"⏳ AniSkip çözümleniyor…\" 2000\n"@
            + "S seek -30; show-text \"⏪ 30s Geri\" 2000\nEnd ignore\n"@
    } else {
        "s show-text \"AniSkip kapalı (Ayarlar)\" 2000\ne show-text \"AniSkip kapalı (Ayarlar)\" 2000\n"@
            + "S seek -30; show-text \"⏪ 30s Geri\" 2000\nEnd ignore\n"@
    }
}

pub fn initial_input_conf(aniskip_enabled: bool) -> (r: String)
    ensures
        r@ == initial_conf_spec(aniskip_enabled),
{
    let mut s = if aniskip_enabled {
        owned("s show-text \"⏳ AniSkip çözümleniyor…\" 2000\ne show-text \"⏳ AniSkip çözümleniyor…\" 2000\n")
    } else {
        owned("s show-text \"AniSkip kapalı (Ayarlar)\" 2000\ne show-text \"AniSkip kapalı (Ayarlar)\" 2000\n")
    };
    s.append("S seek -30; show-text \"⏪ 30s Geri\" 2000\nEnd ignore\n");
    s
}

/// Asking AniSkip: up to five attempts, 45 seconds apart, until intro or
/// outro times come.
pub const ANISKIP_TRIES: u32 = 5;

pub const ANISKIP_RETRY_SECS: u64 = 45;

/// Times worth using: the end of the intro or of the outro is known.
pub open spec fn usable_times(t: SkipTimes) -> bool {
    t.op_end is Some || t.ed_end is Some
}

/// What follows an AniSkip answer at `attempt` (from zero).
#[derive(Clone, Copy, Debug, PartialEq, Eq, Structural)]
pub enum AniSkipNext {
    /// The times are in: apply them.
    Apply,
    /// Ask again after this many seconds.
    RetryAfter(u64),
    /// Give up: intro and outro stay unknown.
    GiveUp,
}

pub fn aniskip_next(attempt: u32, t: &SkipTimes) -> (r: AniSkipNext)
    ensures
        r == if usable_times(*t) {
            AniSkipNext::Apply
        } else if attempt + 1 < ANISKIP_TRIES {
            AniSkipNext::RetryAfter(ANISKIP_RETRY_SECS)
        } else {
            AniSkipNext::GiveUp
        },
{
    if t.op_end.is_some() || t.ed_end.is_some() {
        AniSkipNext::Apply
    } else if attempt < ANISKIP_TRIES - 1 {
        AniSkipNext::RetryAfter(ANISKIP_RETRY_SECS)
    } else {
        AniSkipNext::GiveUp
    }
}

/// The IPC line that binds `key` to a seek to `ms`.
pub open spec fn keybind_seek_spec(key: char, ms: u64) -> Seq<char> {
    "{\"command\":[\"keybind\",\""@ + seq![key] + "\",\"seek "@ + tenths_text(ms)
        + " absolute\"]}\n"@
}

pub fn keybind_seek_command(key: char, ms: u64) -> (r: String)
    ensures
        r@ == keybind_seek_spec(key, ms),
{
    let mut s = owned("{\"command\":[\"keybind\",\"");
    crate::text::push_char(&mut s, key);
    s.append("\",\"seek ");
    push_tenths_text(&mut s, ms);
    s.append(" absolute\"]}\n");
    s
}

} // verus!
