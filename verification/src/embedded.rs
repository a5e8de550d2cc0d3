//! The player embedded in the application window: its sources, and what
//! each half-second tick decides.
//!
//! The window owns libmpv and the widgets. Twice a second it reads the
//! player, hands the reading to `PlayerState::tick` and carries out what
//! comes back; source changes go through `load_source_at`, `next_source`
//! and `resolved`.

use vstd::prelude::*;
use crate::media::{sibnet_referer, sibnet_referer_spec};
use crate::playback::{in_prompt_window, prompt_due, skip_target, skip_target_spec, SkipTimes};

verus! {

/// A source of the episode: a media address, or an embed page still to be
/// resolved into one.
pub enum Source {
    Direct(String),
    Embed(String),
}

impl Source {
    /// The address the source's host is read from.
    pub fn hint_url(&self) -> (r: &String)
        ensures
            r == match *self {
                Source::Direct(u) => u,
                Source::Embed(u) => u,
            },
    {
        match self {
            Source::Direct(u) => u,
            Source::Embed(u) => u,
        }
    }
}

/// Notices shown on the video and as a toast.
#[derive(Clone, Copy, Debug, PartialEq, Eq, Structural)]
pub enum Announce {
    IntroSkipped,
    IntroStarted,
    NextEpisodeFocus,
    OutroSkipped,
    OutroStarted,
    NextEpisode,
}

/// The texts of a notice: on-screen text and its milliseconds, toast text
/// and its seconds.
pub open spec fn announce_spec(a: Announce) -> (Seq<char>, u64, Seq<char>, u32) {
    match a {
        Announce::IntroSkipped => ("İntro otomatik atlandı (Focus Mod)"@, 3000, "İntro otomatik atlandı"@, 3),
        Announce::IntroStarted => (
            "İntro Başladı ('s' ile atlayabilirsiniz)"@,
            7000,
            "İntro başladı — 's' ile atla"@,
            4,
        ),
        Announce::NextEpisodeFocus => (
            "Sonraki bölüme geçiliyor (Focus Mod)..."@,
            3000,
            "Sonraki bölüme geçiliyor..."@,
            3,
        ),
        Announce::OutroSkipped => ("Outro otomatik atlandı (Focus Mod)"@, 3000, "Outro otomatik atlandı"@, 3),
        Announce::OutroStarted => (
            "Outro Başladı ('e' ile atlayabilirsiniz)"@,
            7000,
            "Outro başladı — 'e' ile atla"@,
            4,
        ),
        Announce::NextEpisode => ("Sonraki bölüme geçiliyor..."@, 3000, "Sonraki bölüme geçiliyor..."@, 3),
    }
}

pub fn announce_text(a: Announce) -> (r: (&'static str, u64, &'static str, u32))
    ensures
        (r.0@, r.1, r.2@, r.3) == announce_spec(a),
{
    match a {
        Announce::IntroSkipped => ("İntro otomatik atlandı (Focus Mod)", 3000, "İntro otomatik atlandı", 3),
        Announce::IntroStarted => (
            "İntro Başladı ('s' ile atlayabilirsiniz)",
            7000,
            "İntro başladı — 's' ile atla",
            4,
        ),
        Announce::NextEpisodeFocus => (
            "Sonraki bölüme geçiliyor (Focus Mod)...",
            3000,
            "Sonraki bölüme geçiliyor...",
            3,
        ),
        Announce::OutroSkipped => ("Outro otomatik atlandı (Focus Mod)", 3000, "Outro otomatik atlandı", 3),
        Announce::OutroStarted => (
            "Outro Başladı ('e' ile atlayabilirsiniz)",
            7000,
            "Outro başladı — 'e' ile atla",
            4,
        ),
        Announce::NextEpisode => ("Sonraki bölüme geçiliyor...", 3000, "Sonraki bölüme geçiliyor...", 3),
    }
}

/// Why the player moves on to another source.
#[derive(Clone, Copy, Debug, PartialEq, Eq, Structural)]
pub enum Switch {
    /// The source ended long before its end.
    Broken,
    /// Nothing came in 25 seconds.
    NotOpened,
    /// The player sat idle past the patience.
    NotPlaying,
    /// The fallback embed could not be resolved.
    ResolveFailed,
}

/// The toast of a source change.
pub open spec fn switch_spec(w: Switch) -> Seq<char> {
    match w {
        Switch::Broken => "Kaynak bozuk çıktı, diğerine geçiliyor…"@,
        Switch::NotOpened => "Kaynak açılamadı, diğerine geçiliyor…"@,
        Switch::NotPlaying => "Kaynak oynatamadı, diğerine geçiliyor…"@,
        Switch::ResolveFailed => "Yedek çözülemedi, diğerine geçiliyor…"@,
    }
}

pub fn switch_text(w: Switch) -> (r: &'static str)
    ensures
        r@ == switch_spec(w),
{
    match w {
        Switch::Broken => "Kaynak bozuk çıktı, diğerine geçiliyor…",
        Switch::NotOpened => "Kaynak açılamadı, diğerine geçiliyor…",
        Switch::NotPlaying => "Kaynak oynatamadı, diğerine geçiliyor…",
        Switch::ResolveFailed => "Yedek çözülemedi, diğerine geçiliyor…",
    }
}

/// One thing a tick does to the player, in order.
#[derive(Clone, Copy, Debug, PartialEq, Eq, Structural)]
pub enum Effect {
    /// Jump to this position, in milliseconds.
    Seek(u64),
    Show(Announce),
    /// Start the next episode half a second later.
    PlayNext,
}

/// What loading a source asks for.
pub enum LoadStep {
    /// Every source was tried ("Tüm kaynaklar denendi, açılamadı").
    Exhausted,
    /// Set the `Referer` when there is one, then load the address.
    Load { url: String, referer: Option<String> },
    /// Resolve the embed in the background and report with `resolved`.
    Resolve(String),
    /// A resolution is already running.
    Wait,
}

/// The decisions a tick leaves besides its effects.
pub struct TickOut {
    /// The media just came in: unpause and hide the status.
    pub start_playback: bool,
    pub effects: Vec<Effect>,
    /// Move on to the next source with this notice; the tick ends there.
    pub switch_source: Option<Switch>,
    /// The episode ended ("bitti"); the tick ends there.
    pub ended: bool,
    /// Mark the episode watched.
    pub mark_watched: bool,
    /// The skip button: shown for the intro (`true`) or the outro
    /// (`false`), or hidden.
    pub skip_button: Option<bool>,
    /// Store the position, and show it on the episode's progress bar.
    pub save_progress: bool,
    /// Report the position to the server.
    pub report_position: bool,
    /// Remember the current source's host as the title's preferred one.
    pub save_host: bool,
}

/// One reading of the player. Times are in milliseconds; a duration of
/// zero means none is known yet.
#[derive(Clone, Copy, Debug, PartialEq, Eq, Structural)]
pub struct Reading {
    pub pos_ms: u64,
    pub dur_ms: u64,
    pub idle: bool,
    pub eof: bool,
    pub core_idle: bool,
    /// Seconds since the current source started loading.
    pub loaded_for_secs: u64,
    /// Seconds since the position was last reported.
    pub since_report_secs: u64,
    /// The episode counts as watched at this position.
    pub played_enough: bool,
    pub skip: SkipTimes,
}

/// The embedded player's state that decisions depend on.
pub struct PlayerState {
    pub sources: Vec<Source>,
    pub index: usize,
    pub media_loaded: bool,
    pub resolving: bool,
    pub aniskip_on: bool,
    pub op_prompted: bool,
    pub ed_prompted: bool,
    pub op_seek_done: bool,
    pub ed_seek_done: bool,
    pub focus_mode: bool,
    pub auto_next_episode: bool,
    /// There is a next episode in the list.
    pub has_next: bool,
    /// The window can start another episode.
    pub can_play_next: bool,
    pub next_triggered: bool,
    pub watched_marked: bool,
    pub host_saved: bool,
    pub patience_secs: u64,
    pub prog_key: String,
    /// The player still runs: it has not been closed.
    pub alive: bool,
}

// ---------------------------------------------------------------------------
// Sources
// ---------------------------------------------------------------------------

/// Everything but the source position and loading flags stays.
pub open spec fn same_settings(a: PlayerState, b: PlayerState) -> bool {
    &&& a.aniskip_on == b.aniskip_on
    &&& a.op_prompted == b.op_prompted
    &&& a.ed_prompted == b.ed_prompted
    &&& a.op_seek_done == b.op_seek_done
    &&& a.ed_seek_done == b.ed_seek_done
    &&& a.focus_mode == b.focus_mode
    &&& a.auto_next_episode == b.auto_next_episode
    &&& a.has_next == b.has_next
    &&& a.can_play_next == b.can_play_next
    &&& a.next_triggered == b.next_triggered
    &&& a.watched_marked == b.watched_marked
    &&& a.host_saved == b.host_saved
    &&& a.patience_secs == b.patience_secs
    &&& a.prog_key == b.prog_key
    &&& a.alive == b.alive
}

/// `step` loads source `idx` of `s` as `load_source_at` does.
pub open spec fn loads(s: PlayerState, idx: int, step: LoadStep, t: PlayerState) -> bool {
    if idx >= s.sources@.len() {
        step is Exhausted && t.index == s.index && t.media_loaded == s.media_loaded
            && t.resolving == s.resolving
    } else {
        &&& t.index == idx
        &&& !t.media_loaded
        &&& match s.sources@[idx] {
            Source::Direct(url) => t.resolving == s.resolving && match step {
                LoadStep::Load { url: u, referer } => u@ == url@ && match referer {
                    Some(r) => sibnet_referer_spec(url@) == Some(r@),
                    None => sibnet_referer_spec(url@) is None,
                },
                _ => false,
            },
            Source::Embed(e) => if s.resolving {
                step is Wait && t.resolving
            } else {
                t.resolving && match step {
                    LoadStep::Resolve(x) => x@ == e@,
                    _ => false,
                }
            },
        }
    }
}

impl PlayerState {
    /// The title id at the front of the progress key.
    pub fn tid(&self) -> (r: u64)
        ensures
            r == crate::media::title_of_key(self.prog_key@),
    {
        crate::media::title_id_of_key(self.prog_key.as_str())
    }

    /// Starts loading source `idx`.
    pub fn load_source_at(&mut self, idx: usize) -> (r: LoadStep)
        ensures
            same_settings(*final(self), *old(self)),
            final(self).sources == old(self).sources,
            loads(*old(self), idx as int, r, *final(self)),
    {
        if idx >= self.sources.len() {
            return LoadStep::Exhausted;
        }
        self.index = idx;
        self.media_loaded = false;
        match &self.sources[idx] {
            Source::Direct(url) => {
                let u = url.clone();
                let referer = sibnet_referer(u.as_str());
                LoadStep::Load { url: u, referer }
            },
            Source::Embed(e) => {
                if self.resolving {
                    return LoadStep::Wait;
                }
                let x = e.clone();
                self.resolving = true;
                LoadStep::Resolve(x)
            },
        }
    }

    /// Moves on to the source after the current one (the caller stops the
    /// player first unless every source was tried).
    pub fn next_source(&mut self) -> (r: LoadStep)
        requires
            old(self).index < usize::MAX,
        ensures
            same_settings(*final(self), *old(self)),
            final(self).sources == old(self).sources,
            loads(*old(self), old(self).index + 1, r, *final(self)),
    {
        let next = self.index + 1;
        self.load_source_at(next)
    }

    /// A background resolution finished. A resolved embed becomes a direct
    /// source and is loaded; a failed one moves on with a notice.
    pub fn resolved(&mut self, res: Result<String, String>) -> (r: (Option<Switch>, LoadStep))
        requires
            old(self).index < old(self).sources@.len(),
            old(self).index < usize::MAX,
        ensures
            same_settings(*final(self), *old(self)),
            match res {
                Ok(url) => {
                    &&& r.0 is None
                    &&& final(self).sources@ == old(self).sources@.update(
                        old(self).index as int,
                        Source::Direct(url),
                    )
                    &&& final(self).index == old(self).index
                    &&& !final(self).media_loaded
                    &&& !final(self).resolving
                    &&& match r.1 {
                        LoadStep::Load { url: u, referer } => u@ == url@ && match referer {
                            Some(x) => sibnet_referer_spec(url@) == Some(x@),
                            None => sibnet_referer_spec(url@) is None,
                        },
                        _ => false,
                    }
                },
                Err(_) => {
                    let cleared = PlayerState { resolving: false, ..*old(self) };
                    &&& r.0 == Some(Switch::ResolveFailed)
                    &&& final(self).sources == old(self).sources
                    &&& loads(cleared, old(self).index + 1, r.1, *final(self))
                },
            },
    {
        self.resolving = false;
        match res {
            Ok(url) => {
                let idx = self.index;
                let referer = sibnet_referer(url.as_str());
                let u = url.clone();
                self.sources[idx] = Source::Direct(url);
                self.media_loaded = false;
                (None, LoadStep::Load { url: u, referer })
            },
            Err(_) => (Some(Switch::ResolveFailed), self.next_source()),
        }
    }
}

// ---------------------------------------------------------------------------
// The tick
// ---------------------------------------------------------------------------

/// Intro handling: in focus mode the intro is skipped once the position is
/// within half a second of its start and before its end; otherwise it is
/// announced once, when the position reaches it.
///
/// Gives the new (skipped, announced) flags and the effects.
pub open spec fn intro_step(s: PlayerState, t: SkipTimes, pos: u64) -> (bool, bool, Seq<Effect>) {
    intro_decision(s.aniskip_on, s.focus_mode, s.op_seek_done, s.op_prompted, t, pos)
}

pub open spec fn intro_decision(
    aniskip_on: bool,
    focus_mode: bool,
    op_seek_done: bool,
    op_prompted: bool,
    t: SkipTimes,
    pos: u64,
) -> (bool, bool, Seq<Effect>) {
    if aniskip_on && t.op_start is Some && t.op_end is Some {
        let st = t.op_start->0;
        let end = t.op_end->0;
        if focus_mode && !op_seek_done && pos + 500 >= st && pos < end {
            (true, true, seq![Effect::Seek(end), Effect::Show(Announce::IntroSkipped)])
        } else if !op_prompted && in_prompt_window(pos, st) {
            (op_seek_done, true, seq![Effect::Show(Announce::IntroStarted)])
        } else {
            (op_seek_done, op_prompted, Seq::empty())
        }
    } else {
        (op_seek_done, op_prompted, Seq::empty())
    }
}

/// Outro handling: in focus mode, from half a second before the outro on,
/// the next episode is started once when automatic continuation is on,
/// else the outro is skipped; otherwise it is announced once.
///
/// Gives the new (skipped, announced, next started) flags and the effects.
pub open spec fn outro_step(s: PlayerState, t: SkipTimes, pos: u64) -> (bool, bool, bool, Seq<Effect>) {
    outro_decision(
        s.aniskip_on,
        s.focus_mode,
        s.auto_next_episode,
        s.has_next,
        s.can_play_next,
        s.ed_seek_done,
        s.ed_prompted,
        s.next_triggered,
        t,
        pos,
    )
}

pub open spec fn outro_decision(
    aniskip_on: bool,
    focus_mode: bool,
    auto_next_episode: bool,
    has_next: bool,
    can_play_next: bool,
    ed_seek_done: bool,
    ed_prompted: bool,
    next_triggered: bool,
    t: SkipTimes,
    pos: u64,
) -> (bool, bool, bool, Seq<Effect>) {
    if aniskip_on && t.ed_start is Some && t.ed_end is Some {
        let st = t.ed_start->0;
        let end = t.ed_end->0;
        if focus_mode && !ed_seek_done && pos + 500 >= st {
            if auto_next_episode && has_next && !next_triggered {
                (
                    true,
                    true,
                    true,
                    if can_play_next {
                        seq![Effect::Show(Announce::NextEpisodeFocus), Effect::PlayNext]
                    } else {
                        Seq::empty()
                    },
                )
            } else {
                (
                    true,
                    true,
                    next_triggered,
                    seq![Effect::Seek(end), Effect::Show(Announce::OutroSkipped)],
                )
            }
        } else if !ed_prompted && in_prompt_window(pos, st) {
            (ed_seek_done, true, next_triggered, seq![Effect::Show(Announce::OutroStarted)])
        } else {
            (ed_seek_done, ed_prompted, next_triggered, Seq::empty())
        }
    } else {
        (ed_seek_done, ed_prompted, next_triggered, Seq::empty())
    }
}

/// The tick only ever raises the intro and outro flags, and once the intro
/// was skipped it is not skipped again; once the next episode was started,
/// it is not started again.
pub proof fn lemma_flags_only_rise(s: PlayerState, t: SkipTimes, pos: u64)
    ensures
        ({
            let (done, prompted, e) = intro_step(s, t, pos);
            &&& (s.op_seek_done ==> done) && (s.op_prompted ==> prompted)
            &&& s.op_seek_done ==> !e.contains(Effect::Show(Announce::IntroSkipped))
            &&& (s.op_seek_done && s.op_prompted) ==> e.len() == 0
        }),
        ({
            let (done, prompted, next, e) = outro_step(s, t, pos);
            &&& (s.ed_seek_done ==> done) && (s.ed_prompted ==> prompted) && (s.next_triggered
                ==> next)
            &&& s.next_triggered ==> !e.contains(Effect::PlayNext)
            &&& (s.ed_seek_done && s.ed_prompted) ==> e.len() == 0
        }),
{
    let (d, p, e) = intro_step(s, t, pos);
    if s.op_seek_done {
        assert forall|k: int| 0 <= k < e.len() implies e[k] != Effect::Show(Announce::IntroSkipped) by {}
    }
    let (d2, p2, n2, e2) = outro_step(s, t, pos);
    if s.next_triggered {
        assert forall|k: int| 0 <= k < e2.len() implies e2[k] != Effect::PlayNext by {}
    }
}

/// The source ended long before its end, early in its life, and another
/// source is left.
pub open spec fn broken_end(s: PlayerState, r: Reading) -> bool {
    broken_at(s.index, s.sources@.len(), r)
}

pub open spec fn broken_at(index: usize, count: nat, r: Reading) -> bool {
    r.dur_ms > 0 && r.pos_ms * 10 < r.dur_ms * 9 && r.loaded_for_secs < 60 && index + 1 < count
}

/// Why a source that never loaded is given up, if it is.
pub open spec fn dead_source(s: PlayerState, r: Reading, loaded: bool) -> Option<Switch> {
    dead_decision(s.resolving, s.patience_secs, r, loaded)
}

pub open spec fn dead_decision(resolving: bool, patience_secs: u64, r: Reading, loaded: bool) -> Option<Switch> {
    if resolving || loaded {
        None
    } else if r.idle {
        if r.loaded_for_secs >= 25 {
            Some(Switch::NotOpened)
        } else {
            None
        }
    } else if r.core_idle && r.loaded_for_secs >= patience_secs {
        Some(Switch::NotPlaying)
    } else {
        None
    }
}

impl PlayerState {
    /// Decides one tick from a reading of the player.
    ///
    /// In order: the media coming in starts playback; intro and outro are
    /// announced, skipped or lead to the next episode (with AniSkip on); at
    /// the end of the file a broken source is left for the next one, or the
    /// episode is marked watched and, with automatic continuation or focus
    /// mode, the next one is started; a source that never loads is left
    /// after 25 seconds idle, or after the patience when the core idles; the
    /// skip button follows `skip_target`; from the first second on the
    /// position is stored, reported every minute from ten seconds on, and
    /// once the episode is watched enough it is marked and its host
    /// remembered.
    #[verifier::rlimit(40)]
    pub fn tick(&mut self, r: Reading) -> (out: TickOut)
        ensures
            final(self).sources == old(self).sources,
            final(self).index == old(self).index,
            final(self).resolving == old(self).resolving,
            final(self).aniskip_on == old(self).aniskip_on,
            final(self).focus_mode == old(self).focus_mode,
            final(self).auto_next_episode == old(self).auto_next_episode,
            final(self).has_next == old(self).has_next,
            final(self).can_play_next == old(self).can_play_next,
            final(self).patience_secs == old(self).patience_secs,
            final(self).prog_key == old(self).prog_key,
            ({
                let s0 = *old(self);
                let loaded = s0.media_loaded || r.dur_ms > 0;
                let (op_done, op_pr, e1) = intro_step(s0, r.skip, r.pos_ms);
                let (ed_done, ed_pr, trig, e2) = outro_step(s0, r.skip, r.pos_ms);
                let mark_at_end = r.eof && !broken_end(s0, r) && !s0.watched_marked && r.dur_ms > 0;
                let next_at_end = r.eof && !broken_end(s0, r) && (s0.auto_next_episode
                    || s0.focus_mode) && s0.has_next && !trig;
                let e3: Seq<Effect> = if next_at_end && s0.can_play_next {
                    seq![Effect::Show(Announce::NextEpisode), Effect::PlayNext]
                } else {
                    Seq::empty()
                };
                let dead = if r.eof {
                    None
                } else {
                    dead_source(s0, r, loaded)
                };
                let goes_on = !r.eof && dead is None;
                let progress = goes_on && r.pos_ms >= 1000;
                let watched_now = progress && r.played_enough && !s0.watched_marked;
                &&& out.start_playback == (!s0.media_loaded && r.dur_ms > 0)
                &&& final(self).media_loaded == loaded
                &&& final(self).op_seek_done == op_done
                &&& final(self).op_prompted == op_pr
                &&& final(self).ed_seek_done == ed_done
                &&& final(self).ed_prompted == ed_pr
                &&& final(self).next_triggered == (trig || next_at_end)
                &&& out.effects@ == e1 + e2 + e3
                &&& out.switch_source == if r.eof && broken_end(s0, r) {
                    Some(Switch::Broken)
                } else {
                    dead
                }
                &&& out.ended == (r.eof && !broken_end(s0, r))
                &&& out.mark_watched == (mark_at_end || watched_now)
                &&& final(self).watched_marked == (s0.watched_marked || mark_at_end || watched_now)
                &&& out.skip_button == if goes_on && s0.aniskip_on {
                    match skip_target_spec(r.skip, r.pos_ms, op_done, ed_done) {
                        Some((_, intro)) => Some(intro),
                        None => None,
                    }
                } else {
                    None::<bool>
                }
                &&& out.save_progress == progress
                &&& out.report_position == (progress && r.pos_ms >= 10000 && r.since_report_secs
                    >= 60)
                &&& out.save_host == (progress && r.played_enough && !s0.host_saved)
                &&& final(self).host_saved == (s0.host_saved || out.save_host)
            }),
    {
        let start_playback = r.dur_ms > 0 && !self.media_loaded;
        if start_playback {
            self.media_loaded = true;
        }
        let mut effects = self.intro_phase(r.skip, r.pos_ms);
        let mut e2 = self.outro_phase(r.skip, r.pos_ms);
        let mut out = if r.eof {
            self.end_phase(r)
        } else {
            self.watch_phase(r)
        };
        effects.append(&mut e2);
        effects.append(&mut out.effects);
        out.effects = effects;
        out.start_playback = start_playback;
        out
    }

    fn intro_phase(&mut self, t: SkipTimes, pos: u64) -> (e: Vec<Effect>)
        ensures
            same_config(*final(self), *old(self)),
            final(self).media_loaded == old(self).media_loaded,
            final(self).ed_prompted == old(self).ed_prompted,
            final(self).ed_seek_done == old(self).ed_seek_done,
            final(self).next_triggered == old(self).next_triggered,
            final(self).watched_marked == old(self).watched_marked,
            final(self).host_saved == old(self).host_saved,
            (final(self).op_seek_done, final(self).op_prompted, e@) == intro_decision(
                old(self).aniskip_on,
                old(self).focus_mode,
                old(self).op_seek_done,
                old(self).op_prompted,
                t,
                pos,
            ),
    {
        let mut e: Vec<Effect> = Vec::new();
        if self.aniskip_on {
            if let (Some(st), Some(end)) = (t.op_start, t.op_end) {
                if self.focus_mode && !self.op_seek_done && (st <= 500 || pos >= st - 500) && pos
                    < end {
                    self.op_seek_done = true;
                    self.op_prompted = true;
                    e.push(Effect::Seek(end));
                    e.push(Effect::Show(Announce::IntroSkipped));
                } else if !self.op_prompted && prompt_due(pos, st) {
                    self.op_prompted = true;
                    e.push(Effect::Show(Announce::IntroStarted));
                }
            }
        }
        assert(e@ =~= intro_step(*old(self), t, pos).2);
        e
    }

    fn outro_phase(&mut self, t: SkipTimes, pos: u64) -> (e: Vec<Effect>)
        ensures
            same_config(*final(self), *old(self)),
            final(self).media_loaded == old(self).media_loaded,
            final(self).op_prompted == old(self).op_prompted,
            final(self).op_seek_done == old(self).op_seek_done,
            final(self).watched_marked == old(self).watched_marked,
            final(self).host_saved == old(self).host_saved,
            (final(self).ed_seek_done, final(self).ed_prompted, final(self).next_triggered, e@)
                == outro_decision(
                old(self).aniskip_on,
                old(self).focus_mode,
                old(self).auto_next_episode,
                old(self).has_next,
                old(self).can_play_next,
                old(self).ed_seek_done,
                old(self).ed_prompted,
                old(self).next_triggered,
                t,
                pos,
            ),
    {
        let mut e: Vec<Effect> = Vec::new();
        if self.aniskip_on {
            if let (Some(st), Some(end)) = (t.ed_start, t.ed_end) {
                if self.focus_mode && !self.ed_seek_done && (st <= 500 || pos >= st - 500) {
                    self.ed_seek_done = true;
                    self.ed_prompted = true;
                    if self.auto_next_episode && self.has_next && !self.next_triggered {
                        self.next_triggered = true;
                        if self.can_play_next {
                            e.push(Effect::Show(Announce::NextEpisodeFocus));
                            e.push(Effect::PlayNext);
                        }
                    } else {
                        e.push(Effect::Seek(end));
                        e.push(Effect::Show(Announce::OutroSkipped));
                    }
                } else if !self.ed_prompted && prompt_due(pos, st) {
                    self.ed_prompted = true;
                    e.push(Effect::Show(Announce::OutroStarted));
                }
            }
        }
        assert(e@ =~= outro_step(*old(self), t, pos).3);
        e
    }

    /// The end of the file was reached.
    fn end_phase(&mut self, r: Reading) -> (out: TickOut)
        ensures
            same_config(*final(self), *old(self)),
            final(self).media_loaded == old(self).media_loaded,
            final(self).op_prompted == old(self).op_prompted,
            final(self).op_seek_done == old(self).op_seek_done,
            final(self).ed_prompted == old(self).ed_prompted,
            final(self).ed_seek_done == old(self).ed_seek_done,
            final(self).host_saved == old(self).host_saved,
            !out.start_playback,
            !out.save_progress && !out.report_position && !out.save_host,
            out.skip_button is None,
            broken_at(old(self).index, old(self).sources@.len(), r) ==> {
                &&& out.switch_source == Some(Switch::Broken)
                &&& !out.ended && !out.mark_watched
                &&& out.effects@.len() == 0
                &&& final(self).watched_marked == old(self).watched_marked
                &&& final(self).next_triggered == old(self).next_triggered
            },
            !broken_at(old(self).index, old(self).sources@.len(), r) ==> {
                let mark = !old(self).watched_marked && r.dur_ms > 0;
                let next = (old(self).auto_next_episode || old(self).focus_mode)
                    && old(self).has_next && !old(self).next_triggered;
                &&& out.switch_source is None
                &&& out.ended
                &&& out.mark_watched == mark
                &&& final(self).watched_marked == (old(self).watched_marked || mark)
                &&& final(self).next_triggered == (old(self).next_triggered || next)
                &&& out.effects@ == if next && old(self).can_play_next {
                    seq![Effect::Show(Announce::NextEpisode), Effect::PlayNext]
                } else {
                    Seq::empty()
                }
            },
    {
        let mut out = empty_out();
        let pos = r.pos_ms;
        let early = r.dur_ms > 0 && (pos as u128) * 10 < (r.dur_ms as u128) * 9
            && r.loaded_for_secs < 60;
        assert(early == (r.dur_ms > 0 && r.pos_ms * 10 < r.dur_ms * 9 && r.loaded_for_secs < 60));
        let n = self.sources.len();
        if early && self.index < n && n - self.index > 1 {
            out.switch_source = Some(Switch::Broken);
            return out;
        }

        if !self.watched_marked && r.dur_ms > 0 {
            self.watched_marked = true;
            out.mark_watched = true;
        }
        if (self.auto_next_episode || self.focus_mode) && self.has_next && !self.next_triggered {
            self.next_triggered = true;
            if self.can_play_next {
                out.effects.push(Effect::Show(Announce::NextEpisode));
                out.effects.push(Effect::PlayNext);
            }
        }
        out.ended = true;
        assert(out.effects@ =~= if (old(self).auto_next_episode || old(self).focus_mode)
            && old(self).has_next && !old(self).next_triggered && old(self).can_play_next {
            seq![Effect::Show(Announce::NextEpisode), Effect::PlayNext]
        } else {
            Seq::empty()
        });
        out
    }

    /// Playback goes on: dead sources, the skip button and the progress.
    #[verifier::rlimit(40)]
    fn watch_phase(&mut self, r: Reading) -> (out: TickOut)
        ensures
            same_config(*final(self), *old(self)),
            final(self).media_loaded == old(self).media_loaded,
            final(self).op_prompted == old(self).op_prompted,
            final(self).op_seek_done == old(self).op_seek_done,
            final(self).ed_prompted == old(self).ed_prompted,
            final(self).ed_seek_done == old(self).ed_seek_done,
            final(self).next_triggered == old(self).next_triggered,
            !out.start_playback,
            !out.ended,
            out.effects@.len() == 0,
            ({
                let dead = dead_decision(
                    old(self).resolving,
                    old(self).patience_secs,
                    r,
                    old(self).media_loaded,
                );
                let progress = dead is None && r.pos_ms >= 1000;
                let watched_now = progress && r.played_enough && !old(self).watched_marked;
                &&& out.switch_source == dead
                &&& out.skip_button == if dead is None && old(self).aniskip_on {
                    match skip_target_spec(
                        r.skip,
                        r.pos_ms,
                        old(self).op_seek_done,
                        old(self).ed_seek_done,
                    ) {
                        Some((_, intro)) => Some(intro),
                        None => None,
                    }
                } else {
                    None::<bool>
                }
                &&& out.save_progress == progress
                &&& out.report_position == (progress && r.pos_ms >= 10000 && r.since_report_secs
                    >= 60)
                &&& out.mark_watched == watched_now
                &&& final(self).watched_marked == (old(self).watched_marked || watched_now)
                &&& out.save_host == (progress && r.played_enough && !old(self).host_saved)
                &&& final(self).host_saved == (old(self).host_saved || out.save_host)
            }),
    {
        let mut out = empty_out();
        let pos = r.pos_ms;
        if self.resolving {
        } else if !self.media_loaded && r.idle {
            if r.loaded_for_secs >= 25 {
                out.switch_source = Some(Switch::NotOpened);
                return out;
            }
        } else if !self.media_loaded {
            if r.core_idle && r.loaded_for_secs >= self.patience_secs {
                out.switch_source = Some(Switch::NotPlaying);
                return out;
            }
        }
        if self.aniskip_on {
            out.skip_button = match skip_target(&r.skip, pos, self.op_seek_done, self.ed_seek_done) {
                Some((_, intro)) => Some(intro),
                None => None,
            };
        }
        if pos >= 1000 {
            out.save_progress = true;
            if pos >= 10000 && r.since_report_secs >= 60 {
                out.report_position = true;
            }
            if r.played_enough {
                if !self.watched_marked {
                    self.watched_marked = true;
                    out.mark_watched = true;
                }
                if !self.host_saved {
                    self.host_saved = true;
                    out.save_host = true;
                }
            }
        }
        out
    }
}

/// The fixed part of the state: sources, position in them, loading and the
/// settings.
pub open spec fn same_config(a: PlayerState, b: PlayerState) -> bool {
    &&& a.sources == b.sources
    &&& a.index == b.index
    &&& a.resolving == b.resolving
    &&& a.aniskip_on == b.aniskip_on
    &&& a.focus_mode == b.focus_mode
    &&& a.auto_next_episode == b.auto_next_episode
    &&& a.has_next == b.has_next
    &&& a.can_play_next == b.can_play_next
    &&& a.patience_secs == b.patience_secs
    &&& a.prog_key == b.prog_key
    &&& a.alive == b.alive
}

fn empty_out() -> (o: TickOut)
    ensures
        !o.start_playback,
        o.effects@.len() == 0,
        o.switch_source is None,
        !o.ended,
        !o.mark_watched,
        o.skip_button is None,
        !o.save_progress,
        !o.report_position,
        !o.save_host,
{
    TickOut {
        start_playback: false,
        effects: Vec::new(),
        switch_source: None,
        ended: false,
        mark_watched: false,
        skip_button: None,
        save_progress: false,
        report_position: false,
        save_host: false,
    }
}


// ---------------------------------------------------------------------------
// Opening and closing
// ---------------------------------------------------------------------------

/// The sources of an episode, in the order they are tried: the resolved
/// media addresses, then the fallback embeds.
pub open spec fn sources_spec(candidates: Seq<String>, fallbacks: Seq<String>) -> Seq<Source> {
    candidates.map_values(|c: String| Source::Direct(c)) + fallbacks.map_values(
        |e: String| Source::Embed(e),
    )
}

/// The sources a player opens with; no player is built when there is
/// nothing to play.
pub fn player_sources(candidates: Vec<String>, fallbacks: Vec<String>) -> (r: Option<Vec<Source>>)
    ensures
        match r {
            Some(v) => {
                &&& v@ == sources_spec(candidates@, fallbacks@)
                &&& v@.len() > 0
                &&& v@.len() == candidates@.len() + fallbacks@.len()
                &&& forall|i: int|
                    0 <= i < candidates@.len() ==> #[trigger] v@[i] == Source::Direct(candidates@[i])
                &&& forall|j: int|
                    0 <= j < fallbacks@.len() ==> v@[candidates@.len() + j] == Source::Embed(
                        #[trigger] fallbacks@[j],
                    )
            },
            None => candidates@.len() == 0 && fallbacks@.len() == 0,
        },
{
    if candidates.len() == 0 && fallbacks.len() == 0 {
        return None;
    }
    let ghost cs = candidates@;
    let ghost fs = fallbacks@;
    let mut out: Vec<Source> = Vec::new();
    let mut rest = candidates;
    let ghost mut done: int = 0;
    assert(cs.skip(0) =~= cs);
    while rest.len() > 0
        invariant
            0 <= done <= cs.len(),
            rest@ == cs.skip(done),
            out@ == cs.take(done).map_values(|c: String| Source::Direct(c)),
        decreases rest@.len(),
    {
        let c = rest.remove(0);
        assert(c == cs[done]);
        out.push(Source::Direct(c));
        proof {
            done = done + 1;
        }
        assert(cs.skip(done - 1).drop_first() =~= cs.skip(done));
        assert(out@ =~= cs.take(done).map_values(|c: String| Source::Direct(c)));
    }
    assert(cs.take(done) =~= cs);
    let ghost head = out@;
    let mut rest = fallbacks;
    let ghost mut k: int = 0;
    assert(fs.skip(0) =~= fs);
    while rest.len() > 0
        invariant
            0 <= k <= fs.len(),
            rest@ == fs.skip(k),
            out@ == head + fs.take(k).map_values(|e: String| Source::Embed(e)),
        decreases rest@.len(),
    {
        let e = rest.remove(0);
        assert(e == fs[k]);
        out.push(Source::Embed(e));
        proof {
            k = k + 1;
        }
        assert(fs.skip(k - 1).drop_first() =~= fs.skip(k));
        assert(out@ =~= head + fs.take(k).map_values(|e: String| Source::Embed(e)));
    }
    assert(fs.take(k) =~= fs);
    proof {
        lemma_sources_in_order(cs, fs);
    }
    Some(out)
}

/// Every resolved media address is tried, in the order given, before any
/// fallback embed: the list holds one `Direct` entry per candidate, at the
/// candidate's own position, followed by one `Embed` entry per fallback, in
/// order, and nothing else.
pub proof fn lemma_sources_in_order(candidates: Seq<String>, fallbacks: Seq<String>)
    ensures
        sources_spec(candidates, fallbacks).len() == candidates.len() + fallbacks.len(),
        forall|i: int|
            0 <= i < candidates.len() ==> #[trigger] sources_spec(candidates, fallbacks)[i]
                == Source::Direct(candidates[i]),
        forall|j: int|
            0 <= j < fallbacks.len() ==> sources_spec(candidates, fallbacks)[candidates.len() + j]
                == Source::Embed(#[trigger] fallbacks[j]),
{
    let s = sources_spec(candidates, fallbacks);
    let d = candidates.map_values(|c: String| Source::Direct(c));
    let e = fallbacks.map_values(|x: String| Source::Embed(x));
    assert(s == d + e);
    assert forall|i: int| 0 <= i < candidates.len() implies #[trigger] s[i] == Source::Direct(
        candidates[i],
    ) by {
        assert(s[i] == d[i]);
    }
    assert forall|j: int| 0 <= j < fallbacks.len() implies s[candidates.len() + j] == Source::Embed(
        #[trigger] fallbacks[j],
    ) by {
        assert(s[candidates.len() + j] == e[j]);
    }
}

/// What closing the player does, once.
#[derive(Clone, Copy, Debug, PartialEq, Eq, Structural)]
pub struct CloseOut {
    /// Pause and stop the player, and leave the cinema mode.
    pub stop: bool,
    /// Store the position (from one second on).
    pub save_progress: bool,
    /// Report the position to the server (from ten seconds on).
    pub report_position: bool,
}

impl PlayerState {
    /// The player is left at position `pos_ms`: the first call stops it,
    /// saves the position from one second on and reports it from ten
    /// seconds on; later calls do nothing.
    pub fn close(&mut self, pos_ms: u64) -> (o: CloseOut)
        ensures
            !final(self).alive,
            final(self).sources == old(self).sources,
            final(self).index == old(self).index,
            final(self).media_loaded == old(self).media_loaded,
            final(self).resolving == old(self).resolving,
            final(self).op_prompted == old(self).op_prompted,
            final(self).ed_prompted == old(self).ed_prompted,
            final(self).op_seek_done == old(self).op_seek_done,
            final(self).ed_seek_done == old(self).ed_seek_done,
            final(self).next_triggered == old(self).next_triggered,
            final(self).watched_marked == old(self).watched_marked,
            final(self).host_saved == old(self).host_saved,
            final(self).aniskip_on == old(self).aniskip_on,
            final(self).focus_mode == old(self).focus_mode,
            final(self).auto_next_episode == old(self).auto_next_episode,
            final(self).has_next == old(self).has_next,
            final(self).can_play_next == old(self).can_play_next,
            final(self).patience_secs == old(self).patience_secs,
            final(self).prog_key == old(self).prog_key,
            o.stop == old(self).alive,
            o.save_progress == (old(self).alive && pos_ms >= 1000),
            o.report_position == (old(self).alive && pos_ms >= 10000),
    {
        let was = self.alive;
        self.alive = false;
        CloseOut {
            stop: was,
            save_progress: was && pos_ms >= 1000,
            report_position: was && pos_ms >= 10000,
        }
    }
}

} // verus!
