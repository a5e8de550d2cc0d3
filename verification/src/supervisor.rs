//! Playing an episode in the external mpv player: the sources are tried one
//! after the other until one plays.
//!
//! The supervisor decides; the caller runs the player, polls it every
//! quarter second and reports back. Sources are the resolved media
//! addresses first, then the fallback embeds, which are resolved just
//! before their turn.

use vstd::prelude::*;
use crate::playback::{decide_retry, socket_timeout_hit, source_is_dead, tenths_text, SOCKET_TIMEOUT_SECS};
use crate::media::{http_header_fields_spec, sibnet_referer, sibnet_referer_spec, http_header_fields};
use crate::mpv::{clock, clock_text};
use crate::text::{decimal, decimal2, owned, push_decimal, push_decimal2};

verus! {

/// Where the supervisor stands.
#[derive(Clone, Copy, Debug, PartialEq, Eq, Structural)]
pub enum SupStage {
    /// Waiting for a fallback embed to be resolved.
    Resolving,
    /// Waiting for the player to be started.
    Starting,
    /// The player runs and is being polled.
    Watching,
    /// Finished: a source played, or none could.
    Over,
}

/// What the caller does next.
pub enum SupNext {
    /// Resolve this fallback embed and report with `resolved`.
    Resolve(String),
    /// Start the player on this address and report with `started` or
    /// `start_failed`.
    Spawn(String),
    /// Poll the player again in a quarter second.
    Poll,
    /// Nothing more: remove the control socket.
    Finished,
}

/// Everything one report leads to, in this order: the opening notice is
/// dismissed, the player is stopped or waited for, the host is remembered,
/// the notices are shown, then `next`.
pub struct SupOut {
    pub dismiss_opening: bool,
    /// Kill the running player and reap it.
    pub kill: bool,
    /// The player plays: wait for it to exit.
    pub wait_player: bool,
    /// The embed whose host becomes the title's preferred one.
    pub remember_host_of: Option<String>,
    pub notices: Vec<String>,
    pub next: SupNext,
}

/// One poll of the running player. `core_idle` and `has_duration` are read
/// from the player's control socket and only matter once it appeared.
#[derive(Clone, Copy, Debug, PartialEq, Eq, Structural)]
pub struct Poll {
    pub exited: bool,
    pub success: bool,
    pub socket_exists: bool,
    pub core_idle: bool,
    pub has_duration: bool,
    pub elapsed_secs: u64,
}

/// The supervisor of one episode's playback.
pub struct Supervisor {
    pub candidates: Vec<String>,
    pub fast_embeds: Vec<String>,
    pub fallback_embeds: Vec<String>,
    pub patience_secs: u64,
    pub index: usize,
    pub playing: bool,
    pub media_loaded: bool,
    pub stage: SupStage,
}

pub open spec fn total(s: Supervisor) -> int {
    (s.candidates@.len() + s.fallback_embeds@.len()) as int
}

/// The step that starts source `i`: past the last one there is nothing
/// left; a resolved address is started; a fallback is resolved first.
pub open spec fn launch_next(s: Supervisor, i: int) -> (SupStage, Option<Seq<char>>, bool) {
    if i >= total(s) {
        (SupStage::Over, None, false)
    } else if i < s.candidates@.len() {
        (SupStage::Starting, Some(s.candidates@[i]@), true)
    } else {
        (SupStage::Resolving, Some(s.fallback_embeds@[i - s.candidates@.len()]@), false)
    }
}

/// `out.next` and the stage agree with starting source `i`.
pub open spec fn launches(s: Supervisor, i: int, next: SupNext, stage: SupStage) -> bool {
    let (st, target, spawn) = launch_next(s, i);
    &&& stage == st
    &&& match next {
        SupNext::Finished => target is None,
        SupNext::Spawn(u) => spawn && target == Some(u@),
        SupNext::Resolve(e) => !spawn && target == Some(e@),
        SupNext::Poll => false,
    }
}

/// The embed the host hint of source `i` comes from: the fast embed at
/// the same place, or the fallback embed it was resolved from.
pub open spec fn host_source(s: Supervisor, i: int) -> Option<Seq<char>> {
    if i < s.fast_embeds@.len() {
        Some(s.fast_embeds@[i]@)
    } else if i >= s.candidates@.len() && i - s.candidates@.len() < s.fallback_embeds@.len() {
        Some(s.fallback_embeds@[i - s.candidates@.len()]@)
    } else {
        None
    }
}

pub open spec fn same_inputs(a: Supervisor, b: Supervisor) -> bool {
    &&& a.candidates == b.candidates
    &&& a.fast_embeds == b.fast_embeds
    &&& a.fallback_embeds == b.fallback_embeds
    &&& a.patience_secs == b.patience_secs
}

/// The outcome carries no effect besides `next`.
pub open spec fn quiet(o: SupOut) -> bool {
    !o.dismiss_opening && !o.kill && !o.wait_player && o.remember_host_of is None
        && o.notices@.len() == 0
}

pub open spec fn text_views(v: Seq<String>) -> Seq<Seq<char>> {
    v.map_values(|s: String| s@)
}

fn quiet_out(next: SupNext) -> (o: SupOut)
    ensures
        quiet(o),
        o.next == next,
{
    SupOut {
        dismiss_opening: false,
        kill: false,
        wait_player: false,
        remember_host_of: None,
        notices: Vec::new(),
        next,
    }
}

impl Supervisor {
    /// A supervisor about to try the first source.
    pub fn new(
        candidates: Vec<String>,
        fast_embeds: Vec<String>,
        fallback_embeds: Vec<String>,
        patience_secs: u64,
    ) -> (s: Supervisor)
        ensures
            s.candidates == candidates,
            s.fast_embeds == fast_embeds,
            s.fallback_embeds == fallback_embeds,
            s.patience_secs == patience_secs,
            s.index == 0,
            !s.playing,
            s.stage == SupStage::Over,
    {
        Supervisor {
            candidates,
            fast_embeds,
            fallback_embeds,
            patience_secs,
            index: 0,
            playing: false,
            media_loaded: false,
            stage: SupStage::Over,
        }
    }

    /// Moves to source `i` and says how to start it.
    fn launch(&mut self, i: usize) -> (o: SupOut)
        ensures
            same_inputs(*final(self), *old(self)),
            final(self).index == i,
            !final(self).playing,
            !final(self).media_loaded,
            quiet(o),
            launches(*old(self), i as int, o.next, final(self).stage),
    {
        self.index = i;
        self.playing = false;
        self.media_loaded = false;
        let c = self.candidates.len();
        if i < c {
            self.stage = SupStage::Starting;
            quiet_out(SupNext::Spawn(self.candidates[i].clone()))
        } else if i - c < self.fallback_embeds.len() {
            self.stage = SupStage::Resolving;
            quiet_out(SupNext::Resolve(self.fallback_embeds[i - c].clone()))
        } else {
            self.stage = SupStage::Over;
            quiet_out(SupNext::Finished)
        }
    }

    /// Starts with the first source.
    pub fn start(&mut self) -> (o: SupOut)
        ensures
            same_inputs(*final(self), *old(self)),
            final(self).index == 0,
            quiet(o),
            launches(*old(self), 0, o.next, final(self).stage),
    {
        self.launch(0)
    }

    /// A fallback embed was resolved: start the player on it, or, when it
    /// could not be resolved, go on to the next source without a notice.
    pub fn resolved(&mut self, res: Result<String, String>) -> (o: SupOut)
        requires
            old(self).stage == SupStage::Resolving,
            old(self).index < usize::MAX,
        ensures
            same_inputs(*final(self), *old(self)),
            quiet(o),
            match res {
                Ok(url) => final(self).index == old(self).index && final(self).stage
                    == SupStage::Starting && o.next == SupNext::Spawn(url),
                Err(_) => final(self).index == old(self).index + 1 && launches(
                    *old(self),
                    old(self).index + 1,
                    o.next,
                    final(self).stage,
                ),
            },
    {
        match res {
            Ok(url) => {
                self.stage = SupStage::Starting;
                quiet_out(SupNext::Spawn(url))
            },
            Err(_) => {
                let i = self.index + 1;
                self.launch(i)
            },
        }
    }

    /// The player could not be started: go on to the next source without a
    /// notice.
    pub fn start_failed(&mut self) -> (o: SupOut)
        requires
            old(self).stage == SupStage::Starting,
            old(self).index < usize::MAX,
        ensures
            same_inputs(*final(self), *old(self)),
            quiet(o),
            final(self).index == old(self).index + 1,
            launches(*old(self), old(self).index + 1, o.next, final(self).stage),
    {
        let i = self.index + 1;
        self.launch(i)
    }

    /// The player started: watch it.
    pub fn started(&mut self) -> (o: SupOut)
        requires
            old(self).stage == SupStage::Starting,
        ensures
            same_inputs(*final(self), *old(self)),
            final(self).index == old(self).index,
            final(self).stage == SupStage::Watching,
            !final(self).playing,
            !final(self).media_loaded,
            quiet(o),
            o.next == SupNext::Poll,
    {
        self.playing = false;
        self.media_loaded = false;
        self.stage = SupStage::Watching;
        quiet_out(SupNext::Poll)
    }

    /// Takes one poll of the running player.
    ///
    /// The socket appearing means playback started (the opening notice is
    /// dismissed the first time). A player that exits with an error while
    /// playing, a source that never loads within the patience, and a socket
    /// that never appears within 25 seconds end the source; so does any
    /// exit. A source that ends while playing ends the whole playback: its
    /// host is remembered and the player is waited for. Otherwise the
    /// player is killed and the next source is tried, with a notice, or,
    /// after the last one, the user is told that no source worked.
    pub fn poll(&mut self, p: Poll) -> (o: SupOut)
        requires
            old(self).stage == SupStage::Watching,
            old(self).index < usize::MAX,
        ensures
            same_inputs(*final(self), *old(self)),
            ({
                let playing0 = old(self).playing || (!p.exited && p.socket_exists);
                let loaded = old(self).media_loaded || (!p.exited && playing0 && p.has_duration);
                let dead = !p.exited && playing0 && source_dead(
                    p,
                    loaded,
                    old(self).patience_secs,
                );
                let retry = p.exited && old(self).playing && !p.success;
                let playing = playing0 && !dead && !retry;
                let ends = p.exited || dead || (!p.exited && !playing0 && p.elapsed_secs
                    >= SOCKET_TIMEOUT_SECS);
                &&& o.dismiss_opening == (!p.exited && p.socket_exists && !old(self).playing)
                &&& !ends ==> {
                    &&& o.next == SupNext::Poll
                    &&& final(self).index == old(self).index
                    &&& final(self).stage == SupStage::Watching
                    &&& final(self).playing == playing
                    &&& final(self).media_loaded == loaded
                    &&& !o.kill && !o.wait_player && o.remember_host_of is None
                    &&& text_views(o.notices@) == Seq::<Seq<char>>::empty()
                }
                &&& (ends && playing) ==> {
                    &&& o.next == SupNext::Finished
                    &&& final(self).stage == SupStage::Over
                    &&& final(self).index == old(self).index
                    &&& o.wait_player && !o.kill
                    &&& text_views(o.notices@) == Seq::<Seq<char>>::empty()
                    &&& match o.remember_host_of {
                        Some(e) => host_source(*old(self), old(self).index as int) == Some(e@),
                        None => host_source(*old(self), old(self).index as int) is None,
                    }
                }
                &&& (ends && !playing) ==> {
                    &&& o.kill && !o.wait_player && o.remember_host_of is None
                    &&& final(self).index == old(self).index + 1
                    &&& text_views(o.notices@) == (if dead {
                        seq!["Kaynak açıldı ama oynatamadı, diğer kaynağa geçiliyor…"@]
                    } else {
                        Seq::empty()
                    }) + if old(self).index + 1 < total(*old(self)) {
                        seq!["Kaynak açılamadı, diğer kaynağa geçiliyor…"@]
                    } else {
                        seq!["Bölüm hiçbir kaynakta açılamadı."@]
                    }
                    &&& if old(self).index + 1 < total(*old(self)) {
                        launches(*old(self), old(self).index + 1, o.next, final(self).stage)
                    } else {
                        o.next == SupNext::Finished && final(self).stage == SupStage::Over
                    }
                }
            }),
    {
        let mut notices: Vec<String> = Vec::new();
        let mut dismiss = false;
        let mut ends = false;
        if p.exited {
            let (retry, _) = decide_retry(true, p.success, self.playing);
            if retry {
                self.playing = false;
            }
            ends = true;
        } else {
            if p.socket_exists {
                if !self.playing {
                    dismiss = true;
                }
                self.playing = true;
            }
            if self.playing {
                if p.has_duration {
                    self.media_loaded = true;
                }
                if source_is_dead(
                    p.elapsed_secs,
                    p.core_idle,
                    !p.has_duration,
                    self.media_loaded,
                    self.patience_secs,
                ) {
                    notices.push(owned("Kaynak açıldı ama oynatamadı, diğer kaynağa geçiliyor…"));
                    self.playing = false;
                    ends = true;
                }
            }
            if !ends && socket_timeout_hit(p.elapsed_secs, self.playing) {
                ends = true;
            }
        }
        if !ends {
            return SupOut {
                dismiss_opening: dismiss,
                kill: false,
                wait_player: false,
                remember_host_of: None,
                notices,
                next: SupNext::Poll,
            };
        }
        let i = self.index;
        if self.playing {
            let c = self.candidates.len();
            let host = if i < self.fast_embeds.len() {
                Some(self.fast_embeds[i].clone())
            } else if i >= c && i - c < self.fallback_embeds.len() {
                Some(self.fallback_embeds[i - c].clone())
            } else {
                None
            };
            self.stage = SupStage::Over;
            return SupOut {
                dismiss_opening: dismiss,
                kill: false,
                wait_player: true,
                remember_host_of: host,
                notices,
                next: SupNext::Finished,
            };
        }
        let c = self.candidates.len();
        let more = i + 1 < c || i + 1 - c < self.fallback_embeds.len();
        let ghost before = notices@;
        if more {
            notices.push(owned("Kaynak açılamadı, diğer kaynağa geçiliyor…"));
        } else {
            notices.push(owned("Bölüm hiçbir kaynakta açılamadı."));
        }
        assert(text_views(notices@) =~= text_views(before).push(notices@.last()@));
        let launched = self.launch(i + 1);
        SupOut {
            dismiss_opening: dismiss,
            kill: true,
            wait_player: false,
            remember_host_of: None,
            notices,
            next: launched.next,
        }
    }
}

/// The sources in the order they are tried: the resolved addresses, then
/// the fallback embeds.
pub open spec fn source_order(s: Supervisor) -> Seq<Seq<char>> {
    text_views(s.candidates@) + text_views(s.fallback_embeds@)
}

/// Source `i` is the `i`-th of the resolved addresses followed by the
/// fallback embeds: the addresses are started as they are, the embeds are
/// resolved first, and past the last source nothing is left to try.
pub proof fn lemma_sources_in_order(s: Supervisor, i: int)
    requires
        0 <= i,
    ensures
        launch_next(s, i).1 == if i < source_order(s).len() {
            Some(source_order(s)[i])
        } else {
            None::<Seq<char>>
        },
        launch_next(s, i).2 == (i < s.candidates@.len()),
        (launch_next(s, i).0 == SupStage::Over) == (i >= source_order(s).len()),
{
    let c = text_views(s.candidates@);
    let f = text_views(s.fallback_embeds@);
    if i < c.len() {
        assert(source_order(s)[i] == c[i]);
    } else if i < c.len() + f.len() {
        assert(source_order(s)[i] == f[i - c.len()]);
    }
}

/// The dead-source rule of `source_is_dead` on a poll.
pub open spec fn source_dead(p: Poll, loaded: bool, patience: u64) -> bool {
    !loaded && p.core_idle && !p.has_duration && p.elapsed_secs >= patience
}


// ---------------------------------------------------------------------------
// Starting the external player
// ---------------------------------------------------------------------------

/// The title the player window shows: `name | SxxEyy`.
pub open spec fn media_title_spec(name: Seq<char>, season: u64, episode: u64) -> Seq<char> {
    name + " | S"@ + decimal2(season as nat) + seq!['E'] + decimal2(episode as nat)
}

pub fn media_title(name: &str, season: u64, episode: u64) -> (r: String)
    ensures
        r@ == media_title_spec(name@, season, episode),
{
    let mut s = owned(name);
    s.append(" | S");
    push_decimal2(&mut s, season);
    crate::text::push_char(&mut s, 'E');
    push_decimal2(&mut s, episode);
    s
}

/// The control socket of the player of one episode.
pub open spec fn socket_path_spec(title_id: u64, season: u64, episode: u64) -> Seq<char> {
    "/tmp/animecix-mpv-"@ + decimal(title_id as nat) + seq!['-'] + decimal(season as nat) + seq![
        '-',
    ] + decimal(episode as nat) + ".sock"@
}

pub fn socket_path(title_id: u64, season: u64, episode: u64) -> (r: String)
    ensures
        r@ == socket_path_spec(title_id, season, episode),
{
    let mut s = owned("/tmp/animecix-mpv-");
    push_decimal(&mut s, title_id);
    crate::text::push_char(&mut s, '-');
    push_decimal(&mut s, season);
    crate::text::push_char(&mut s, '-');
    push_decimal(&mut s, episode);
    s.append(".sock");
    s
}

/// The key bindings file of a title's player.
pub open spec fn input_conf_path_spec(title_id: u64) -> Seq<char> {
    "/tmp/animecix-input-"@ + decimal(title_id as nat) + ".conf"@
}

pub fn input_conf_path(title_id: u64) -> (r: String)
    ensures
        r@ == input_conf_path_spec(title_id),
{
    let mut s = owned("/tmp/animecix-input-");
    push_decimal(&mut s, title_id);
    s.append(".conf");
    s
}

/// The notice shown while the player opens, with the resume point.
pub open spec fn opening_notice_spec(title: Seq<char>, resume_secs: Option<u64>) -> Seq<char> {
    "▶ "@ + title + " açılıyor…"@ + match resume_secs {
        Some(p) => " ("@ + clock_text(p as nat) + "'den)"@,
        None => Seq::empty(),
    }
}

pub fn opening_notice(title: &str, resume_secs: Option<u64>) -> (r: String)
    ensures
        r@ == opening_notice_spec(title@, resume_secs),
{
    let mut s = owned("▶ ");
    s.append(title);
    s.append(" açılıyor…");
    if let Some(p) = resume_secs {
        s.append(" (");
        let c = clock(p);
        s.append(c.as_str());
        s.append("'den)");
    }
    assert(s@ =~= opening_notice_spec(title@, resume_secs)) by {
        reveal_strlit("");
    }
    s
}

/// Where the local proxy listens when it runs.
pub open spec fn proxy_spec() -> Seq<char> {
    "http://127.0.0.1:10808"@
}

/// The command line of the external player for one source.
pub open spec fn mpv_args_spec(
    title: Seq<char>,
    socket: Seq<char>,
    fullscreen: bool,
    input_conf: Seq<char>,
    start_ms: Option<u64>,
    upscale: Seq<Seq<char>>,
    url: Seq<char>,
    use_proxy: bool,
) -> Seq<Seq<char>> {
    let head = seq![
        "--user-agent=Mozilla/5.0 (X11; Linux x86_64) AppleWebKit/537.36 (KHTML, like Gecko) Chrome/120.0.0.0 Safari/537.36"@,
        "--force-media-title="@ + title,
        "--keep-open=yes"@,
        "--input-ipc-server="@ + socket,
    ];
    let fs = if fullscreen {
        seq!["--fullscreen"@]
    } else {
        Seq::empty()
    };
    let start = match start_ms {
        Some(ms) => seq!["--start="@ + tenths_text(ms)],
        None => Seq::empty(),
    };
    let cache = seq![
        "--cache=yes"@,
        "--demuxer-max-bytes=128MiB"@,
        "--demuxer-max-back-bytes=32MiB"@,
        "--demuxer-readahead-secs=120"@,
        "--cache-pause=yes"@,
        "--cache-pause-wait=3"@,
        "--cache-secs=120"@,
        "--stream-lavf-o=reconnect=1,reconnect_streamed=1,reconnect_delay_max=5"@,
        "--network-timeout=10"@,
        "--hwdec=auto-safe"@,
        "--ytdl-format=bestvideo[height<=1080]+bestaudio/best"@,
    ];
    let referer = match sibnet_referer_spec(url) {
        Some(r) => seq!["--http-header-fields="@ + http_header_fields_spec(r)],
        None => Seq::empty(),
    };
    let proxy = if use_proxy {
        seq!["--http-proxy="@ + proxy_spec()]
    } else {
        Seq::empty()
    };
    head + fs + seq!["--input-conf="@ + input_conf] + start + cache + upscale + seq![url] + referer
        + proxy
}

fn push_text(v: &mut Vec<String>, s: String)
    ensures
        text_views(final(v)@) == text_views(old(v)@).push(s@),
{
    let ghost before = v@;
    v.push(s);
    assert(text_views(v@) =~= text_views(before).push(s@));
}

fn prefixed(prefix: &str, rest: &str) -> (r: String)
    ensures
        r@ == prefix@ + rest@,
{
    let mut s = owned(prefix);
    s.append(rest);
    s
}

/// Builds the command line of the external player. `start_ms` is where to
/// resume; `upscale` are the upscaling arguments of the chosen preset.
pub fn mpv_args(
    title: &str,
    socket: &str,
    fullscreen: bool,
    input_conf: &str,
    start_ms: Option<u64>,
    upscale: &Vec<String>,
    url: &str,
    use_proxy: bool,
) -> (r: Vec<String>)
    ensures
        text_views(r@) == mpv_args_spec(
            title@,
            socket@,
            fullscreen,
            input_conf@,
            start_ms,
            text_views(upscale@),
            url@,
            use_proxy,
        ),
{
    let ghost head = seq![
        "--user-agent=Mozilla/5.0 (X11; Linux x86_64) AppleWebKit/537.36 (KHTML, like Gecko) Chrome/120.0.0.0 Safari/537.36"@,
        "--force-media-title="@ + title@,
        "--keep-open=yes"@,
        "--input-ipc-server="@ + socket@,
    ];
    let mut v: Vec<String> = Vec::new();
    assert(text_views(v@) =~= Seq::<Seq<char>>::empty());
    push_text(
        &mut v,
        owned(
            "--user-agent=Mozilla/5.0 (X11; Linux x86_64) AppleWebKit/537.36 (KHTML, like Gecko) Chrome/120.0.0.0 Safari/537.36",
        ),
    );
    push_text(&mut v, prefixed("--force-media-title=", title));
    push_text(&mut v, owned("--keep-open=yes"));
    push_text(&mut v, prefixed("--input-ipc-server=", socket));
    assert(text_views(v@) =~= head);
    let ghost fs: Seq<Seq<char>> = if fullscreen {
        seq!["--fullscreen"@]
    } else {
        Seq::empty()
    };
    if fullscreen {
        push_text(&mut v, owned("--fullscreen"));
    }
    assert(text_views(v@) =~= head + fs);
    push_text(&mut v, prefixed("--input-conf=", input_conf));
    let ghost start: Seq<Seq<char>> = match start_ms {
        Some(ms) => seq!["--start="@ + tenths_text(ms)],
        None => Seq::empty(),
    };
    if let Some(ms) = start_ms {
        let mut st = owned("--start=");
        crate::playback::push_tenths_text(&mut st, ms);
        push_text(&mut v, st);
    }
    let ghost upto_start = head + fs + seq!["--input-conf="@ + input_conf@] + start;
    assert(text_views(v@) =~= upto_start);
    let ghost cache = seq![
        "--cache=yes"@,
        "--demuxer-max-bytes=128MiB"@,
        "--demuxer-max-back-bytes=32MiB"@,
        "--demuxer-readahead-secs=120"@,
        "--cache-pause=yes"@,
        "--cache-pause-wait=3"@,
        "--cache-secs=120"@,
        "--stream-lavf-o=reconnect=1,reconnect_streamed=1,reconnect_delay_max=5"@,
        "--network-timeout=10"@,
        "--hwdec=auto-safe"@,
        "--ytdl-format=bestvideo[height<=1080]+bestaudio/best"@,
    ];
    push_text(&mut v, owned("--cache=yes"));
    push_text(&mut v, owned("--demuxer-max-bytes=128MiB"));
    push_text(&mut v, owned("--demuxer-max-back-bytes=32MiB"));
    push_text(&mut v, owned("--demuxer-readahead-secs=120"));
    push_text(&mut v, owned("--cache-pause=yes"));
    push_text(&mut v, owned("--cache-pause-wait=3"));
    push_text(&mut v, owned("--cache-secs=120"));
    push_text(&mut v, owned("--stream-lavf-o=reconnect=1,reconnect_streamed=1,reconnect_delay_max=5"));
    push_text(&mut v, owned("--network-timeout=10"));
    push_text(&mut v, owned("--hwdec=auto-safe"));
    push_text(&mut v, owned("--ytdl-format=bestvideo[height<=1080]+bestaudio/best"));
    assert(text_views(v@) =~= upto_start + cache);
    let ghost before_upscale = text_views(v@);
    let mut i: usize = 0;
    assert(text_views(upscale@.take(0)) =~= Seq::<Seq<char>>::empty());
    while i < upscale.len()
        invariant
            i <= upscale@.len(),
            text_views(v@) == before_upscale + text_views(upscale@.take(i as int)),
        decreases upscale@.len() - i,
    {
        push_text(&mut v, upscale[i].clone());
        assert(text_views(upscale@.take(i + 1)) =~= text_views(upscale@.take(i as int)).push(
            upscale@[i as int]@,
        ));
        i = i + 1;
    }
    assert(upscale@.take(upscale@.len() as int) =~= upscale@);
    push_text(&mut v, owned(url));
    let ghost upto_url = upto_start + cache + text_views(upscale@) + seq![url@];
    assert(text_views(v@) =~= upto_url);
    let ghost referer: Seq<Seq<char>> = match sibnet_referer_spec(url@) {
        Some(r) => seq!["--http-header-fields="@ + http_header_fields_spec(r)],
        None => Seq::empty(),
    };
    if let Some(r) = sibnet_referer(url) {
        let h = http_header_fields(r.as_str());
        push_text(&mut v, prefixed("--http-header-fields=", h.as_str()));
    }
    assert(text_views(v@) =~= upto_url + referer);
    let ghost proxy: Seq<Seq<char>> = if use_proxy {
        seq!["--http-proxy="@ + proxy_spec()]
    } else {
        Seq::empty()
    };
    if use_proxy {
        let p = prefixed("--http-proxy=", "http://127.0.0.1:10808");
        push_text(&mut v, p);
    }
    assert(text_views(v@) =~= upto_url + referer + proxy);
    assert(upto_url + referer + proxy =~= mpv_args_spec(
        title@,
        socket@,
        fullscreen,
        input_conf@,
        start_ms,
        text_views(upscale@),
        url@,
        use_proxy,
    ));
    v
}

} // verus!
