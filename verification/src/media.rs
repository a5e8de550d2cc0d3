//! Small formats around the media being played: request headers for
//! sources, player options, file names for downloads, cover sizes, source
//! labels and the key under which progress is stored.

use vstd::prelude::*;
use crate::text::{after_last, before_first, chars_of, char_index, decimal, decimal2, digits_value, has_prefix, parse_u64, parse_u64_chars, push_chars, push_decimal, push_decimal2, replace, replace_all, second_piece, second_piece_of, seq_contains, slice_chars, starts_with, string_of, strip_trailing, text_after_last, text_before, trim, trim_chars, trim_end_matches, contains, owned, find, lemma_first_from_bounds, lemma_decimal_digits, lemma_first_char, unsigned_part, all_digits};

verus! {

broadcast use vstd::seq_lib::group_seq_properties;

// ---------------------------------------------------------------------------
// Sibnet sources
// ---------------------------------------------------------------------------

/// The video id of a Sibnet address: the second path segment after
/// `/v/`, without trailing `.mp4`.
pub open spec fn sibnet_video_id(url: Seq<char>) -> Seq<char> {
    match second_piece(url, "/v/"@) {
        Some(p) => match second_piece(p, seq!['/']) {
            Some(q) => trim_end_matches(q, ".mp4"@),
            None => Seq::empty(),
        },
        None => Seq::empty(),
    }
}

/// Sibnet refuses its videos without a `Referer` naming its player page.
pub open spec fn sibnet_referer_spec(url: Seq<char>) -> Option<Seq<char>> {
    if !seq_contains(url, "video.sibnet.ru/v/"@) {
        None
    } else {
        let vid = sibnet_video_id(url);
        Some(
            if vid.len() == 0 {
                "https://video.sibnet.ru/"@
            } else {
                "https://video.sibnet.ru/shell.php?videoid="@ + vid
            },
        )
    }
}

/// The `Referer` a Sibnet video address needs; none for other hosts.
pub fn sibnet_referer(url: &str) -> (r: Option<String>)
    ensures
        match r {
            Some(s) => sibnet_referer_spec(url@) == Some(s@),
            None => sibnet_referer_spec(url@) is None,
        },
{
    let u = chars_of(url);
    let marker = chars_of("video.sibnet.ru/v/");
    if !contains(u.as_slice(), marker.as_slice()) {
        return None;
    }
    let sep = chars_of("/v/");
    let slash = ['/'];
    assert(slash@ =~= seq!['/']);
    let mp4 = chars_of(".mp4");
    let vid: Vec<char> = match second_piece_of(u.as_slice(), sep.as_slice()) {
        Some(p) => match second_piece_of(p.as_slice(), &slash) {
            Some(q) => strip_trailing(q.as_slice(), mp4.as_slice()),
            None => Vec::new(),
        },
        None => Vec::new(),
    };
    assert(vid@ == sibnet_video_id(url@));
    if vid.len() == 0 {
        Some(owned("https://video.sibnet.ru/"))
    } else {
        let mut s = owned("https://video.sibnet.ru/shell.php?videoid=");
        push_chars(&mut s, vid.as_slice());
        Some(s)
    }
}

// ---------------------------------------------------------------------------
// Player options
// ---------------------------------------------------------------------------

/// A `--name=value` argument as an option pair (the dashes are optional).
pub open spec fn cli_opt(a: Seq<char>) -> Option<(Seq<char>, Seq<char>)> {
    let t = if starts_with(a, "--"@) {
        a.skip("--"@.len() as int)
    } else {
        a
    };
    match char_index(t, '=') {
        Some(i) => Some((t.take(i), t.skip(i + 1))),
        None => None,
    }
}

/// The pairs of the arguments that have one, in order.
pub open spec fn cli_opts(args: Seq<Seq<char>>) -> Seq<(Seq<char>, Seq<char>)>
    decreases args.len(),
{
    if args.len() == 0 {
        Seq::empty()
    } else {
        let r = cli_opts(args.drop_last());
        match cli_opt(args.last()) {
            Some(p) => r.push(p),
            None => r,
        }
    }
}

pub open spec fn pair_views(v: Seq<(String, String)>) -> Seq<(Seq<char>, Seq<char>)> {
    v.map_values(|p: (String, String)| (p.0@, p.1@))
}

/// Turns command line arguments of the external player into option pairs
/// for the embedded one.
pub fn cli_args_to_opts(args: &[String]) -> (r: Vec<(String, String)>)
    ensures
        pair_views(r@) == cli_opts(args@.map_values(|s: String| s@)),
{
    let ghost views = args@.map_values(|s: String| s@);
    let dashes = chars_of("--");
    let eq = ['='];
    assert(eq@ =~= seq!['=']);
    let mut out: Vec<(String, String)> = Vec::new();
    let mut i: usize = 0;
    while i < args.len()
        invariant
            views == args@.map_values(|s: String| s@),
            dashes@ == "--"@,
            eq@ == seq!['='],
            i <= args@.len(),
            pair_views(out@) == cli_opts(views.take(i as int)),
        decreases args@.len() - i,
    {
        let a = chars_of(args[i].as_str());
        let t: Vec<char> = if has_prefix(a.as_slice(), dashes.as_slice()) {
            slice_chars(a.as_slice(), dashes.len(), a.len())
        } else {
            slice_chars(a.as_slice(), 0, a.len())
        };
        assert(views.take(i + 1).drop_last() =~= views.take(i as int));
        assert(views.take(i + 1).last() == a@);
        assert(t@ =~= if starts_with(a@, "--"@) {
            a@.skip("--"@.len() as int)
        } else {
            a@
        });
        match find(t.as_slice(), &eq) {
            Some(k) => {
                proof {
                    lemma_first_from_bounds(t@, seq!['='], 0);
                }
                let key = slice_chars(t.as_slice(), 0, k);
                let value = slice_chars(t.as_slice(), k + 1, t.len());
                assert(key@ =~= t@.take(k as int));
                assert(value@ =~= t@.skip(k + 1));
                out.push((string_of(key.as_slice()), string_of(value.as_slice())));
                assert(pair_views(out@) =~= cli_opts(views.take(i + 1)));
            },
            None => {},
        }
        i = i + 1;
    }
    assert(views.take(args@.len() as int) =~= views);
    out
}

/// Upscaling presets and the shader file each one uses.
pub open spec fn upscale_shader_spec(preset: Seq<char>) -> Option<Seq<char>> {
    if preset == "hafif"@ || preset == "hafif_keskin"@ {
        Some("Anime4K_Upscale_DTD_x2.glsl"@)
    } else if preset == "ultra"@ {
        Some("Anime4K_Upscale_CNN_x2_UL.glsl"@)
    } else {
        None
    }
}

/// The shader file of an upscaling preset.
pub fn upscale_shader_name(preset: &str) -> (r: Option<String>)
    ensures
        match r {
            Some(s) => upscale_shader_spec(preset@) == Some(s@),
            None => upscale_shader_spec(preset@) is None,
        },
{
    if crate::text::same_text(preset, "hafif") || crate::text::same_text(preset, "hafif_keskin") {
        Some(owned("Anime4K_Upscale_DTD_x2.glsl"))
    } else if crate::text::same_text(preset, "ultra") {
        Some(owned("Anime4K_Upscale_CNN_x2_UL.glsl"))
    } else {
        None
    }
}

/// The upscaling shaders the program carries with it.
pub open spec fn bundled_shaders() -> Seq<Seq<char>> {
    seq![
        "Anime4K_Upscale_CNN_x2_M.glsl"@,
        "Anime4K_Upscale_CNN_x2_UL.glsl"@,
        "Anime4K_Upscale_DTD_x2.glsl"@,
        "Anime4K_Upscale_Original_x2.glsl"@,
    ]
}

/// Whether a shader file is one the program carries, so that it can be
/// written out without looking on disk.
pub fn is_bundled_shader(name: &str) -> (r: bool)
    ensures
        r == bundled_shaders().contains(name@),
{
    let r = crate::text::same_text(name, "Anime4K_Upscale_CNN_x2_M.glsl") || crate::text::same_text(
        name,
        "Anime4K_Upscale_CNN_x2_UL.glsl",
    ) || crate::text::same_text(name, "Anime4K_Upscale_DTD_x2.glsl") || crate::text::same_text(
        name,
        "Anime4K_Upscale_Original_x2.glsl",
    );
    proof {
        let b = bundled_shaders();
        assert(b[0] == "Anime4K_Upscale_CNN_x2_M.glsl"@);
        assert(b[1] == "Anime4K_Upscale_CNN_x2_UL.glsl"@);
        assert(b[2] == "Anime4K_Upscale_DTD_x2.glsl"@);
        assert(b[3] == "Anime4K_Upscale_Original_x2.glsl"@);
        if !r {
            assert forall|i: int| 0 <= i < b.len() implies b[i] != name@ by {
                if i == 0 {
                } else if i == 1 {
                } else if i == 2 {
                } else {
                }
            }
        }
    }
    r
}

/// A path joined to another as `Path::join` does: an absolute second path
/// replaces the first, otherwise one separator stands between them.
pub open spec fn join_path_spec(base: Seq<char>, rel: Seq<char>) -> Seq<char> {
    if rel.len() > 0 && rel[0] == '/' {
        rel
    } else if base.len() == 0 {
        rel
    } else if base.last() == '/' {
        base + rel
    } else {
        base + seq!['/'] + rel
    }
}

fn join_path(base: &str, rel: &str) -> (r: String)
    ensures
        r@ == join_path_spec(base@, rel@),
{
    let rc = chars_of(rel);
    if rc.len() > 0 && rc[0] == '/' {
        return owned(rel);
    }
    let bc = chars_of(base);
    if bc.len() == 0 {
        return owned(rel);
    }
    let mut out = owned(base);
    if bc[bc.len() - 1] != '/' {
        out.append("/");
        proof {
            reveal_strlit("/");
        }
    }
    out.append(rel);
    out
}

/// The shader folder below an installation root.
pub open spec fn shader_dir() -> Seq<char> {
    "usr/share/animecix/assets/upscale"@
}

/// Where a shader is looked for on disk, in this order: below the AppImage
/// root when one is set and not empty, in the Flatpak tree when there is
/// one, in the system tree, then below the folder of the program, next to
/// it and two folders up.
pub open spec fn shader_candidates_spec(
    name: Seq<char>,
    appdir: Option<Seq<char>>,
    flatpak: bool,
    exe_dir: Option<Seq<char>>,
) -> Seq<Seq<char>> {
    let a = match appdir {
        Some(d) => if d.len() > 0 {
            seq![join_path_spec(join_path_spec(d, shader_dir()), name)]
        } else {
            Seq::empty()
        },
        None => Seq::empty(),
    };
    let f = if flatpak {
        seq![join_path_spec("/app/share/animecix/assets/upscale"@, name)]
    } else {
        Seq::empty()
    };
    let s = seq![join_path_spec("/usr/share/animecix/assets/upscale"@, name)];
    let e = match exe_dir {
        Some(p) => seq![
            join_path_spec(join_path_spec(p, shader_dir()), name),
            join_path_spec(join_path_spec(p, "assets/upscale"@), name),
            join_path_spec(join_path_spec(p, "../../assets/upscale"@), name),
        ],
        None => Seq::empty(),
    };
    a + f + s + e
}

/// An optional text by its characters.
pub open spec fn opt_str_view(o: Option<&str>) -> Option<Seq<char>> {
    match o {
        Some(s) => Some(s@),
        None => None,
    }
}

/// The places a shader is looked for on disk, in order.
pub fn shader_candidates(name: &str, appdir: Option<&str>, flatpak: bool, exe_dir: Option<&str>) -> (r:
    Vec<String>)
    ensures
        r@.len() == shader_candidates_spec(name@, opt_str_view(appdir), flatpak, opt_str_view(exe_dir)).len(),
        forall|i: int|
            0 <= i < r@.len() ==> #[trigger] r@[i]@ == shader_candidates_spec(
                name@,
                opt_str_view(appdir),
                flatpak,
                opt_str_view(exe_dir),
            )[i],
{
    let ghost spec = shader_candidates_spec(
        name@,
        opt_str_view(appdir),
        flatpak,
        opt_str_view(exe_dir),
    );
    let ghost mut want: Seq<Seq<char>> = Seq::empty();
    let mut out: Vec<String> = Vec::new();
    if let Some(d) = appdir {
        if d.unicode_len() > 0 {
            let root = join_path(d, "usr/share/animecix/assets/upscale");
            out.push(join_path(root.as_str(), name));
            proof {
                want = seq![join_path_spec(join_path_spec(d@, shader_dir()), name@)];
            }
        }
    }
    assert(out@.len() == want.len());
    if flatpak {
        out.push(join_path("/app/share/animecix/assets/upscale", name));
        proof {
            want = want + seq![join_path_spec("/app/share/animecix/assets/upscale"@, name@)];
        }
    }
    out.push(join_path("/usr/share/animecix/assets/upscale", name));
    proof {
        want = want + seq![join_path_spec("/usr/share/animecix/assets/upscale"@, name@)];
    }
    if let Some(p) = exe_dir {
        let r1 = join_path(p, "usr/share/animecix/assets/upscale");
        out.push(join_path(r1.as_str(), name));
        let r2 = join_path(p, "assets/upscale");
        out.push(join_path(r2.as_str(), name));
        let r3 = join_path(p, "../../assets/upscale");
        out.push(join_path(r3.as_str(), name));
        proof {
            want = want + seq![
                join_path_spec(join_path_spec(p@, shader_dir()), name@),
                join_path_spec(join_path_spec(p@, "assets/upscale"@), name@),
                join_path_spec(join_path_spec(p@, "../../assets/upscale"@), name@),
            ];
        }
    }
    assert(want =~= spec);
    out
}

/// The `http-header-fields` option that sends a `Referer`.
pub open spec fn http_header_fields_spec(referer: Seq<char>) -> Seq<char> {
    "Referer: "@ + referer + "\nAccept: */*"@
}

pub fn http_header_fields(referer: &str) -> (r: String)
    ensures
        r@ == http_header_fields_spec(referer@),
{
    let mut s = owned("Referer: ");
    s.append(referer);
    s.append("\nAccept: */*");
    s
}

// ---------------------------------------------------------------------------
// File names
// ---------------------------------------------------------------------------

/// Characters that file systems refuse in names.
pub open spec fn forbidden_in_name(c: char) -> bool {
    c == '/' || c == '\\' || c == ':' || c == '*' || c == '?' || c == '"' || c == '<' || c == '>'
        || c == '|'
}

pub open spec fn name_char(c: char) -> bool {
    !forbidden_in_name(c)
}

/// A title cleaned for use in a file name: forbidden characters dropped,
/// white space trimmed, at most 80 characters, never empty.
pub open spec fn safe_fname_spec(s: Seq<char>) -> Seq<char> {
    let o = trim(s.filter(|c: char| name_char(c)));
    let o2 = if o.len() > 80 {
        o.take(80)
    } else {
        o
    };
    if o2.len() == 0 {
        "animecix"@
    } else {
        o2
    }
}

pub fn safe_fname(s: &str) -> (r: String)
    ensures
        r@ == safe_fname_spec(s@),
{
    let cs = chars_of(s);
    let mut kept: Vec<char> = Vec::new();
    let mut i: usize = 0;
    while i < cs.len()
        invariant
            cs@ == s@,
            i <= cs@.len(),
            kept@ == s@.take(i as int).filter(|c: char| name_char(c)),
        decreases cs@.len() - i,
    {
        proof {
            reveal(Seq::filter);
            assert(s@.take(i + 1).drop_last() =~= s@.take(i as int));
        }
        let c = cs[i];
        if !(c == '/' || c == '\\' || c == ':' || c == '*' || c == '?' || c == '"' || c == '<' || c
            == '>' || c == '|') {
            kept.push(c);
        }
        i = i + 1;
    }
    assert(s@.take(cs@.len() as int) =~= s@);
    let o = trim_chars(kept.as_slice());
    let o2 = if o.len() > 80 {
        slice_chars(o.as_slice(), 0, 80)
    } else {
        o
    };
    if o2.len() == 0 {
        owned("animecix")
    } else {
        string_of(o2.as_slice())
    }
}

pub open spec fn is_ascii_alnum(c: char) -> bool {
    ('0' <= c <= '9') || ('a' <= c <= 'z') || ('A' <= c <= 'Z')
}

/// The extension of a media address: after the last dot of the part
/// before any query.
pub open spec fn url_extension(url: Seq<char>) -> Seq<char> {
    after_last(before_first(url, seq!['?']), '.')
}

/// An extension worth keeping: one to four ASCII letters or digits.
pub open spec fn usable_extension(e: Seq<char>) -> bool {
    0 < e.len() <= 4 && forall|i: int| 0 <= i < e.len() ==> is_ascii_alnum(#[trigger] e[i])
}

/// The file name an episode is downloaded under.
pub open spec fn download_name_spec(
    url: Seq<char>,
    title: Seq<char>,
    season: u64,
    episode: u64,
    ep_name: Seq<char>,
) -> Seq<char> {
    let ext = url_extension(url);
    safe_fname_spec(title) + " S"@ + decimal2(season as nat) + "E"@ + decimal2(episode as nat)
        + " - "@ + safe_fname_spec(ep_name) + "."@ + if usable_extension(ext) {
        ext
    } else {
        "mp4"@
    }
}

proof fn lemma_after_last_dot(s: Seq<char>, c: char, i: int)
    requires
        -1 <= i < s.len(),
        i >= 0 ==> s[i] == c,
        forall|k: int| i < k < s.len() ==> s[k] != c,
    ensures
        after_last(s, c) == s.skip(i + 1),
    decreases s.len(),
{
    if s.len() == 0 {
        assert(s.skip(i + 1) =~= s);
    } else if s.last() == c {
        assert(i == s.len() - 1);
        assert(s.skip(i + 1) =~= Seq::<char>::empty());
    } else {
        let t = s.drop_last();
        lemma_after_last_dot(t, c, i);
        assert(t.skip(i + 1).push(s.last()) =~= s.skip(i + 1));
    }
}

/// `i` is the position of the last dot of `s`, or -1 where `s` has none.
pub open spec fn last_dot_at(s: Seq<char>, i: int) -> bool {
    &&& -1 <= i < s.len()
    &&& i >= 0 ==> s[i] == '.'
    &&& forall|k: int| i < k < s.len() ==> s[k] != '.'
}

/// The file's extension is taken after the last dot of the address, up to
/// any `?`: where the text after that dot (all of that part when it holds
/// no dot) is one to four ASCII letters or digits, the name ends in a dot
/// and that text; otherwise it ends in ".mp4". Dots earlier in the address,
/// such as those of the host name, play no part.
pub proof fn lemma_extension_after_last_dot(
    url: Seq<char>,
    title: Seq<char>,
    season: u64,
    episode: u64,
    ep_name: Seq<char>,
    i: int,
)
    requires
        last_dot_at(before_first(url, seq!['?']), i),
    ensures
        ({
            let base = before_first(url, seq!['?']);
            let ext = base.skip(i + 1);
            let stem = safe_fname_spec(title) + " S"@ + decimal2(season as nat) + "E"@ + decimal2(
                episode as nat,
            ) + " - "@ + safe_fname_spec(ep_name) + "."@;
            let name = download_name_spec(url, title, season, episode, ep_name);
            &&& (1 <= ext.len() <= 4 && forall|k: int|
                0 <= k < ext.len() ==> is_ascii_alnum(#[trigger] ext[k])) ==> name == stem + ext
            &&& !(1 <= ext.len() <= 4 && forall|k: int|
                0 <= k < ext.len() ==> is_ascii_alnum(#[trigger] ext[k])) ==> name == stem
                + "mp4"@
        }),
{
    let base = before_first(url, seq!['?']);
    lemma_after_last_dot(base, '.', i);
}

pub fn download_file_name(
    url: &str,
    title: &str,
    season: u64,
    episode: u64,
    ep_name: &str,
) -> (r: String)
    ensures
        r@ == download_name_spec(url@, title@, season, episode, ep_name@),
        forall|i: int|
            #[trigger] last_dot_at(before_first(url@, seq!['?']), i) ==> {
                let ext = before_first(url@, seq!['?']).skip(i + 1);
                let stem = safe_fname_spec(title@) + " S"@ + decimal2(season as nat) + "E"@
                    + decimal2(episode as nat) + " - "@ + safe_fname_spec(ep_name@) + "."@;
                &&& (1 <= ext.len() <= 4 && forall|k: int|
                    0 <= k < ext.len() ==> is_ascii_alnum(#[trigger] ext[k])) ==> r@ == stem + ext
                &&& !(1 <= ext.len() <= 4 && forall|k: int|
                    0 <= k < ext.len() ==> is_ascii_alnum(#[trigger] ext[k])) ==> r@ == stem
                    + "mp4"@
            },
{
    proof {
        assert forall|i: int|
            #[trigger] last_dot_at(before_first(url@, seq!['?']), i) implies {
                let ext = before_first(url@, seq!['?']).skip(i + 1);
                let stem = safe_fname_spec(title@) + " S"@ + decimal2(season as nat) + "E"@
                    + decimal2(episode as nat) + " - "@ + safe_fname_spec(ep_name@) + "."@;
                let name = download_name_spec(url@, title@, season, episode, ep_name@);
                &&& (1 <= ext.len() <= 4 && forall|k: int|
                    0 <= k < ext.len() ==> is_ascii_alnum(#[trigger] ext[k])) ==> name == stem
                    + ext
                &&& !(1 <= ext.len() <= 4 && forall|k: int|
                    0 <= k < ext.len() ==> is_ascii_alnum(#[trigger] ext[k])) ==> name == stem
                    + "mp4"@
            } by {
            lemma_extension_after_last_dot(url@, title@, season, episode, ep_name@, i);
        }
    }
    let u = chars_of(url);
    let q = ['?'];
    assert(q@ =~= seq!['?']);
    let base = text_before(u.as_slice(), &q);
    let ext = text_after_last(base.as_slice(), '.');
    let mut ok = ext.len() > 0 && ext.len() <= 4;
    let mut i: usize = 0;
    while i < ext.len()
        invariant
            i <= ext@.len(),
            ok == (0 < ext@.len() <= 4 && forall|k: int| 0 <= k < i ==> is_ascii_alnum(ext@[k])),
        decreases ext@.len() - i,
    {
        let c = ext[i];
        if !(('0' <= c && c <= '9') || ('a' <= c && c <= 'z') || ('A' <= c && c <= 'Z')) {
            ok = false;
        }
        i = i + 1;
    }
    let mut s = safe_fname(title);
    s.append(" S");
    push_decimal2(&mut s, season);
    s.append("E");
    push_decimal2(&mut s, episode);
    s.append(" - ");
    let e = safe_fname(ep_name);
    s.append(e.as_str());
    s.append(".");
    if ok {
        push_chars(&mut s, ext.as_slice());
    } else {
        s.append("mp4");
    }
    s
}

// ---------------------------------------------------------------------------
// Cover sizes
// ---------------------------------------------------------------------------

pub open spec fn tmdb_prefix() -> Seq<char> {
    "image.tmdb.org/t/p/"@
}

/// Every known TMDB size in an address replaced by `size`.
pub open spec fn resize_cover(url: Seq<char>, size: Seq<char>) -> Seq<char> {
    let to = tmdb_prefix() + size;
    replace_all(
        replace_all(
            replace_all(
                replace_all(url, "image.tmdb.org/t/p/original"@, to),
                "image.tmdb.org/t/p/w500"@,
                to,
            ),
            "image.tmdb.org/t/p/w342"@,
            to,
        ),
        "image.tmdb.org/t/p/w185"@,
        to,
    )
}

fn replace_str(s: &[char], from: &str, to: &[char]) -> (r: Vec<char>)
    requires
        from@.len() > 0,
    ensures
        r@ == replace_all(s@, from@, to@),
{
    let f = chars_of(from);
    replace(s, f.as_slice(), to)
}

/// A cover address at thumbnail size: `w342` in high density, else
/// `w185`.
pub fn thumb_url(url: &str, hd: bool) -> (r: String)
    ensures
        r@ == resize_cover(url@, if hd {
            "w342"@
        } else {
            "w185"@
        }),
{
    proof {
        reveal_strlit("image.tmdb.org/t/p/original");
        reveal_strlit("image.tmdb.org/t/p/w500");
        reveal_strlit("image.tmdb.org/t/p/w342");
        reveal_strlit("image.tmdb.org/t/p/w185");
    }
    let mut to = owned("image.tmdb.org/t/p/");
    if hd {
        to.append("w342");
    } else {
        to.append("w185");
    }
    let t = chars_of(to.as_str());
    let u = chars_of(url);
    let a = replace_str(u.as_slice(), "image.tmdb.org/t/p/original", t.as_slice());
    let b = replace_str(a.as_slice(), "image.tmdb.org/t/p/w500", t.as_slice());
    let c = replace_str(b.as_slice(), "image.tmdb.org/t/p/w342", t.as_slice());
    let d = replace_str(c.as_slice(), "image.tmdb.org/t/p/w185", t.as_slice());
    string_of(d.as_slice())
}

/// The large (`w500`) form of a cover address, for detail pages.
pub fn hd_cover_url(url: &str) -> (r: String)
    ensures
        r@ == replace_all(
            replace_all(
                replace_all(url@, "image.tmdb.org/t/p/original"@, "image.tmdb.org/t/p/w500"@),
                "image.tmdb.org/t/p/w342"@,
                "image.tmdb.org/t/p/w500"@,
            ),
            "image.tmdb.org/t/p/w185"@,
            "image.tmdb.org/t/p/w500"@,
        ),
{
    proof {
        reveal_strlit("image.tmdb.org/t/p/original");
        reveal_strlit("image.tmdb.org/t/p/w342");
        reveal_strlit("image.tmdb.org/t/p/w185");
    }
    let t = chars_of("image.tmdb.org/t/p/w500");
    let u = chars_of(url);
    let a = replace_str(u.as_slice(), "image.tmdb.org/t/p/original", t.as_slice());
    let b = replace_str(a.as_slice(), "image.tmdb.org/t/p/w342", t.as_slice());
    let c = replace_str(b.as_slice(), "image.tmdb.org/t/p/w185", t.as_slice());
    string_of(c.as_slice())
}

// ---------------------------------------------------------------------------
// Source labels
// ---------------------------------------------------------------------------

/// The name a source host is shown under in the quality menu.
pub open spec fn host_display_name(host: Seq<char>) -> Seq<char> {
    if host == "tau-video"@ {
        "Ana Sunucu"@
    } else if host == "sibnet.ru"@ {
        "Sibnet"@
    } else if host == "dood"@ {
        "DoodStream"@
    } else if host == "vudeo"@ {
        "Vudeo"@
    } else if host == "streamtape"@ {
        "Streamtape"@
    } else if host == "streamsb"@ {
        "StreamSB"@
    } else if host == "gdrive"@ {
        "Google Drive"@
    } else {
        "Alternatif"@
    }
}

/// The quality menu entry of the source at `index`: the first source is
/// the recommended one.
pub open spec fn source_menu_label_spec(host: Seq<char>, index: usize) -> Seq<char> {
    host_display_name(host) + if index == 0 {
        " (Önerilen)"@
    } else {
        Seq::empty()
    }
}

pub fn source_menu_label(host: &str, index: usize) -> (r: String)
    ensures
        r@ == source_menu_label_spec(host@, index),
{
    let mut s = if crate::text::same_text(host, "tau-video") {
        owned("Ana Sunucu")
    } else if crate::text::same_text(host, "sibnet.ru") {
        owned("Sibnet")
    } else if crate::text::same_text(host, "dood") {
        owned("DoodStream")
    } else if crate::text::same_text(host, "vudeo") {
        owned("Vudeo")
    } else if crate::text::same_text(host, "streamtape") {
        owned("Streamtape")
    } else if crate::text::same_text(host, "streamsb") {
        owned("StreamSB")
    } else if crate::text::same_text(host, "gdrive") {
        owned("Google Drive")
    } else {
        owned("Alternatif")
    };
    if index == 0 {
        s.append(" (Önerilen)");
    }
    assert(s@ =~= source_menu_label_spec(host@, index));
    s
}

/// The source line of the player: position among the sources and host.
pub open spec fn source_label_spec(index: usize, total: usize, host_hint: Seq<char>) -> Seq<char> {
    decimal(index as nat + 1) + "/"@ + decimal(total as nat) + " · "@ + if host_hint.len() == 0 {
        "kaynak"@
    } else {
        host_hint
    }
}

pub fn source_label(index: usize, total: usize, host_hint: &str) -> (r: String)
    requires
        index < usize::MAX,
    ensures
        r@ == source_label_spec(index, total, host_hint@),
{
    let mut s = String::new();
    push_decimal(&mut s, (index + 1) as u64);
    s.append("/");
    push_decimal(&mut s, total as u64);
    s.append(" · ");
    if host_hint.unicode_len() == 0 {
        s.append("kaynak");
    } else {
        s.append(host_hint);
    }
    assert(s@ =~= source_label_spec(index, total, host_hint@));
    s
}

// ---------------------------------------------------------------------------
// Progress keys
// ---------------------------------------------------------------------------

/// The key progress is stored under: `title:season:episode`.
pub open spec fn progress_key_spec(title_id: u64, season: u64, episode: u64) -> Seq<char> {
    decimal(title_id as nat) + seq![':'] + decimal(season as nat) + seq![':'] + decimal(
        episode as nat,
    )
}

pub fn progress_key(title_id: u64, season: u64, episode: u64) -> (r: String)
    ensures
        r@ == progress_key_spec(title_id, season, episode),
{
    let mut s = String::new();
    push_decimal(&mut s, title_id);
    crate::text::push_char(&mut s, ':');
    push_decimal(&mut s, season);
    crate::text::push_char(&mut s, ':');
    push_decimal(&mut s, episode);
    assert(s@ =~= progress_key_spec(title_id, season, episode));
    s
}

/// The title id at the front of a progress key, or zero.
pub open spec fn title_of_key(key: Seq<char>) -> u64 {
    match parse_u64(before_first(key, seq![':'])) {
        Some(n) => n,
        None => 0,
    }
}

/// Reads the title id back out of a progress key.
pub fn title_id_of_key(key: &str) -> (r: u64)
    ensures
        r == title_of_key(key@),
{
    let k = chars_of(key);
    let colon = [':'];
    assert(colon@ =~= seq![':']);
    let front = text_before(k.as_slice(), &colon);
    match parse_u64_chars(front.as_slice()) {
        Some(n) => n,
        None => 0,
    }
}

proof fn lemma_digits_value_decimal(n: nat)
    ensures
        digits_value(decimal(n)) == n,
    decreases n,
{
    lemma_digit_char_value(n % 10);
    if n >= 10 {
        lemma_digits_value_decimal(n / 10);
        let d = decimal(n / 10).push(crate::text::digit_char(n % 10));
        assert(d.drop_last() =~= decimal(n / 10));
        assert(d.last() == crate::text::digit_char(n % 10));
        assert(decimal(n) == d);
        assert(n == (n / 10) * 10 + n % 10) by (nonlinear_arith);
        assert(digits_value(d) == digits_value(decimal(n / 10)) * 10 + n % 10);
    } else {
        assert(decimal(n).drop_last() =~= Seq::<char>::empty());
        assert(digits_value(Seq::<char>::empty()) == 0);
        assert(n % 10 == n);
    }
}

proof fn lemma_digit_char_value(d: nat)
    requires
        d < 10,
    ensures
        crate::text::digit_char(d) as u32 == 48 + d,
{
    if d == 0 {
    } else if d == 1 {
    } else if d == 2 {
    } else if d == 3 {
    } else if d == 4 {
    } else if d == 5 {
    } else if d == 6 {
    } else if d == 7 {
    } else if d == 8 {
    } else {
    }
}

/// A progress key gives back the title it was made for.
pub proof fn lemma_progress_key_title(title_id: u64, season: u64, episode: u64)
    ensures
        title_of_key(progress_key_spec(title_id, season, episode)) == title_id,
{
    let t = decimal(title_id as nat);
    let key = progress_key_spec(title_id, season, episode);
    lemma_decimal_digits(title_id as nat);
    assert(key[t.len() as int] == ':');
    assert forall|j: int| 0 <= j < t.len() implies key[j] != ':' by {
        assert(key[j] == t[j]);
    }
    lemma_first_char(key, ':', t.len() as int);
    assert(before_first(key, seq![':']) =~= t);
    assert(unsigned_part(t) == t);
    assert(all_digits(t));
    lemma_digits_value_decimal(title_id as nat);
}

} // verus!
