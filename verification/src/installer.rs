//! The system dependencies of the player: which distribution the machine
//! runs, which packages it needs, how to ask whether each is installed and
//! the command line that installs them.

use vstd::prelude::*;
use crate::text::{
    chars_of, contains, has_prefix, join, join_strs, lines, lines_of, lowercase, owned, second_piece,
    second_piece_of, seq_contains, starts_with, str_views, string_of, to_lowercase, trim_char,
    trim_char_chars,
};

verus! {

/// The distributions the installer knows. Ubuntu is a Debian for every
/// purpose here; detection reports Ubuntu machines as Debian.
#[derive(Clone, Copy, Debug, PartialEq, Eq, Structural)]
pub enum Distro {
    Arch,
    Fedora,
    Debian,
    Ubuntu,
    OpenSUSE,
    Alpine,
    Gentoo,
    NixOS,
    Unknown,
}

// ---------------------------------------------------------------------------
// Reading /etc/os-release
// ---------------------------------------------------------------------------

/// The value of the first line that starts with `key` (such as `ID=`): the
/// text between its first and second `=`.
pub open spec fn key_value(ls: Seq<Seq<char>>, key: Seq<char>) -> Seq<char>
    decreases ls.len(),
{
    if ls.len() == 0 {
        Seq::empty()
    } else if starts_with(ls[0], key) {
        match second_piece(ls[0], seq!['=']) {
            Some(v) => v,
            None => Seq::empty(),
        }
    } else {
        key_value(ls.drop_first(), key)
    }
}

/// A field of an os-release text, unquoted and lower-cased.
pub open spec fn os_field(text: Seq<char>, key: Seq<char>) -> Seq<char> {
    lowercase(trim_char(key_value(lines(text), key), '"'))
}

/// `ID` and `ID_LIKE` together, as the classification reads them.
pub open spec fn all_ids(text: Seq<char>) -> Seq<char> {
    os_field(text, "ID="@) + seq![' '] + os_field(text, "ID_LIKE="@)
}

/// The family a set of distribution ids belongs to; a derivative is found
/// through `ID_LIKE` (Manjaro is an Arch).
pub open spec fn classify(ids: Seq<char>) -> Distro {
    if seq_contains(ids, "arch"@) || seq_contains(ids, "manjaro"@) || seq_contains(
        ids,
        "endeavour"@,
    ) || seq_contains(ids, "garuda"@) {
        Distro::Arch
    } else if seq_contains(ids, "fedora"@) || seq_contains(ids, "rhel"@) || seq_contains(
        ids,
        "centos"@,
    ) || seq_contains(ids, "rocky"@) || seq_contains(ids, "alma"@) {
        Distro::Fedora
    } else if seq_contains(ids, "debian"@) || seq_contains(ids, "ubuntu"@) || seq_contains(
        ids,
        "mint"@,
    ) || seq_contains(ids, "pop"@) || seq_contains(ids, "kali"@) || seq_contains(
        ids,
        "elementary"@,
    ) || seq_contains(ids, "zorin"@) {
        Distro::Debian
    } else if seq_contains(ids, "opensuse"@) || seq_contains(ids, "suse"@) {
        Distro::OpenSUSE
    } else if seq_contains(ids, "alpine"@) {
        Distro::Alpine
    } else if seq_contains(ids, "gentoo"@) {
        Distro::Gentoo
    } else if seq_contains(ids, "nixos"@) || seq_contains(ids, "nix"@) {
        Distro::NixOS
    } else {
        Distro::Unknown
    }
}

fn field_value(ls: &Vec<Vec<char>>, key: &str) -> (r: Vec<char>)
    ensures
        r@ == key_value(ls@.map_values(|l: Vec<char>| l@), key@),
{
    let ghost views = ls@.map_values(|l: Vec<char>| l@);
    let k = chars_of(key);
    let eq = ['='];
    assert(eq@ =~= seq!['=']);
    let mut i: usize = 0;
    assert(views.skip(0) =~= views);
    while i < ls.len()
        invariant
            views == ls@.map_values(|l: Vec<char>| l@),
            k@ == key@,
            eq@ == seq!['='],
            i <= ls@.len(),
            key_value(views, key@) == key_value(views.skip(i as int), key@),
        decreases ls@.len() - i,
    {
        assert(views.skip(i as int)[0] == ls@[i as int]@);
        assert(views.skip(i as int).drop_first() =~= views.skip(i + 1));
        if has_prefix(ls[i].as_slice(), k.as_slice()) {
            return match second_piece_of(ls[i].as_slice(), &eq) {
                Some(v) => v,
                None => Vec::new(),
            };
        }
        i = i + 1;
    }
    Vec::new()
}

fn os_field_of(ls: &Vec<Vec<char>>, key: &str) -> (r: String)
    ensures
        r@ == lowercase(trim_char(key_value(ls@.map_values(|l: Vec<char>| l@), key@), '"')),
{
    let v = field_value(ls, key);
    let t = trim_char_chars(v.as_slice(), '"');
    let s = string_of(t.as_slice());
    to_lowercase(s.as_str())
}

fn has_any(ids: &[char], words: &[&str]) -> (r: bool)
    ensures
        r == exists|i: int| 0 <= i < words@.len() && seq_contains(ids@, #[trigger] words@[i]@),
{
    let mut i: usize = 0;
    while i < words.len()
        invariant
            i <= words@.len(),
            forall|j: int| 0 <= j < i ==> !seq_contains(ids@, #[trigger] words@[j]@),
        decreases words@.len() - i,
    {
        let w = chars_of(words[i]);
        if contains(ids, w.as_slice()) {
            return true;
        }
        i = i + 1;
    }
    false
}

impl Distro {
    /// The distribution an os-release text describes.
    pub fn from_os_release(text: &str) -> (r: Distro)
        ensures
            r == classify(all_ids(text@)),
    {
        let t = chars_of(text);
        let ls = lines_of(t.as_slice());
        let id = os_field_of(&ls, "ID=");
        let like = os_field_of(&ls, "ID_LIKE=");
        let mut all = id;
        push_space(&mut all);
        all.append(like.as_str());
        let ids = chars_of(all.as_str());
        let s = ids.as_slice();
        if has_any(s, &["arch", "manjaro", "endeavour", "garuda"]) {
            Distro::Arch
        } else if has_any(s, &["fedora", "rhel", "centos", "rocky", "alma"]) {
            Distro::Fedora
        } else if has_any(s, &["debian", "ubuntu", "mint", "pop", "kali", "elementary", "zorin"]) {
            Distro::Debian
        } else if has_any(s, &["opensuse", "suse"]) {
            Distro::OpenSUSE
        } else if has_any(s, &["alpine"]) {
            Distro::Alpine
        } else if has_any(s, &["gentoo"]) {
            Distro::Gentoo
        } else if has_any(s, &["nixos", "nix"]) {
            Distro::NixOS
        } else {
            Distro::Unknown
        }
    }
}

fn push_space(s: &mut String)
    ensures
        final(s)@ == old(s)@ + seq![' '],
{
    crate::text::push_char(s, ' ');
}


// ---------------------------------------------------------------------------
// Names, package managers and packages
// ---------------------------------------------------------------------------

pub open spec fn distro_name(d: Distro) -> Seq<char> {
    match d {
        Distro::Arch => "Arch Linux / Manjaro / EndeavourOS"@,
        Distro::Fedora => "Fedora / RHEL / CentOS"@,
        Distro::Debian | Distro::Ubuntu => "Debian / Ubuntu / Mint / Pop!_OS"@,
        Distro::OpenSUSE => "openSUSE"@,
        Distro::Alpine => "Alpine Linux"@,
        Distro::Gentoo => "Gentoo"@,
        Distro::NixOS => "NixOS"@,
        Distro::Unknown => "Bilinmeyen"@,
    }
}

/// The package manager and the arguments before the package names.
pub open spec fn manager_spec(d: Distro) -> (Seq<char>, Seq<Seq<char>>) {
    match d {
        Distro::Arch => ("pacman"@, seq!["-S"@, "--needed"@, "--noconfirm"@]),
        Distro::Fedora => ("dnf"@, seq!["install"@, "-y"@]),
        Distro::Debian | Distro::Ubuntu => ("apt"@, seq!["update"@, "&&"@, "apt"@, "install"@, "-y"@]),
        Distro::OpenSUSE => ("zypper"@, seq!["install"@, "-y"@]),
        Distro::Alpine => ("apk"@, seq!["add"@]),
        Distro::Gentoo => ("emerge"@, seq!["--ask"@, "--verbose"@]),
        Distro::NixOS => ("nix-env"@, seq!["-iA"@]),
        Distro::Unknown => (Seq::empty(), Seq::empty()),
    }
}

/// The packages the player needs: mpv, GTK 4, libadwaita, the GStreamer
/// plugins for video and FFmpeg, under each distribution's names.
pub open spec fn packages_spec(d: Distro) -> Seq<Seq<char>> {
    match d {
        Distro::Arch => seq![
            "mpv"@, "gtk4"@, "libadwaita"@, "gst-plugins-base"@, "gst-plugins-good"@,
            "gst-plugins-bad"@, "gst-plugins-ugly"@, "gst-libav"@, "ffmpeg"@,
        ],
        Distro::Fedora => seq![
            "mpv"@, "gtk4"@, "libadwaita"@, "gstreamer1-plugins-base"@,
            "gstreamer1-plugins-good"@, "gstreamer1-plugins-bad-free"@,
            "gstreamer1-plugins-ugly-free"@, "gstreamer1-libav"@, "ffmpeg"@,
        ],
        Distro::Debian | Distro::Ubuntu => seq![
            "mpv"@, "libgtk-4-1"@, "libadwaita-1-0"@, "gstreamer1.0-plugins-base"@,
            "gstreamer1.0-plugins-good"@, "gstreamer1.0-plugins-bad"@,
            "gstreamer1.0-plugins-ugly"@, "gstreamer1.0-libav"@, "ffmpeg"@,
        ],
        Distro::OpenSUSE => seq![
            "mpv"@, "gtk4"@, "libadwaita-1-0"@, "gstreamer-plugins-base"@,
            "gstreamer-plugins-good"@, "gstreamer-plugins-bad"@, "gstreamer-plugins-ugly"@,
            "gstreamer-plugins-libav"@, "ffmpeg"@,
        ],
        Distro::Alpine => seq![
            "mpv"@, "gtk4"@, "libadwaita"@, "gstreamer"@, "gst-plugins-base"@,
            "gst-plugins-good"@, "gst-plugins-bad"@, "gst-plugins-ugly"@, "gst-libav"@,
            "ffmpeg"@,
        ],
        Distro::Gentoo => seq![
            "media-video/mpv"@, "x11-libs/gtk+:4"@, "gnome-extra/libadwaita"@,
            "media-libs/gstreamer"@, "media-plugins/gst-plugins-base"@,
            "media-plugins/gst-plugins-good"@, "media-plugins/gst-plugins-bad"@,
            "media-plugins/gst-plugins-ugly"@, "media-plugins/gst-plugins-libav"@,
            "media-video/ffmpeg"@,
        ],
        Distro::NixOS => seq![
            "mpv"@, "gtk4"@, "libadwaita"@, "gstreamer"@, "gst-plugins-base"@,
            "gst-plugins-good"@, "gst-plugins-bad"@, "gst-plugins-ugly"@, "gst-libav"@,
            "ffmpeg"@,
        ],
        Distro::Unknown => Seq::empty(),
    }
}

spec fn manager_index(d: Distro) -> int {
    match d {
        Distro::Arch => 0,
        Distro::Fedora => 1,
        Distro::Debian | Distro::Ubuntu => 2,
        Distro::OpenSUSE => 3,
        Distro::Alpine => 4,
        Distro::Gentoo => 5,
        Distro::NixOS => 6,
        Distro::Unknown => 7,
    }
}

/// Each distribution installs with its own package manager: Arch with
/// `pacman -S --needed --noconfirm`, Fedora with `dnf install -y`, Debian and
/// Ubuntu with `apt update && apt install -y`, openSUSE with
/// `zypper install -y`, Alpine with `apk add`, Gentoo with
/// `emerge --ask --verbose` and NixOS with `nix-env -iA`; an unknown
/// distribution has none. Two distributions share a manager only when both
/// are Debian or Ubuntu.
pub proof fn lemma_own_package_manager(d: Distro, e: Distro)
    ensures
        d == Distro::Arch ==> manager_spec(d) == ("pacman"@, seq!["-S"@, "--needed"@, "--noconfirm"@]),
        d == Distro::Fedora ==> manager_spec(d) == ("dnf"@, seq!["install"@, "-y"@]),
        d == Distro::Debian || d == Distro::Ubuntu ==> manager_spec(d) == (
            "apt"@,
            seq!["update"@, "&&"@, "apt"@, "install"@, "-y"@],
        ),
        d == Distro::OpenSUSE ==> manager_spec(d) == ("zypper"@, seq!["install"@, "-y"@]),
        d == Distro::Alpine ==> manager_spec(d) == ("apk"@, seq!["add"@]),
        d == Distro::Gentoo ==> manager_spec(d) == ("emerge"@, seq!["--ask"@, "--verbose"@]),
        d == Distro::NixOS ==> manager_spec(d) == ("nix-env"@, seq!["-iA"@]),
        d == Distro::Unknown ==> manager_spec(d).0.len() == 0 && manager_spec(d).1.len() == 0,
        d != Distro::Unknown ==> manager_spec(d).0.len() > 0,
        manager_spec(d).0 == manager_spec(e).0 <==> (d == e || ((d == Distro::Debian || d
            == Distro::Ubuntu) && (e == Distro::Debian || e == Distro::Ubuntu))),
{
    reveal_strlit("pacman");
    reveal_strlit("dnf");
    reveal_strlit("apt");
    reveal_strlit("zypper");
    reveal_strlit("apk");
    reveal_strlit("emerge");
    reveal_strlit("nix-env");
    reveal_strlit("");
    let names: Seq<Seq<char>> = seq![
        "pacman"@, "dnf"@, "apt"@, "zypper"@, "apk"@, "emerge"@, "nix-env"@, Seq::empty(),
    ];
    assert("dnf"@[0] != "apt"@[0] && "dnf"@[0] != "apk"@[0] && "apt"@[2] != "apk"@[2]);
    assert("pacman"@[0] != "zypper"@[0] && "pacman"@[0] != "emerge"@[0] && "zypper"@[0]
        != "emerge"@[0]);
    assert forall|a: int, b: int| 0 <= a < b < 8 implies names[a] != names[b] by {
        if names[a].len() == names[b].len() {
            assert(names[a][0] != names[b][0] || names[a][2] != names[b][2]);
        }
    }
    assert(manager_spec(d).0 == names[manager_index(d)]);
    assert(manager_spec(e).0 == names[manager_index(e)]);
    if manager_index(d) != manager_index(e) {
        if manager_index(d) < manager_index(e) {
            assert(names[manager_index(d)] != names[manager_index(e)]);
        } else {
            assert(names[manager_index(e)] != names[manager_index(d)]);
        }
    }
}

impl Distro {
    /// The name shown for the distribution.
    pub fn name(&self) -> (r: &'static str)
        ensures
            r@ == distro_name(*self),
    {
        match self {
            Distro::Arch => "Arch Linux / Manjaro / EndeavourOS",
            Distro::Fedora => "Fedora / RHEL / CentOS",
            Distro::Debian | Distro::Ubuntu => "Debian / Ubuntu / Mint / Pop!_OS",
            Distro::OpenSUSE => "openSUSE",
            Distro::Alpine => "Alpine Linux",
            Distro::Gentoo => "Gentoo",
            Distro::NixOS => "NixOS",
            Distro::Unknown => "Bilinmeyen",
        }
    }

    /// The package manager and its install arguments; empty for an unknown
    /// distribution.
    pub fn package_manager(&self) -> (r: (&'static str, Vec<&'static str>))
        ensures
            r.0@ == manager_spec(*self).0,
            str_views(r.1@) == manager_spec(*self).1,
            *self == Distro::Arch ==> r.0@ == "pacman"@,
            *self == Distro::Fedora ==> r.0@ == "dnf"@ && str_views(r.1@) == seq![
                "install"@,
                "-y"@,
            ],
            *self == Distro::Debian || *self == Distro::Ubuntu ==> r.0@ == "apt"@,
            *self == Distro::OpenSUSE ==> r.0@ == "zypper"@,
            *self == Distro::Alpine ==> r.0@ == "apk"@,
            *self == Distro::Gentoo ==> r.0@ == "emerge"@,
            *self == Distro::NixOS ==> r.0@ == "nix-env"@,
    {
        proof {
            lemma_own_package_manager(*self, *self);
        }
        let r: (&'static str, Vec<&'static str>) = match self {
            Distro::Arch => ("pacman", vec!["-S", "--needed", "--noconfirm"]),
            Distro::Fedora => ("dnf", vec!["install", "-y"]),
            Distro::Debian | Distro::Ubuntu => ("apt", vec!["update", "&&", "apt", "install", "-y"]),
            Distro::OpenSUSE => ("zypper", vec!["install", "-y"]),
            Distro::Alpine => ("apk", vec!["add"]),
            Distro::Gentoo => ("emerge", vec!["--ask", "--verbose"]),
            Distro::NixOS => ("nix-env", vec!["-iA"]),
            Distro::Unknown => ("", Vec::new()),
        };
        proof {
            reveal_strlit("");
        }
        assert(str_views(r.1@) =~= manager_spec(*self).1);
        r
    }

    /// The packages to check and install.
    pub fn packages(&self) -> (r: Vec<&'static str>)
        ensures
            str_views(r@) == packages_spec(*self),
    {
        let r: Vec<&'static str> = match self {
            Distro::Arch => vec![
                "mpv", "gtk4", "libadwaita", "gst-plugins-base", "gst-plugins-good",
                "gst-plugins-bad", "gst-plugins-ugly", "gst-libav", "ffmpeg",
            ],
            Distro::Fedora => vec![
                "mpv", "gtk4", "libadwaita", "gstreamer1-plugins-base", "gstreamer1-plugins-good",
                "gstreamer1-plugins-bad-free", "gstreamer1-plugins-ugly-free", "gstreamer1-libav",
                "ffmpeg",
            ],
            Distro::Debian | Distro::Ubuntu => vec![
                "mpv", "libgtk-4-1", "libadwaita-1-0", "gstreamer1.0-plugins-base",
                "gstreamer1.0-plugins-good", "gstreamer1.0-plugins-bad",
                "gstreamer1.0-plugins-ugly", "gstreamer1.0-libav", "ffmpeg",
            ],
            Distro::OpenSUSE => vec![
                "mpv", "gtk4", "libadwaita-1-0", "gstreamer-plugins-base",
                "gstreamer-plugins-good", "gstreamer-plugins-bad", "gstreamer-plugins-ugly",
                "gstreamer-plugins-libav", "ffmpeg",
            ],
            Distro::Alpine => vec![
                "mpv", "gtk4", "libadwaita", "gstreamer", "gst-plugins-base", "gst-plugins-good",
                "gst-plugins-bad", "gst-plugins-ugly", "gst-libav", "ffmpeg",
            ],
            Distro::Gentoo => vec![
                "media-video/mpv", "x11-libs/gtk+:4", "gnome-extra/libadwaita",
                "media-libs/gstreamer", "media-plugins/gst-plugins-base",
                "media-plugins/gst-plugins-good", "media-plugins/gst-plugins-bad",
                "media-plugins/gst-plugins-ugly", "media-plugins/gst-plugins-libav",
                "media-video/ffmpeg",
            ],
            Distro::NixOS => vec![
                "mpv", "gtk4", "libadwaita", "gstreamer", "gst-plugins-base", "gst-plugins-good",
                "gst-plugins-bad", "gst-plugins-ugly", "gst-libav", "ffmpeg",
            ],
            Distro::Unknown => Vec::new(),
        };
        assert(str_views(r@) =~= packages_spec(*self));
        r
    }
}


// ---------------------------------------------------------------------------
// Installing
// ---------------------------------------------------------------------------

/// The command that installs every package: the manager, its arguments and
/// the packages, separated by spaces. None where no manager is known.
pub open spec fn install_command_spec(d: Distro) -> Option<Seq<char>> {
    let (pm, args) = manager_spec(d);
    if pm.len() == 0 {
        None
    } else {
        Some(pm + seq![' '] + join(args, seq![' ']) + seq![' '] + join(packages_spec(d), seq![' ']))
    }
}

/// Builds the install command for a distribution.
pub fn build_install_command(distro: Distro) -> (r: Option<String>)
    ensures
        match r {
            Some(c) => install_command_spec(distro) == Some(c@),
            None => install_command_spec(distro) is None,
        },
{
    let (pm, args) = distro.package_manager();
    if pm.unicode_len() == 0 {
        return None;
    }
    let pkgs = distro.packages();
    let ghost spec = manager_spec(distro);
    assert(pm@ == spec.0 && str_views(args@) == spec.1);
    let mut s = owned(pm);
    push_space(&mut s);
    let a = join_strs(&args, " ");
    s.append(a.as_str());
    push_space(&mut s);
    let p = join_strs(&pkgs, " ");
    s.append(p.as_str());
    proof {
        reveal_strlit(" ");
        assert(" "@ =~= seq![' ']);
    }
    assert(s@ =~= spec.0 + seq![' '] + join(spec.1, seq![' ']) + seq![' '] + join(
        packages_spec(distro),
        seq![' '],
    ));
    Some(s)
}

/// The shell line that runs the install command with root rights.
pub open spec fn privileged_spec(cmd: Seq<char>) -> Seq<char> {
    "pkexec bash -c '"@ + cmd + "'"@
}

pub fn privileged_command(cmd: &str) -> (r: String)
    ensures
        r@ == privileged_spec(cmd@),
{
    let mut s = owned("pkexec bash -c '");
    s.append(cmd);
    s.append("'");
    s
}

/// The terminal emulators tried, in order, with the arguments that make
/// each run a shell command.
pub open spec fn terminals_spec() -> Seq<(Seq<char>, Seq<Seq<char>>)> {
    seq![
        ("gnome-terminal"@, seq!["--"@, "bash"@, "-c"@]),
        ("konsole"@, seq!["-e"@, "bash"@, "-c"@]),
        ("xterm"@, seq!["-e"@, "bash"@, "-c"@]),
        ("kitty"@, seq!["-e"@, "bash"@, "-c"@]),
        ("alacritty"@, seq!["-e"@, "bash"@, "-c"@]),
        ("tilix"@, seq!["-e"@, "bash"@, "-c"@]),
        ("mate-terminal"@, seq!["-e"@, "bash"@, "-c"@]),
        ("xfce4-terminal"@, seq!["-e"@, "bash"@, "-c"@]),
        ("terminator"@, seq!["-e"@, "bash"@, "-c"@]),
        ("qterminal"@, seq!["-e"@, "bash"@, "-c"@]),
    ]
}

pub open spec fn terminal_views(v: Seq<(&str, Vec<&str>)>) -> Seq<(Seq<char>, Seq<Seq<char>>)> {
    v.map_values(|t: (&str, Vec<&str>)| (t.0@, str_views(t.1@)))
}

/// The terminal emulators to look for.
pub fn terminals() -> (r: Vec<(&'static str, Vec<&'static str>)>)
    ensures
        terminal_views(r@) == terminals_spec(),
{
    let r: Vec<(&'static str, Vec<&'static str>)> = vec![
        ("gnome-terminal", shell_args("--")),
        ("konsole", shell_args("-e")),
        ("xterm", shell_args("-e")),
        ("kitty", shell_args("-e")),
        ("alacritty", shell_args("-e")),
        ("tilix", shell_args("-e")),
        ("mate-terminal", shell_args("-e")),
        ("xfce4-terminal", shell_args("-e")),
        ("terminator", shell_args("-e")),
        ("qterminal", shell_args("-e")),
    ];
    assert(terminal_views(r@) =~= terminals_spec());
    r
}

fn shell_args(first: &'static str) -> (r: Vec<&'static str>)
    ensures
        str_views(r@) == seq![first@, "bash"@, "-c"@],
{
    let r = vec![first, "bash", "-c"];
    assert(str_views(r@) =~= seq![first@, "bash"@, "-c"@]);
    r
}

/// The arguments a terminal is started with: its own, then the privileged
/// install line.
pub fn terminal_args(term_args: &Vec<&str>, install_cmd: &str) -> (r: Vec<String>)
    ensures
        r@.map_values(|s: String| s@) == str_views(term_args@).push(privileged_spec(install_cmd@)),
{
    let mut out: Vec<String> = Vec::new();
    let mut i: usize = 0;
    while i < term_args.len()
        invariant
            i <= term_args@.len(),
            out@.map_values(|s: String| s@) == str_views(term_args@.take(i as int)),
        decreases term_args@.len() - i,
    {
        let ghost before = out@;
        out.push(owned(term_args[i]));
        assert(out@ == before.push(out@.last()));
        assert(term_args@.take(i + 1) =~= term_args@.take(i as int).push(term_args@[i as int]));
        assert(out@.map_values(|s: String| s@) =~= before.map_values(|s: String| s@).push(
            term_args@[i as int]@,
        ));
        i = i + 1;
    }
    assert(term_args@.take(term_args@.len() as int) =~= term_args@);
    out.push(privileged_command(install_cmd));
    assert(out@.map_values(|s: String| s@) =~= str_views(term_args@).push(
        privileged_spec(install_cmd@),
    ));
    out
}

// ---------------------------------------------------------------------------
// Checking what is installed
// ---------------------------------------------------------------------------

/// The package manager query that tells whether `pkg` is installed, tried
/// when `which` does not find it; none for an unknown distribution.
pub open spec fn query_spec(d: Distro, pkg: Seq<char>) -> Option<(Seq<char>, Seq<Seq<char>>)> {
    match d {
        Distro::Arch => Some(("pacman"@, seq!["-Q"@, pkg])),
        Distro::Fedora | Distro::OpenSUSE => Some(("rpm"@, seq!["-q"@, pkg])),
        Distro::Debian | Distro::Ubuntu => Some(("dpkg"@, seq!["-l"@, pkg])),
        Distro::Alpine => Some(("apk"@, seq!["info"@, "-e"@, pkg])),
        Distro::Gentoo => Some(("equery"@, seq!["list"@, pkg])),
        Distro::NixOS => Some(("nix-env"@, seq!["-q"@, pkg])),
        Distro::Unknown => None,
    }
}

/// The query command for a package.
pub fn package_query(d: Distro, pkg: &str) -> (r: Option<(String, Vec<String>)>)
    ensures
        match r {
            Some(q) => query_spec(d, pkg@) == Some((q.0@, q.1@.map_values(|s: String| s@))),
            None => query_spec(d, pkg@) is None,
        },
{
    let r: Option<(String, Vec<String>)> = match d {
        Distro::Arch => Some((owned("pacman"), vec![owned("-Q"), owned(pkg)])),
        Distro::Fedora | Distro::OpenSUSE => Some((owned("rpm"), vec![owned("-q"), owned(pkg)])),
        Distro::Debian | Distro::Ubuntu => Some((owned("dpkg"), vec![owned("-l"), owned(pkg)])),
        Distro::Alpine => Some((owned("apk"), vec![owned("info"), owned("-e"), owned(pkg)])),
        Distro::Gentoo => Some((owned("equery"), vec![owned("list"), owned(pkg)])),
        Distro::NixOS => Some((owned("nix-env"), vec![owned("-q"), owned(pkg)])),
        Distro::Unknown => None,
    };
    proof {
        if let Some(q) = &r {
            let spec_args = match query_spec(d, pkg@) {
                Some(p) => p.1,
                None => Seq::empty(),
            };
            assert(q.1@.map_values(|s: String| s@) =~= spec_args);
        }
    }
    r
}

/// Whether a package is there.
#[derive(Clone, Copy, Debug, PartialEq, Eq, Structural)]
pub enum PackageStatus {
    Installed,
    Missing,
    Unknown,
}

/// The packages of a distribution with their status.
pub struct DepCheckResult {
    pub distro: Distro,
    pub packages: Vec<(String, PackageStatus)>,
    pub all_installed: bool,
}

impl DepCheckResult {
    /// The result of checking each package of `distro`; `installed[i]` says
    /// whether the `i`-th package was found.
    pub fn from_checks(distro: Distro, installed: &[bool]) -> (r: DepCheckResult)
        requires
            installed@.len() == packages_spec(distro).len(),
        ensures
            r.distro == distro,
            r.packages@.len() == installed@.len(),
            forall|i: int|
                0 <= i < installed@.len() ==> (#[trigger] r.packages@[i]).0@ == packages_spec(
                    distro,
                )[i] && r.packages@[i].1 == if installed@[i] {
                    PackageStatus::Installed
                } else {
                    PackageStatus::Missing
                },
            r.all_installed == forall|i: int| 0 <= i < installed@.len() ==> installed@[i],
    {
        let pkgs = distro.packages();
        let mut out: Vec<(String, PackageStatus)> = Vec::new();
        let mut all = true;
        let mut i: usize = 0;
        while i < pkgs.len()
            invariant
                str_views(pkgs@) == packages_spec(distro),
                installed@.len() == pkgs@.len(),
                i <= pkgs@.len(),
                out@.len() == i,
                forall|j: int|
                    0 <= j < i ==> (#[trigger] out@[j]).0@ == packages_spec(distro)[j]
                        && out@[j].1 == if installed@[j] {
                        PackageStatus::Installed
                    } else {
                        PackageStatus::Missing
                    },
                all == forall|j: int| 0 <= j < i ==> installed@[j],
            decreases pkgs@.len() - i,
        {
            assert(pkgs@[i as int]@ == packages_spec(distro)[i as int]);
            let status = if installed[i] {
                PackageStatus::Installed
            } else {
                all = false;
                PackageStatus::Missing
            };
            out.push((owned(pkgs[i]), status));
            i = i + 1;
        }
        DepCheckResult { distro, packages: out, all_installed: all }
    }
}

} // verus!
