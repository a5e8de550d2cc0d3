use animecix::installer::{
    build_install_command, package_query, privileged_command, terminal_args, terminals,
    DepCheckResult, Distro, PackageStatus,
};

#[test]
fn distributions_are_detected_from_os_release() {
    assert_eq!(Distro::from_os_release("NAME=\"Manjaro\"\nID=manjaro\nID_LIKE=arch\n"), Distro::Arch);
    assert_eq!(Distro::from_os_release("ID=\"fedora\"\nVERSION_ID=40"), Distro::Fedora);
    assert_eq!(Distro::from_os_release("ID=linuxmint\r\nID_LIKE=\"ubuntu debian\"\r\n"), Distro::Debian);
    assert_eq!(Distro::from_os_release("ID=opensuse-tumbleweed\nID_LIKE=\"opensuse suse\""), Distro::OpenSUSE);
    assert_eq!(Distro::from_os_release("ID=alpine"), Distro::Alpine);
    assert_eq!(Distro::from_os_release("ID=gentoo"), Distro::Gentoo);
    assert_eq!(Distro::from_os_release("ID=nixos"), Distro::NixOS);
    assert_eq!(Distro::from_os_release("ID=Ubuntu"), Distro::Debian);
    assert_eq!(Distro::from_os_release("ID=void"), Distro::Unknown);
    assert_eq!(Distro::from_os_release(""), Distro::Unknown);
    // Only lines that start with the key count.
    assert_eq!(Distro::from_os_release("X_ID=arch\nID=void"), Distro::Unknown);
}

#[test]
fn names_and_packages() {
    assert_eq!(Distro::Fedora.name(), "Fedora / RHEL / CentOS");
    assert_eq!(Distro::Unknown.name(), "Bilinmeyen");
    assert_eq!(Distro::Arch.packages().len(), 9);
    assert_eq!(Distro::Gentoo.packages()[0], "media-video/mpv");
    assert!(Distro::Unknown.packages().is_empty());
    let (pm, args) = Distro::Arch.package_manager();
    assert_eq!(pm, "pacman");
    assert_eq!(args, vec!["-S", "--needed", "--noconfirm"]);
}

#[test]
fn install_commands() {
    assert_eq!(
        build_install_command(Distro::Alpine).as_deref(),
        Some("apk add mpv gtk4 libadwaita gstreamer gst-plugins-base gst-plugins-good gst-plugins-bad gst-plugins-ugly gst-libav ffmpeg")
    );
    assert!(build_install_command(Distro::Debian).unwrap().starts_with("apt update && apt install -y mpv libgtk-4-1 "));
    assert_eq!(build_install_command(Distro::Unknown), None);
    assert_eq!(privileged_command("apk add x"), "pkexec bash -c 'apk add x'");
}

#[test]
fn terminals_and_their_arguments() {
    let t = terminals();
    assert_eq!(t.len(), 10);
    assert_eq!(t[0].0, "gnome-terminal");
    assert_eq!(t[0].1, vec!["--", "bash", "-c"]);
    let args = terminal_args(&t[1].1, "apk add x");
    assert_eq!(args, vec!["-e", "bash", "-c", "pkexec bash -c 'apk add x'"]);
}

#[test]
fn package_queries() {
    let (cmd, args) = package_query(Distro::Debian, "mpv").unwrap();
    assert_eq!((cmd.as_str(), args), ("dpkg", vec!["-l".to_string(), "mpv".to_string()]));
    let (cmd, args) = package_query(Distro::Alpine, "mpv").unwrap();
    assert_eq!((cmd.as_str(), args), ("apk", vec!["info".to_string(), "-e".to_string(), "mpv".to_string()]));
    assert!(package_query(Distro::Unknown, "mpv").is_none());
}

#[test]
fn check_results() {
    let n = Distro::NixOS.packages().len();
    let all = vec![true; n];
    let r = DepCheckResult::from_checks(Distro::NixOS, &all);
    assert!(r.all_installed);
    assert_eq!(r.packages.len(), n);
    let mut some = vec![true; n];
    some[2] = false;
    let r = DepCheckResult::from_checks(Distro::NixOS, &some);
    assert!(!r.all_installed);
    assert_eq!(r.packages[2], ("libadwaita".to_string(), PackageStatus::Missing));
    assert_eq!(r.packages[0], ("mpv".to_string(), PackageStatus::Installed));
}
