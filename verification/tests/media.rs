use animecix::media::{
    cli_args_to_opts, download_file_name, hd_cover_url, http_header_fields, progress_key,
    safe_fname, sibnet_referer, source_label, source_menu_label, thumb_url, title_id_of_key,
    upscale_shader_name, is_bundled_shader, shader_candidates,
};

#[test]
fn sibnet_sources_get_a_player_referer() {
    assert_eq!(
        sibnet_referer("https://video.sibnet.ru/v/abc123/4891234.mp4").as_deref(),
        Some("https://video.sibnet.ru/shell.php?videoid=4891234")
    );
    assert_eq!(
        sibnet_referer("https://video.sibnet.ru/v/abc123").as_deref(),
        Some("https://video.sibnet.ru/")
    );
    assert_eq!(sibnet_referer("https://cdn.example.com/v/a/b.mp4"), None);
}

#[test]
fn header_fields_for_a_referer() {
    assert_eq!(http_header_fields("https://r/"), "Referer: https://r/\nAccept: */*");
}

#[test]
fn cli_arguments_become_option_pairs() {
    let args: Vec<String> = ["--glsl-shaders=/a/b.glsl", "profile=fast", "--fullscreen", "x=y=z"]
        .iter()
        .map(|s| s.to_string())
        .collect();
    assert_eq!(
        cli_args_to_opts(&args),
        vec![
            ("glsl-shaders".to_string(), "/a/b.glsl".to_string()),
            ("profile".to_string(), "fast".to_string()),
            ("x".to_string(), "y=z".to_string()),
        ]
    );
}

#[test]
fn upscale_presets_name_their_shader() {
    assert_eq!(upscale_shader_name("hafif").as_deref(), Some("Anime4K_Upscale_DTD_x2.glsl"));
    assert_eq!(upscale_shader_name("hafif_keskin").as_deref(), Some("Anime4K_Upscale_DTD_x2.glsl"));
    assert_eq!(upscale_shader_name("ultra").as_deref(), Some("Anime4K_Upscale_CNN_x2_UL.glsl"));
    assert_eq!(upscale_shader_name("kapali"), None);
}

#[test]
fn file_names_are_cleaned() {
    assert_eq!(safe_fname("  Re:Zero / Kara? "), "ReZero  Kara");
    assert_eq!(safe_fname("***"), "animecix");
    let long: String = std::iter::repeat('a').take(100).collect();
    assert_eq!(safe_fname(&long).chars().count(), 80);
}

#[test]
fn download_names_keep_a_short_extension() {
    assert_eq!(
        download_file_name("https://x/y/video.mkv?token=1.2", "One Piece", 1, 7, "Bölüm 7"),
        "One Piece S01E07 - Bölüm 7.mkv"
    );
    assert_eq!(
        download_file_name("https://x/y/master", "A", 12, 100, ""),
        "A S12E100 - animecix.mp4"
    );
    assert_eq!(download_file_name("https://x/y/v.m3u8x", "A", 1, 1, "b"), "A S01E01 - b.mp4");
}

#[test]
fn covers_are_resized() {
    assert_eq!(
        thumb_url("https://image.tmdb.org/t/p/original/p.jpg", false),
        "https://image.tmdb.org/t/p/w185/p.jpg"
    );
    assert_eq!(
        thumb_url("https://image.tmdb.org/t/p/w500/p.jpg", true),
        "https://image.tmdb.org/t/p/w342/p.jpg"
    );
    assert_eq!(thumb_url("https://other/p.jpg", true), "https://other/p.jpg");
    assert_eq!(
        hd_cover_url("https://image.tmdb.org/t/p/w185/p.jpg"),
        "https://image.tmdb.org/t/p/w500/p.jpg"
    );
}

#[test]
fn source_labels() {
    assert_eq!(source_menu_label("tau-video", 0), "Ana Sunucu (Önerilen)");
    assert_eq!(source_menu_label("sibnet.ru", 2), "Sibnet");
    assert_eq!(source_menu_label("bilinmez", 1), "Alternatif");
    assert_eq!(source_label(0, 3, "dood"), "1/3 · dood");
    assert_eq!(source_label(2, 3, ""), "3/3 · kaynak");
}

#[test]
fn progress_keys_round_trip() {
    let k = progress_key(4711, 2, 13);
    assert_eq!(k, "4711:2:13");
    assert_eq!(title_id_of_key(&k), 4711);
    assert_eq!(title_id_of_key("x:1:2"), 0);
    assert_eq!(title_id_of_key(""), 0);
}

#[test]
fn anime4k_normal_maps_to_bundled_cnn_shader() {
    assert!(
        is_bundled_shader("Anime4K_Upscale_CNN_x2_M.glsl"),
        "normal modu için CNN_x2_M shader'ı bundle edilmiş olmalı"
    );
}

#[test]
fn only_the_carried_shaders_are_bundled() {
    assert!(is_bundled_shader("Anime4K_Upscale_CNN_x2_UL.glsl"));
    assert!(is_bundled_shader("Anime4K_Upscale_DTD_x2.glsl"));
    assert!(is_bundled_shader("Anime4K_Upscale_Original_x2.glsl"));
    assert!(!is_bundled_shader("Anime4K_Upscale_CNN_x2_S.glsl"));
    assert!(!is_bundled_shader(""));
}

#[test]
fn shader_candidates_in_search_order() {
    let n = "Anime4K_Upscale_DTD_x2.glsl";
    assert_eq!(
        shader_candidates(n, Some("/tmp/.mount_x"), true, Some("/opt/animecix")),
        vec![
            "/tmp/.mount_x/usr/share/animecix/assets/upscale/Anime4K_Upscale_DTD_x2.glsl".to_string(),
            "/app/share/animecix/assets/upscale/Anime4K_Upscale_DTD_x2.glsl".to_string(),
            "/usr/share/animecix/assets/upscale/Anime4K_Upscale_DTD_x2.glsl".to_string(),
            "/opt/animecix/usr/share/animecix/assets/upscale/Anime4K_Upscale_DTD_x2.glsl".to_string(),
            "/opt/animecix/assets/upscale/Anime4K_Upscale_DTD_x2.glsl".to_string(),
            "/opt/animecix/../../assets/upscale/Anime4K_Upscale_DTD_x2.glsl".to_string(),
        ]
    );
}

#[test]
fn shader_candidates_skip_what_is_missing() {
    let n = "a.glsl";
    assert_eq!(
        shader_candidates(n, Some(""), false, None),
        vec!["/usr/share/animecix/assets/upscale/a.glsl".to_string()]
    );
    assert_eq!(
        shader_candidates(n, Some("/r/"), false, Some("/")),
        vec![
            "/r/usr/share/animecix/assets/upscale/a.glsl".to_string(),
            "/usr/share/animecix/assets/upscale/a.glsl".to_string(),
            "/usr/share/animecix/assets/upscale/a.glsl".to_string(),
            "/assets/upscale/a.glsl".to_string(),
            "/../../assets/upscale/a.glsl".to_string(),
        ]
    );
    assert_eq!(
        shader_candidates("/abs/b.glsl", None, false, None),
        vec!["/abs/b.glsl".to_string()]
    );
}
