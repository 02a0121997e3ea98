use minecraft_assets::{is_asset_name, sanitize_filename};

#[test]
fn sanitize_keeps_a_name_without_terminator() {
    assert_eq!(
        sanitize_filename("assets/minecraft/sounds/a.ogg"),
        "assets/minecraft/sounds/a.ogg"
    );
}

#[test]
fn sanitize_keeps_the_empty_name() {
    assert_eq!(sanitize_filename(""), "");
}

#[test]
fn sanitize_cuts_at_the_terminator() {
    assert_eq!(sanitize_filename("abc\0def"), "abc");
}

#[test]
fn sanitize_cuts_at_the_first_of_several_terminators() {
    assert_eq!(sanitize_filename("ab\0cd\0ef"), "ab");
}

#[test]
fn sanitize_cuts_a_leading_terminator_to_nothing() {
    assert_eq!(sanitize_filename("\0abc"), "");
}

#[test]
fn sanitize_cuts_a_trailing_terminator() {
    assert_eq!(sanitize_filename("abc\0"), "abc");
}

#[test]
fn sanitize_counts_characters_not_bytes() {
    assert_eq!(sanitize_filename("päck/ü\0ö"), "päck/ü");
    assert_eq!(sanitize_filename("日本語\0x"), "日本語");
}

#[test]
fn sanitize_drops_a_traversal_behind_the_terminator() {
    assert_eq!(
        sanitize_filename("assets/minecraft/x\0../../evil"),
        "assets/minecraft/x"
    );
}

#[test]
fn sanitize_keeps_a_traversal_without_terminator() {
    assert_eq!(
        sanitize_filename("assets/minecraft/../../evil"),
        "assets/minecraft/../../evil"
    );
}

#[test]
fn sanitize_twice_is_sanitize_once() {
    let names = vec![
        "",
        "plain",
        "a\0b",
        "\0",
        "\0\0",
        "assets/minecraft/x\0../../evil",
        "é\0é\0é",
    ];
    for name in names {
        let once = sanitize_filename(name);
        let twice = sanitize_filename(&once);
        assert_eq!(twice, once);
        assert!(!once.contains('\0'));
        assert!(name.starts_with(once.as_str()));
    }
}

#[test]
fn sanitize_cuts_at_every_position() {
    let full = "assets/minecraft/lang/en_us.json";
    for k in 0..full.len() {
        let mut name = String::from(&full[..k]);
        name.push('\0');
        name.push_str(&full[k..]);
        assert_eq!(sanitize_filename(&name), &full[..k]);
    }
}

#[test]
fn asset_names_start_with_the_prefix() {
    assert!(is_asset_name("assets/minecraft/sounds/a.ogg"));
    assert!(is_asset_name("assets/minecraft/textures/b.png"));
    assert!(is_asset_name("assets/minecraft"));
    assert!(is_asset_name("assets/minecraft/"));
}

#[test]
fn asset_prefix_is_no_directory_boundary() {
    assert!(is_asset_name("assets/minecraft_extra/c.txt"));
}

#[test]
fn other_names_are_no_assets() {
    assert!(!is_asset_name("pack.mcmeta"));
    assert!(!is_asset_name(""));
    assert!(!is_asset_name("assets/minecraf"));
    assert!(!is_asset_name("assets/"));
    assert!(!is_asset_name("Assets/minecraft/a"));
    assert!(!is_asset_name("/assets/minecraft/a"));
    assert!(!is_asset_name("data/assets/minecraft/a"));
    assert!(!is_asset_name("assets\\minecraft\\a"));
}

#[test]
fn a_terminator_within_the_prefix_makes_no_asset() {
    assert!(!is_asset_name("assets\0/minecraft/a"));
    assert!(!is_asset_name("\0assets/minecraft/a"));
}

#[test]
fn a_terminator_behind_the_prefix_leaves_an_asset() {
    let name = "assets/minecraft\0/../x";
    assert!(is_asset_name(name));
    assert_eq!(sanitize_filename(name), "assets/minecraft");
    assert!(is_asset_name(&sanitize_filename(name)));
}

#[test]
fn asset_names_agree_with_starts_with() {
    let names = vec![
        "assets/minecraft/a",
        "assets/minecrafta",
        "assets/minecraf/t",
        "ässets/minecraft",
        "assets/minecraft\u{e9}",
        "a",
    ];
    for name in names {
        assert_eq!(is_asset_name(name), name.starts_with("assets/minecraft"));
    }
}
