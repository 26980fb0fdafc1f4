use parkour_lobby::config::{
    block_kind_from_lookup, boss_bar_color_from_lowercase, game_mode_from_lowercase,
    item_kind_from_lookup, parse_block_kind, parse_boss_bar_color, parse_boss_bar_division,
    parse_game_mode, parse_item_kind, BossBarColorKind, BossBarDivisionKind, ConfigError,
    GameModeKind,
};

#[test]
fn game_mode_names_in_any_case() {
    assert_eq!(parse_game_mode("survival").unwrap(), GameModeKind::Survival);
    assert_eq!(parse_game_mode("Creative").unwrap(), GameModeKind::Creative);
    assert_eq!(parse_game_mode("ADVENTURE").unwrap(), GameModeKind::Adventure);
    assert_eq!(parse_game_mode("SpEcTaToR").unwrap(), GameModeKind::Spectator);
}

#[test]
fn unknown_game_mode_is_refused() {
    match parse_game_mode("hardcore") {
        Err(ConfigError::InvalidGameMode(s)) => assert_eq!(s, "hardcore"),
        other => panic!("unexpected: {:?}", other),
    }
    let err = parse_game_mode("Hardcore").unwrap_err();
    assert_eq!(err.message(), "Invalid game mode: Hardcore");
}

#[test]
fn game_mode_matches_the_lowercase_form_only() {
    assert_eq!(game_mode_from_lowercase("CREATIVE", "creative").unwrap(), GameModeKind::Creative);
    assert!(game_mode_from_lowercase("creative", "CREATIVE").is_err());
}

#[test]
fn kelvin_sign_lowercases_to_k() {
    // U+212A KELVIN SIGN lowercases to an ASCII `k`.
    assert_eq!(parse_boss_bar_color("pin\u{212A}").unwrap(), BossBarColorKind::Pink);
}

#[test]
fn boss_bar_colors() {
    assert_eq!(parse_boss_bar_color("pink").unwrap(), BossBarColorKind::Pink);
    assert_eq!(parse_boss_bar_color("Blue").unwrap(), BossBarColorKind::Blue);
    assert_eq!(parse_boss_bar_color("RED").unwrap(), BossBarColorKind::Red);
    assert_eq!(parse_boss_bar_color("green").unwrap(), BossBarColorKind::Green);
    assert_eq!(parse_boss_bar_color("yellow").unwrap(), BossBarColorKind::Yellow);
    assert_eq!(parse_boss_bar_color("purple").unwrap(), BossBarColorKind::Purple);
    assert_eq!(parse_boss_bar_color("white").unwrap(), BossBarColorKind::White);
    let err = parse_boss_bar_color("black").unwrap_err();
    assert_eq!(err.message(), "Invalid boss bar color: black");
    assert!(boss_bar_color_from_lowercase("x", "white").is_ok());
}

#[test]
fn boss_bar_divisions() {
    assert_eq!(parse_boss_bar_division(0).unwrap(), BossBarDivisionKind::NoDivision);
    assert_eq!(parse_boss_bar_division(1).unwrap(), BossBarDivisionKind::SixNotches);
    assert_eq!(parse_boss_bar_division(2).unwrap(), BossBarDivisionKind::TenNotches);
    assert_eq!(parse_boss_bar_division(3).unwrap(), BossBarDivisionKind::TwelveNotches);
    assert_eq!(parse_boss_bar_division(4).unwrap(), BossBarDivisionKind::TwentyNotches);
    let err = parse_boss_bar_division(5).unwrap_err();
    assert_eq!(
        err.message(),
        "Invalid boss bar division: 5. Must be between 0 and 4 (inclusive)."
    );
    let err = parse_boss_bar_division(255).unwrap_err();
    assert_eq!(
        err.message(),
        "Invalid boss bar division: 255. Must be between 0 and 4 (inclusive)."
    );
}

#[test]
fn item_kinds_by_name() {
    let barrier = parse_item_kind("barrier").unwrap();
    let stone = parse_item_kind("stone").unwrap();
    assert_ne!(barrier, stone);
    let err = parse_item_kind("not_an_item").unwrap_err();
    assert_eq!(err.message(), "Invalid item kind: not_an_item");
    assert_eq!(item_kind_from_lookup("x", Some(7)).unwrap(), 7);
    assert!(item_kind_from_lookup("x", None).is_err());
}

#[test]
fn block_kinds_by_name() {
    let stone = parse_block_kind("stone").unwrap();
    let dirt = parse_block_kind("dirt").unwrap();
    assert_ne!(stone, dirt);
    let err = parse_block_kind("Stone").unwrap_err();
    assert_eq!(err.message(), "Invalid block kind: Stone");
    assert_eq!(block_kind_from_lookup("x", Some(3)).unwrap(), 3);
    assert!(matches!(block_kind_from_lookup("x", None), Err(ConfigError::InvalidBlockKind(_))));
}
