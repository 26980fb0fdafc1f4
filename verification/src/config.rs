use vstd::prelude::*;

use crate::decimal::{decimal, push_decimal};
use crate::legacy::TextSegment;
use crate::parkour::ParkourCourse;
use crate::outside::{
    block_kind_id, item_kind_id, lookup_block_kind, lookup_item_kind, lowercase, to_lowercase,
};
use crate::text::{same_text, StringExecFns};

verus! {

/// The game modes a player can be put in.
#[derive(Clone, Copy, Debug, PartialEq, Eq, Structural)]
pub enum GameModeKind {
    Survival,
    Creative,
    Adventure,
    Spectator,
}

/// The colours of the boss bar.
#[derive(Clone, Copy, Debug, PartialEq, Eq, Structural)]
pub enum BossBarColorKind {
    Pink,
    Blue,
    Red,
    Green,
    Yellow,
    Purple,
    White,
}

/// The ways the boss bar can be divided.
#[derive(Clone, Copy, Debug, PartialEq, Eq, Structural)]
pub enum BossBarDivisionKind {
    NoDivision,
    SixNotches,
    TenNotches,
    TwelveNotches,
    TwentyNotches,
}

/// A configuration value that is not one of those allowed, with the value given.
#[derive(Clone, Debug)]
pub enum ConfigError {
    InvalidGameMode(String),
    InvalidBossBarColor(String),
    InvalidBossBarDivision(u8),
    InvalidItemKind(String),
    InvalidBlockKind(String),
}

/// The lobby's settings, as the lobby's logic reads them: where the spawn is kept
/// loaded, what players see and are put in, and the parkour courses.
#[derive(Clone, Debug)]
pub struct LobbyConfig {
    pub spawn_chunk_corners: Option<[[i32; 2]; 2]>,
    pub game_mode: GameModeKind,
    pub kill_oob_players: bool,
    pub minimum_y_level: i32,
    pub chat_enabled: bool,
    pub scoreboard_title: Option<Vec<TextSegment>>,
    pub scoreboard_text: Option<Vec<String>>,
    pub boss_bar_text: Option<Vec<TextSegment>>,
    pub boss_bar_color: Option<BossBarColorKind>,
    pub boss_bar_division: Option<BossBarDivisionKind>,
    pub title_text: Option<Vec<TextSegment>>,
    pub title_subtext: Option<Vec<TextSegment>>,
    pub title_animation_enabled: bool,
    pub title_fade_in: Option<i32>,
    pub title_stay: Option<i32>,
    pub title_fade_out: Option<i32>,
    pub parkour: Vec<ParkourCourse>,
}

/// The game mode that a lowercase name stands for.
pub open spec fn game_mode_named(name: Seq<char>) -> Option<GameModeKind> {
    if name == "survival"@ {
        Some(GameModeKind::Survival)
    } else if name == "creative"@ {
        Some(GameModeKind::Creative)
    } else if name == "adventure"@ {
        Some(GameModeKind::Adventure)
    } else if name == "spectator"@ {
        Some(GameModeKind::Spectator)
    } else {
        None
    }
}

/// The boss bar colour that a lowercase name stands for.
pub open spec fn boss_bar_color_named(name: Seq<char>) -> Option<BossBarColorKind> {
    if name == "pink"@ {
        Some(BossBarColorKind::Pink)
    } else if name == "blue"@ {
        Some(BossBarColorKind::Blue)
    } else if name == "red"@ {
        Some(BossBarColorKind::Red)
    } else if name == "green"@ {
        Some(BossBarColorKind::Green)
    } else if name == "yellow"@ {
        Some(BossBarColorKind::Yellow)
    } else if name == "purple"@ {
        Some(BossBarColorKind::Purple)
    } else if name == "white"@ {
        Some(BossBarColorKind::White)
    } else {
        None
    }
}

/// The boss bar division that a number from 0 to 4 stands for.
pub open spec fn boss_bar_division_numbered(id: u8) -> Option<BossBarDivisionKind> {
    if id == 0 {
        Some(BossBarDivisionKind::NoDivision)
    } else if id == 1 {
        Some(BossBarDivisionKind::SixNotches)
    } else if id == 2 {
        Some(BossBarDivisionKind::TenNotches)
    } else if id == 3 {
        Some(BossBarDivisionKind::TwelveNotches)
    } else if id == 4 {
        Some(BossBarDivisionKind::TwentyNotches)
    } else {
        None
    }
}

/// The message that reports a configuration error.
pub open spec fn error_message(e: ConfigError) -> Seq<char> {
    match e {
        ConfigError::InvalidGameMode(s) => "Invalid game mode: "@ + s@,
        ConfigError::InvalidBossBarColor(s) => "Invalid boss bar color: "@ + s@,
        ConfigError::InvalidBossBarDivision(id) => "Invalid boss bar division: "@ + decimal(id as nat)
            + ". Must be between 0 and 4 (inclusive)."@,
        ConfigError::InvalidItemKind(s) => "Invalid item kind: "@ + s@,
        ConfigError::InvalidBlockKind(s) => "Invalid block kind: "@ + s@,
    }
}

impl ConfigError {
    /// The message that reports this error.
    pub fn message(&self) -> (m: String)
        ensures
            m@ == error_message(*self),
    {
        match self {
            ConfigError::InvalidGameMode(s) => String::from_str("Invalid game mode: ").concat(s.as_str()),
            ConfigError::InvalidBossBarColor(s) => String::from_str("Invalid boss bar color: ").concat(
                s.as_str(),
            ),
            ConfigError::InvalidBossBarDivision(id) => {
                let mut m = String::from_str("Invalid boss bar division: ");
                push_decimal(&mut m, *id as u64);
                m.append(". Must be between 0 and 4 (inclusive).");
                m
            },
            ConfigError::InvalidItemKind(s) => String::from_str("Invalid item kind: ").concat(s.as_str()),
            ConfigError::InvalidBlockKind(s) => String::from_str("Invalid block kind: ").concat(s.as_str()),
        }
    }
}

/// The game mode given as `name`, whose lowercase form is `lower`.
pub fn game_mode_from_lowercase(name: &str, lower: &str) -> (mode: Result<GameModeKind, ConfigError>)
    ensures
        match game_mode_named(lower@) {
            Some(m) => mode == Ok::<GameModeKind, ConfigError>(m),
            None => mode matches Err(ConfigError::InvalidGameMode(s)) && s@ == name@,
        },
{
    if same_text(lower, "survival") {
        Ok(GameModeKind::Survival)
    } else if same_text(lower, "creative") {
        Ok(GameModeKind::Creative)
    } else if same_text(lower, "adventure") {
        Ok(GameModeKind::Adventure)
    } else if same_text(lower, "spectator") {
        Ok(GameModeKind::Spectator)
    } else {
        Err(ConfigError::InvalidGameMode(String::from_str(name)))
    }
}

/// The game mode named by `name`, in any case.
pub fn parse_game_mode(name: &str) -> (mode: Result<GameModeKind, ConfigError>)
    ensures
        match game_mode_named(lowercase(name@)) {
            Some(m) => mode == Ok::<GameModeKind, ConfigError>(m),
            None => mode matches Err(ConfigError::InvalidGameMode(s)) && s@ == name@,
        },
{
    let lower = to_lowercase(name);
    game_mode_from_lowercase(name, lower.as_str())
}

/// The boss bar colour given as `name`, whose lowercase form is `lower`.
pub fn boss_bar_color_from_lowercase(name: &str, lower: &str) -> (color: Result<BossBarColorKind, ConfigError>)
    ensures
        match boss_bar_color_named(lower@) {
            Some(c) => color == Ok::<BossBarColorKind, ConfigError>(c),
            None => color matches Err(ConfigError::InvalidBossBarColor(s)) && s@ == name@,
        },
{
    if same_text(lower, "pink") {
        Ok(BossBarColorKind::Pink)
    } else if same_text(lower, "blue") {
        Ok(BossBarColorKind::Blue)
    } else if same_text(lower, "red") {
        Ok(BossBarColorKind::Red)
    } else if same_text(lower, "green") {
        Ok(BossBarColorKind::Green)
    } else if same_text(lower, "yellow") {
        Ok(BossBarColorKind::Yellow)
    } else if same_text(lower, "purple") {
        Ok(BossBarColorKind::Purple)
    } else if same_text(lower, "white") {
        Ok(BossBarColorKind::White)
    } else {
        Err(ConfigError::InvalidBossBarColor(String::from_str(name)))
    }
}

/// The boss bar colour named by `name`, in any case.
pub fn parse_boss_bar_color(name: &str) -> (color: Result<BossBarColorKind, ConfigError>)
    ensures
        match boss_bar_color_named(lowercase(name@)) {
            Some(c) => color == Ok::<BossBarColorKind, ConfigError>(c),
            None => color matches Err(ConfigError::InvalidBossBarColor(s)) && s@ == name@,
        },
{
    let lower = to_lowercase(name);
    boss_bar_color_from_lowercase(name, lower.as_str())
}

/// The boss bar division numbered `id`, from 0 (none) to 4 (twenty notches).
pub fn parse_boss_bar_division(id: u8) -> (division: Result<BossBarDivisionKind, ConfigError>)
    ensures
        match boss_bar_division_numbered(id) {
            Some(d) => division == Ok::<BossBarDivisionKind, ConfigError>(d),
            None => division matches Err(ConfigError::InvalidBossBarDivision(i)) && i == id,
        },
        division is Ok <==> id <= 4,
        id > 4 ==> (division matches Err(ConfigError::InvalidBossBarDivision(i)) && i == id),
{
    proof {
        lemma_boss_bar_divisions(id);
    }
    match id {
        0 => Ok(BossBarDivisionKind::NoDivision),
        1 => Ok(BossBarDivisionKind::SixNotches),
        2 => Ok(BossBarDivisionKind::TenNotches),
        3 => Ok(BossBarDivisionKind::TwelveNotches),
        4 => Ok(BossBarDivisionKind::TwentyNotches),
        _ => Err(ConfigError::InvalidBossBarDivision(id)),
    }
}

/// The item kind named `name`, from the raw id that the lookup of the name found.
pub fn item_kind_from_lookup(name: &str, found: Option<u16>) -> (item: Result<u16, ConfigError>)
    ensures
        match found {
            Some(id) => item == Ok::<u16, ConfigError>(id),
            None => item matches Err(ConfigError::InvalidItemKind(s)) && s@ == name@,
        },
{
    match found {
        Some(id) => Ok(id),
        None => Err(ConfigError::InvalidItemKind(String::from_str(name))),
    }
}

/// The raw id of the item kind whose snake_case name is `name`.
pub fn parse_item_kind(name: &str) -> (item: Result<u16, ConfigError>)
    ensures
        match item_kind_id(name@) {
            Some(id) => item == Ok::<u16, ConfigError>(id),
            None => item matches Err(ConfigError::InvalidItemKind(s)) && s@ == name@,
        },
{
    let found = lookup_item_kind(name);
    item_kind_from_lookup(name, found)
}

/// The block kind named `name`, from the raw id that the lookup of the name found.
pub fn block_kind_from_lookup(name: &str, found: Option<u16>) -> (block: Result<u16, ConfigError>)
    ensures
        match found {
            Some(id) => block == Ok::<u16, ConfigError>(id),
            None => block matches Err(ConfigError::InvalidBlockKind(s)) && s@ == name@,
        },
{
    match found {
        Some(id) => Ok(id),
        None => Err(ConfigError::InvalidBlockKind(String::from_str(name))),
    }
}

/// The raw id of the block kind whose snake_case name is `name`.
pub fn parse_block_kind(name: &str) -> (block: Result<u16, ConfigError>)
    ensures
        match block_kind_id(name@) {
            Some(id) => block == Ok::<u16, ConfigError>(id),
            None => block matches Err(ConfigError::InvalidBlockKind(s)) && s@ == name@,
        },
{
    let found = lookup_block_kind(name);
    block_kind_from_lookup(name, found)
}

/// Exactly the numbers 0 to 4 name a boss bar division, in this order: none, six,
/// ten, twelve and twenty notches; every larger number names none.
pub proof fn lemma_boss_bar_divisions(id: u8)
    ensures
        boss_bar_division_numbered(id) is Some <==> id <= 4,
        id == 0 ==> boss_bar_division_numbered(id) == Some(BossBarDivisionKind::NoDivision),
        id == 1 ==> boss_bar_division_numbered(id) == Some(BossBarDivisionKind::SixNotches),
        id == 2 ==> boss_bar_division_numbered(id) == Some(BossBarDivisionKind::TenNotches),
        id == 3 ==> boss_bar_division_numbered(id) == Some(BossBarDivisionKind::TwelveNotches),
        id == 4 ==> boss_bar_division_numbered(id) == Some(BossBarDivisionKind::TwentyNotches),
{
}

/// The message for a refused boss bar division names the number given: between
/// its fixed opening and closing words stand digits that read back as the number.
pub proof fn lemma_division_message_names_number(id: u8)
    ensures
        exists|digits: Seq<char>| {
            &&& error_message(ConfigError::InvalidBossBarDivision(id)) == "Invalid boss bar division: "@ + digits
                + ". Must be between 0 and 4 (inclusive)."@
            &&& digits.len() >= 1
            &&& forall|i: int| 0 <= i < digits.len() ==> crate::decimal::is_digit_char(#[trigger] digits[i])
            &&& crate::decimal::decimal_value(digits) == id
        },
{
    crate::decimal::lemma_decimal_round_trip(id as nat);
    let digits = decimal(id as nat);
    assert(error_message(ConfigError::InvalidBossBarDivision(id)) == "Invalid boss bar division: "@ + digits
        + ". Must be between 0 and 4 (inclusive)."@);
}

} // verus!
