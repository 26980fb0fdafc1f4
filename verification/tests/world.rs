use std::collections::HashMap;

use parkour_lobby::config::{GameModeKind, LobbyConfig};
use parkour_lobby::world::{
    chat_line, first_spawn_chunk, is_out_of_bounds, next_spawn_chunk, scoreboard_scores,
    sidebar_scores, title_actions, TitleActions, TitleTimes,
};

fn config() -> LobbyConfig {
    LobbyConfig {
        spawn_chunk_corners: None,
        game_mode: GameModeKind::Adventure,
        kill_oob_players: true,
        minimum_y_level: 0,
        chat_enabled: true,
        scoreboard_title: None,
        scoreboard_text: None,
        boss_bar_text: None,
        boss_bar_color: None,
        boss_bar_division: None,
        title_text: None,
        title_subtext: None,
        title_animation_enabled: false,
        title_fade_in: None,
        title_stay: None,
        title_fade_out: None,
        parkour: Vec::new(),
    }
}

fn walk(corners: [[i32; 2]; 2]) -> Vec<(i32, i32)> {
    let mut chunks = Vec::new();
    let mut next = first_spawn_chunk(corners);
    while let Some(chunk) = next {
        chunks.push(chunk);
        next = next_spawn_chunk(corners, chunk);
    }
    chunks
}

#[test]
fn spawn_chunks_row_by_row() {
    assert_eq!(
        walk([[-1, 0], [0, 2]]),
        vec![(-1, 0), (-1, 1), (-1, 2), (0, 0), (0, 1), (0, 2)]
    );
    assert_eq!(walk([[3, 3], [3, 3]]), vec![(3, 3)]);
    assert!(walk([[1, 0], [0, 5]]).is_empty());
    assert!(walk([[0, 1], [5, 0]]).is_empty());
    assert_eq!(walk([[i32::MAX, i32::MIN], [i32::MAX, i32::MIN]]), vec![(i32::MAX, i32::MIN)]);
    assert_eq!(
        walk([[i32::MAX - 1, i32::MAX - 1], [i32::MAX, i32::MAX]]),
        vec![
            (i32::MAX - 1, i32::MAX - 1),
            (i32::MAX - 1, i32::MAX),
            (i32::MAX, i32::MAX - 1),
            (i32::MAX, i32::MAX),
        ]
    );
}

#[test]
fn spawn_walk_matches_nested_ranges() {
    let corners = [[-2, 5], [1, 7]];
    let mut expected = Vec::new();
    for x in corners[0][0]..=corners[1][0] {
        for z in corners[0][1]..=corners[1][1] {
            expected.push((x, z));
        }
    }
    assert_eq!(walk(corners), expected);
    assert_eq!(next_spawn_chunk(corners, (1, 7)), None);
}

fn as_map(entries: Vec<(String, i32)>) -> HashMap<String, i32> {
    let n = entries.len();
    let map: HashMap<String, i32> = entries.into_iter().collect();
    assert_eq!(map.len(), n, "each line occurs once");
    map
}

#[test]
fn sidebar_scores_count_lines_below() {
    let lines: Vec<String> = ["Welcome", "to the", "lobby"].iter().map(|s| s.to_string()).collect();
    let map = as_map(scoreboard_scores(&lines));
    assert_eq!(map.len(), 3);
    assert_eq!(map["Welcome"], 2);
    assert_eq!(map["to the"], 1);
    assert_eq!(map["lobby"], 0);
}

#[test]
fn repeated_sidebar_lines_keep_the_topmost_score() {
    let lines: Vec<String> = ["a", "b", "a", "", ""].iter().map(|s| s.to_string()).collect();
    let map = as_map(scoreboard_scores(&lines));
    assert_eq!(map.len(), 3);
    assert_eq!(map["a"], 4);
    assert_eq!(map["b"], 3);
    assert_eq!(map[""], 1);
    // The same as collecting the reversed, numbered lines into a map.
    let expected: HashMap<String, i32> = lines
        .iter()
        .rev()
        .enumerate()
        .map(|(i, text)| (text.clone(), i as i32))
        .collect();
    assert_eq!(map, expected);
}

#[test]
fn sidebar_only_with_a_title() {
    let mut c = config();
    assert!(sidebar_scores(&c).is_none());
    c.scoreboard_title = Some(Vec::new());
    assert!(sidebar_scores(&c).unwrap().is_empty());
    c.scoreboard_text = Some(vec!["x".to_string()]);
    assert_eq!(sidebar_scores(&c).unwrap(), vec![("x".to_string(), 0)]);
}

#[test]
fn title_only_when_configured() {
    let mut c = config();
    assert_eq!(title_actions(&c), None);
    c.title_text = Some(Vec::new());
    assert_eq!(title_actions(&c), Some(TitleActions { show_subtitle: false, times: None }));
    c.title_subtext = Some(Vec::new());
    c.title_animation_enabled = true;
    c.title_stay = Some(60);
    assert_eq!(
        title_actions(&c),
        Some(TitleActions {
            show_subtitle: true,
            times: Some(TitleTimes { fade_in: 0, stay: 60, fade_out: 0 })
        })
    );
}

#[test]
fn players_below_the_minimum_are_reset() {
    let mut c = config();
    c.minimum_y_level = -10;
    assert!(is_out_of_bounds(&c, -11));
    assert!(!is_out_of_bounds(&c, -10));
    assert!(!is_out_of_bounds(&c, 64));
    c.kill_oob_players = false;
    assert!(!is_out_of_bounds(&c, -100));
}

#[test]
fn chat_lines_name_the_sender() {
    assert_eq!(chat_line("Steve", "hello there"), "<Steve> hello there");
    assert_eq!(chat_line("", ""), "<> ");
}
