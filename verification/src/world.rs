use vstd::prelude::*;

use crate::config::LobbyConfig;
use crate::text::StringExecFns;

verus! {

/// The number of whole values from `lo` to `hi`, both included.
pub open spec fn span(lo: int, hi: int) -> nat {
    if lo <= hi {
        (hi - lo + 1) as nat
    } else {
        0
    }
}

/// The chunks of the rectangle between two corners (`[x, z]` each, the first the
/// lower one), row by row: every `x` from the first corner's to the second's, and
/// for each of them every `z` likewise.
pub open spec fn spawn_chunks(corners: [[i32; 2]; 2]) -> Seq<(i32, i32)> {
    let x0 = corners[0][0] as int;
    let z0 = corners[0][1] as int;
    let nz = span(z0, corners[1][1] as int);
    Seq::new(
        span(x0, corners[1][0] as int) * nz,
        |k: int| ((x0 + k / (nz as int)) as i32, (z0 + k % (nz as int)) as i32),
    )
}

/// Whether `chunk` lies between the two corners.
pub open spec fn in_spawn_area(corners: [[i32; 2]; 2], chunk: (i32, i32)) -> bool {
    &&& corners[0][0] <= chunk.0 <= corners[1][0]
    &&& corners[0][1] <= chunk.1 <= corners[1][1]
}

/// The first chunk to load: the first corner, when the area holds any chunk.
pub open spec fn spawn_area_first(corners: [[i32; 2]; 2]) -> Option<(i32, i32)> {
    if corners[0][0] <= corners[1][0] && corners[0][1] <= corners[1][1] {
        Some((corners[0][0], corners[0][1]))
    } else {
        None
    }
}

/// The chunk to load after `chunk`: the next one along `z`, or the start of the
/// next row of `x`, or none after the second corner.
pub open spec fn spawn_area_next(corners: [[i32; 2]; 2], chunk: (i32, i32)) -> Option<(i32, i32)> {
    if chunk.1 < corners[1][1] {
        Some((chunk.0, (chunk.1 + 1) as i32))
    } else if chunk.0 < corners[1][0] {
        Some(((chunk.0 + 1) as i32, corners[0][1]))
    } else {
        None
    }
}

/// The first chunk of the spawn area to load, if the area holds any.
pub fn first_spawn_chunk(corners: [[i32; 2]; 2]) -> (first: Option<(i32, i32)>)
    ensures
        first == spawn_area_first(corners),
        first matches Some(c) ==> in_spawn_area(corners, c),
{
    if corners[0][0] <= corners[1][0] && corners[0][1] <= corners[1][1] {
        Some((corners[0][0], corners[0][1]))
    } else {
        None
    }
}

/// The chunk of the spawn area to load after `chunk`, if any.
pub fn next_spawn_chunk(corners: [[i32; 2]; 2], chunk: (i32, i32)) -> (next: Option<(i32, i32)>)
    requires
        in_spawn_area(corners, chunk),
    ensures
        next == spawn_area_next(corners, chunk),
        next matches Some(c) ==> in_spawn_area(corners, c),
{
    if chunk.1 < corners[1][1] {
        Some((chunk.0, chunk.1 + 1))
    } else if chunk.0 < corners[1][0] {
        Some((chunk.0 + 1, corners[0][1]))
    } else {
        None
    }
}

/// The chunk reached from the first after `k` steps, if the walk lasts that long.
pub open spec fn spawn_walk(corners: [[i32; 2]; 2], k: nat) -> Option<(i32, i32)>
    decreases k,
{
    if k == 0 {
        spawn_area_first(corners)
    } else {
        match spawn_walk(corners, (k - 1) as nat) {
            Some(c) => spawn_area_next(corners, c),
            None => None,
        }
    }
}

/// Walking the spawn area from its first chunk, one next chunk at a time, visits
/// every chunk between the corners exactly once, row by row, and then stops.
pub proof fn lemma_spawn_walk(corners: [[i32; 2]; 2], k: nat)
    ensures
        k < spawn_chunks(corners).len() ==> spawn_walk(corners, k) == Some(spawn_chunks(corners)[k as int]),
        k >= spawn_chunks(corners).len() ==> spawn_walk(corners, k) is None,
    decreases k,
{
    let x0 = corners[0][0] as int;
    let z0 = corners[0][1] as int;
    let x1 = corners[1][0] as int;
    let z1 = corners[1][1] as int;
    let nx = span(x0, x1);
    let nz = span(z0, z1);
    let n = spawn_chunks(corners).len();
    assert(n == nx * nz);
    if nx == 0 || nz == 0 {
        assert(nx * nz == 0) by (nonlinear_arith)
            requires nx == 0 || nz == 0;
        if k > 0 {
            lemma_spawn_walk(corners, (k - 1) as nat);
        }
        return;
    }
    assert(nx * nz > 0) by (nonlinear_arith)
        requires nx > 0, nz > 0;
    if k == 0 {
        vstd::arithmetic::div_mod::lemma_fundamental_div_mod_converse(0, nz as int, 0, 0);
        return;
    }
    lemma_spawn_walk(corners, (k - 1) as nat);
    if k - 1 >= n {
        return;
    }
    let p = k - 1;
    let i = p / (nz as int);
    let j = p % (nz as int);
    vstd::arithmetic::div_mod::lemma_fundamental_div_mod(p, nz as int);
    assert(0 <= j < nz);
    assert(p == i * nz + j);
    assert(0 <= i < nx) by (nonlinear_arith)
        requires p == i * nz + j, 0 <= j < nz, 0 <= p < nx * nz, nz > 0;
    let here = spawn_chunks(corners)[p];
    assert(here == ((x0 + i) as i32, (z0 + j) as i32));
    if j < nz - 1 {
        assert(k == i * nz + (j + 1));
        assert(k < n) by (nonlinear_arith)
            requires k == i * nz + (j + 1), j + 1 < nz, i < nx, n == nx * nz;
        vstd::arithmetic::div_mod::lemma_fundamental_div_mod_converse(k as int, nz as int, i, j + 1);
    } else if i < nx - 1 {
        assert(k == (i + 1) * nz) by (nonlinear_arith)
            requires k == p + 1, p == i * nz + j, j == nz - 1;
        assert(k < n) by (nonlinear_arith)
            requires k == (i + 1) * nz, i + 1 < nx, n == nx * nz, nz > 0;
        vstd::arithmetic::div_mod::lemma_fundamental_div_mod_converse(k as int, nz as int, i + 1, 0);
    } else {
        assert(k == n) by (nonlinear_arith)
            requires k == p + 1, p == i * nz + j, j == nz - 1, i == nx - 1, n == nx * nz;
    }
}

/// The scores of the sidebar lines: read from the bottom line up, the line at
/// position `i` from the bottom scores `i`, and a line that occurs more than once
/// keeps the score of its topmost occurrence (the last one given).
pub open spec fn scoreboard_map(lines: Seq<Seq<char>>) -> Map<Seq<char>, i32>
    decreases lines.len(),
{
    if lines.len() == 0 {
        Map::empty()
    } else {
        scoreboard_map(lines.drop_first()).insert(lines[0], (lines.len() - 1) as i32)
    }
}

/// The position of the first (topmost) occurrence of `line` in `lines`.
pub open spec fn first_index_of(lines: Seq<Seq<char>>, line: Seq<char>) -> int
    decreases lines.len(),
{
    if lines.len() == 0 || lines[0] == line {
        0
    } else {
        1 + first_index_of(lines.drop_first(), line)
    }
}

/// Each distinct line of the sidebar gets one score: the number of lines below
/// its topmost occurrence; no other text gets a score. With fewer lines than
/// `i32::MAX`, of two different lines the one that first occurs higher up scores
/// higher.
pub proof fn lemma_scoreboard_scores(lines: Seq<Seq<char>>)
    ensures
        forall|line: Seq<char>| #[trigger] scoreboard_map(lines).dom().contains(line) <==> lines.contains(line),
        forall|j: int| 0 <= j < lines.len() ==> {
            &&& 0 <= first_index_of(lines, #[trigger] lines[j]) <= j
            &&& lines[first_index_of(lines, lines[j])] == lines[j]
            &&& scoreboard_map(lines)[lines[j]] == (lines.len() - 1 - first_index_of(lines, lines[j])) as i32
        },
        lines.len() <= i32::MAX ==> forall|i: int, j: int|
            0 <= i < lines.len() && 0 <= j < lines.len()
                && first_index_of(lines, #[trigger] lines[i]) < first_index_of(lines, #[trigger] lines[j])
                ==> scoreboard_map(lines)[lines[i]] > scoreboard_map(lines)[lines[j]],
    decreases lines.len(),
{
    if lines.len() > 0 {
        let rest = lines.drop_first();
        lemma_scoreboard_scores(rest);
        let top = (lines.len() - 1) as i32;
        assert(scoreboard_map(lines) == scoreboard_map(rest).insert(lines[0], top));
        assert forall|line: Seq<char>| #[trigger] scoreboard_map(lines).dom().contains(line) <==> lines.contains(line) by {
            if line == lines[0] {
                assert(lines[0] == line);
            } else {
                assert(scoreboard_map(lines).dom().contains(line) == scoreboard_map(rest).dom().contains(line));
            }
            if lines.contains(line) && line != lines[0] {
                let k = choose|k: int| 0 <= k < lines.len() && lines[k] == line;
                assert(rest[k - 1] == line);
            }
            if rest.contains(line) {
                let k = choose|k: int| 0 <= k < rest.len() && rest[k] == line;
                assert(lines[k + 1] == line);
            }
        }
        assert forall|j: int| 0 <= j < lines.len() implies {
            &&& 0 <= first_index_of(lines, #[trigger] lines[j]) <= j
            &&& lines[first_index_of(lines, lines[j])] == lines[j]
            &&& scoreboard_map(lines)[lines[j]] == (lines.len() - 1 - first_index_of(lines, lines[j])) as i32
        } by {
            if lines[j] != lines[0] {
                assert(rest[j - 1] == lines[j]);
            }
        }
    }
}

/// The characters of each line.
pub open spec fn lines_view(lines: Seq<String>) -> Seq<Seq<char>> {
    lines.map_values(|s: String| s@)
}

/// The entries hold each line once, with its score, and every line of the map.
pub open spec fn entries_match(entries: Seq<(String, i32)>, scores: Map<Seq<char>, i32>) -> bool {
    &&& forall|a: int, b: int| 0 <= a < b < entries.len() ==> (#[trigger] entries[a]).0@ != (#[trigger] entries[b]).0@
    &&& forall|k: int| 0 <= k < entries.len() ==> {
        &&& scores.dom().contains((#[trigger] entries[k]).0@)
        &&& scores[entries[k].0@] == entries[k].1
    }
    &&& forall|line: Seq<char>| #[trigger] scores.dom().contains(line) ==> exists|k: int| 0 <= k < entries.len() && (#[trigger] entries[k]).0@ == line
}

/// The sidebar scores of `lines`, given top line first, one entry per distinct line.
pub fn scoreboard_scores(lines: &Vec<String>) -> (entries: Vec<(String, i32)>)
    ensures
        entries_match(entries@, scoreboard_map(lines_view(lines@))),
{
    let n = lines.len();
    let ghost all = lines_view(lines@);
    let mut entries: Vec<(String, i32)> = Vec::new();
    let mut j: usize = n;
    assert(all.subrange(n as int, n as int) =~= Seq::<Seq<char>>::empty());
    while j > 0
        invariant
            j <= n,
            n == lines@.len(),
            all == lines_view(lines@),
            entries_match(entries@, scoreboard_map(all.subrange(j as int, n as int))),
        decreases j,
    {
        let ghost before = scoreboard_map(all.subrange(j as int, n as int));
        let score = (n - j) as i32;
        let ghost after = before.insert(all[j - 1], score);
        proof {
            let sub = all.subrange(j - 1, n as int);
            assert(sub.drop_first() =~= all.subrange(j as int, n as int));
            assert(sub[0] == all[j - 1]);
            assert(scoreboard_map(sub) == after);
        }
        let line = &lines[j - 1];
        assert(line@ == all[j - 1]);
        let mut k: usize = 0;
        let mut found = false;
        while k < entries.len() && !found
            invariant
                k <= entries@.len(),
                found ==> k < entries@.len() && entries@[k as int].0@ == line@,
                !found ==> forall|m: int| 0 <= m < k ==> (#[trigger] entries@[m]).0@ != line@,
            decreases entries.len() - k, if found { 0int } else { 1int },
        {
            if entries[k].0 == *line {
                found = true;
            } else {
                k = k + 1;
            }
        }
        if found {
            let ghost old_entries = entries@;
            entries.set(k, (line.clone(), score));
            proof {
                assert forall|line2: Seq<char>| #[trigger] after.dom().contains(line2)
                    implies exists|m: int| 0 <= m < entries@.len() && (#[trigger] entries@[m]).0@ == line2 by {
                    if line2 == line@ {
                        assert(entries@[k as int].0@ == line2);
                    } else {
                        let m = choose|m: int| 0 <= m < old_entries.len() && (#[trigger] old_entries[m]).0@ == line2;
                        assert(entries@[m].0@ == line2);
                    }
                }
            }
        } else {
            let ghost old_entries = entries@;
            entries.push((line.clone(), score));
            proof {
                assert forall|line2: Seq<char>| #[trigger] after.dom().contains(line2)
                    implies exists|m: int| 0 <= m < entries@.len() && (#[trigger] entries@[m]).0@ == line2 by {
                    if line2 == line@ {
                        assert(entries@[old_entries.len() as int].0@ == line2);
                    } else {
                        let m = choose|m: int| 0 <= m < old_entries.len() && (#[trigger] old_entries[m]).0@ == line2;
                        assert(entries@[m].0@ == line2);
                    }
                }
            }
        }
        j = j - 1;
    }
    assert(all.subrange(0, n as int) =~= all);
    entries
}

/// The sidebar's scores when the sidebar has a title; its lines default to none.
pub fn sidebar_scores(config: &LobbyConfig) -> (scores: Option<Vec<(String, i32)>>)
    ensures
        scores is Some <==> config.scoreboard_title is Some,
        scores matches Some(entries) ==> entries_match(
            entries@,
            scoreboard_map(
                match config.scoreboard_text {
                    Some(lines) => lines_view(lines@),
                    None => Seq::empty(),
                },
            ),
        ),
{
    match &config.scoreboard_title {
        None => None,
        Some(_) => match &config.scoreboard_text {
            Some(lines) => Some(scoreboard_scores(lines)),
            None => {
                let none: Vec<String> = Vec::new();
                assert(lines_view(none@) =~= Seq::<Seq<char>>::empty());
                Some(scoreboard_scores(&none))
            },
        },
    }
}

/// The fade-in, stay and fade-out times of the title, in ticks.
#[derive(Clone, Copy, Debug, PartialEq, Eq, Structural)]
pub struct TitleTimes {
    pub fade_in: i32,
    pub stay: i32,
    pub fade_out: i32,
}

/// How the welcome title is shown to a joining player.
#[derive(Clone, Copy, Debug, PartialEq, Eq, Structural)]
pub struct TitleActions {
    /// The configured subtitle is shown too.
    pub show_subtitle: bool,
    /// The fade-in, stay and fade-out times, in ticks, when they are set.
    pub times: Option<TitleTimes>,
}

/// How the welcome title is shown, when there is one: with the subtitle when one is
/// configured, and with the configured times (0 for each that is missing) when the
/// title animation is enabled.
pub fn title_actions(config: &LobbyConfig) -> (actions: Option<TitleActions>)
    ensures
        actions is Some <==> config.title_text is Some,
        actions matches Some(a) ==> {
            &&& a.show_subtitle == config.title_subtext is Some
            &&& a.times == if config.title_animation_enabled {
                Some(
                    TitleTimes {
                        fade_in: match config.title_fade_in {
                            Some(t) => t,
                            None => 0,
                        },
                        stay: match config.title_stay {
                            Some(t) => t,
                            None => 0,
                        },
                        fade_out: match config.title_fade_out {
                            Some(t) => t,
                            None => 0,
                        },
                    },
                )
            } else {
                None
            }
        },
{
    if config.title_text.is_none() {
        return None;
    }
    let times = if config.title_animation_enabled {
        Some(
            TitleTimes {
                fade_in: config.title_fade_in.unwrap_or(0),
                stay: config.title_stay.unwrap_or(0),
                fade_out: config.title_fade_out.unwrap_or(0),
            },
        )
    } else {
        None
    };
    Some(TitleActions { show_subtitle: config.title_subtext.is_some(), times })
}

/// Whether a player whose feet are in block row `block_y` (the height rounded
/// down) has fallen below the minimum level and is sent back to the spawn. For an
/// integer minimum this is exactly whether the height itself is below it.
pub fn is_out_of_bounds(config: &LobbyConfig, block_y: i64) -> (reset: bool)
    ensures
        reset == (config.kill_oob_players && block_y < config.minimum_y_level),
{
    config.kill_oob_players && block_y < config.minimum_y_level as i64
}

/// The chat line that relays `message` from `username` to every player.
pub fn chat_line(username: &str, message: &str) -> (line: String)
    ensures
        line@ == "<"@ + username@ + "> "@ + message@,
{
    let mut line = String::from_str("<");
    line.append(username);
    line.append("> ");
    line.append(message);
    line
}

} // verus!
