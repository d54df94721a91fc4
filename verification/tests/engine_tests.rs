use gitlogue::animation::{
    AnimationEngine, AnimationFrame, EngineState, FrameKind, RevealGranularity,
};
use gitlogue::git::{DiffHunk, DiffLine, DiffLineKind};
use gitlogue::playback::{shuffled_positions, PlaybackState};
use gitlogue::theme::{Color, Theme, ThemeError};
use gitlogue::PlaybackOrder;

fn line(kind: DiffLineKind, content: &str) -> DiffLine {
    DiffLine { kind, content: content.to_string() }
}

fn sample_diff() -> Vec<DiffHunk> {
    vec![
        DiffHunk {
            file: "a.rs".to_string(),
            lines: vec![
                line(DiffLineKind::Removed, "old"),
                line(DiffLineKind::Added, "ab"),
                line(DiffLineKind::Unchanged, "ctx"),
            ],
        },
        DiffHunk {
            file: "b.rs".to_string(),
            lines: vec![line(DiffLineKind::Added, "")],
        },
    ]
}

fn frame(hunk: usize, line: usize, kind: FrameKind, visible: usize) -> AnimationFrame {
    AnimationFrame { hunk, line, kind, visible }
}

// Character granularity: per hunk all removing frames come first, then
// each added line is revealed one character per frame; an unchanged
// line takes no frame and an empty added line takes exactly one.
#[test]
fn character_frames_exact() {
    let mut engine = AnimationEngine::new();
    engine.start(&sample_diff(), RevealGranularity::Character);
    let expected = vec![
        frame(0, 0, FrameKind::Removing, 3),
        frame(0, 1, FrameKind::Revealing, 1),
        frame(0, 1, FrameKind::Revealing, 2),
        frame(1, 0, FrameKind::Revealing, 0),
    ];
    let mut seen = Vec::new();
    while let Some(f) = engine.current_frame() {
        seen.push(f);
        engine.tick();
    }
    assert_eq!(seen, expected);
    assert_eq!(engine.state, EngineState::Finished);
    assert!(engine.current_frame().is_none());
}

// Line granularity reveals each added line in a single frame.
#[test]
fn line_granularity_frames() {
    let mut engine = AnimationEngine::new();
    engine.start(&sample_diff(), RevealGranularity::Line);
    let expected = vec![
        frame(0, 0, FrameKind::Removing, 3),
        frame(0, 1, FrameKind::Revealing, 2),
        frame(1, 0, FrameKind::Revealing, 0),
    ];
    let mut seen = Vec::new();
    while let Some(f) = engine.current_frame() {
        seen.push(f);
        engine.tick();
    }
    assert_eq!(seen, expected);
}

// Starting a new animation while one is playing discards the prior
// frame cursor completely: reset followed by start always begins at
// frame 0, whatever was ticked before.
#[test]
fn interruption_restarts_at_frame_zero() {
    let diff = sample_diff();
    let mut engine = AnimationEngine::new();
    engine.start(&diff, RevealGranularity::Character);
    engine.tick();
    engine.tick();
    assert_ne!(engine.current_frame().unwrap(), frame(0, 0, FrameKind::Removing, 3));

    engine.reset();
    assert_eq!(engine.state, EngineState::Idle);
    assert!(engine.current_frame().is_none());

    engine.start(&diff, RevealGranularity::Character);
    assert_eq!(engine.state, EngineState::Playing);
    assert_eq!(engine.current_frame().unwrap(), frame(0, 0, FrameKind::Removing, 3));
}

// An empty diff still starts playing; the first tick ends it.
#[test]
fn empty_diff_playback() {
    let mut engine = AnimationEngine::new();
    engine.start(&Vec::new(), RevealGranularity::Character);
    assert_eq!(engine.state, EngineState::Playing);
    assert!(engine.current_frame().is_none());
    engine.tick();
    assert_eq!(engine.state, EngineState::Finished);
}

// A ticked-out engine stays finished; ticking an idle engine does
// nothing.
#[test]
fn tick_is_noop_outside_playing() {
    let mut engine = AnimationEngine::new();
    engine.tick();
    assert_eq!(engine.state, EngineState::Idle);
    engine.start(&sample_diff(), RevealGranularity::Line);
    for _ in 0..10 {
        engine.tick();
    }
    assert_eq!(engine.state, EngineState::Finished);
}

// A shuffled cycle is a permutation: sorting it gives back every
// position exactly once.
#[test]
fn shuffle_is_permutation() {
    for seed in [0u64, 1, 42, 0xdead_beef] {
        let mut v = shuffled_positions(12, seed);
        v.sort();
        let expected: Vec<usize> = (0..12).collect();
        assert_eq!(v, expected);
    }
}

// Random order over one full non-looping cycle of size N visits each
// index exactly once: the collected indices are a permutation of 0..N,
// and the next call returns nothing.
#[test]
fn random_cycle_visits_each_index_once() {
    let n = 9usize;
    let mut state = PlaybackState::new(PlaybackOrder::Random);
    let mut visited = Vec::new();
    for _ in 0..n {
        let idx = state.next_random_index(n, false, 7).expect("cycle not exhausted yet");
        visited.push(idx);
    }
    assert!(state.next_random_index(n, false, 7).is_none());
    visited.sort();
    let expected: Vec<usize> = (0..n).collect();
    assert_eq!(visited, expected);
}

// With loop enabled an exhausted cycle draws a fresh permutation and
// keeps going; a bound of zero never yields an index.
#[test]
fn random_cycle_loops_with_fresh_permutation() {
    let n = 5usize;
    let mut state = PlaybackState::new(PlaybackOrder::Random);
    for _ in 0..n {
        state.next_random_index(n, true, 3).expect("first cycle");
    }
    let mut second = Vec::new();
    for k in 0..n {
        second.push(state.next_random_index(n, true, 1000 + k as u64).expect("looped cycle"));
    }
    second.sort();
    let expected: Vec<usize> = (0..n).collect();
    assert_eq!(second, expected);

    assert!(state.next_random_index(0, true, 9).is_none());
}

// Switching order mid-playback discards the in-progress permutation
// state.
#[test]
fn set_order_discards_cycle() {
    let mut state = PlaybackState::new(PlaybackOrder::Random);
    state.next_random_index(6, false, 11).unwrap();
    state.set_order(PlaybackOrder::Asc);
    assert_eq!(state.order, PlaybackOrder::Asc);
    assert_eq!(state.cycle.len(), 0);
    assert_eq!(state.pos, 0);
}

// Theme lookup by name, the unknown-name error, and the exact color
// values of the defined tables. The fluorite table exists but is not
// registered, so loading it by name fails like any unknown name.
#[test]
fn theme_loading() {
    let t = Theme::load("telemetry").unwrap();
    assert_eq!(t.background_right, Color::Rgb(22, 34, 36));
    assert_eq!(t.status_hash, Color::Rgb(244, 174, 89));

    assert_eq!(Theme::load("fluorite").unwrap_err(), ThemeError::UnknownTheme);
    assert_eq!(Theme::load("no-such-theme").unwrap_err(), ThemeError::UnknownTheme);
    assert_eq!(Theme::default(), Theme::load("telemetry").unwrap());

    let t = gitlogue::theme::fluorite();
    assert_eq!(t.background_left, Color::Rgb(18, 12, 23));
    assert_eq!(t.syntax_keyword, Color::Rgb(222, 127, 236));
}

// Transparency drops exactly the two background colors.
#[test]
fn theme_transparency() {
    let t = Theme::load("telemetry").unwrap();
    let tt = t.with_transparent_background();
    assert_eq!(tt.background_left, Color::Reset);
    assert_eq!(tt.background_right, Color::Reset);
    assert_eq!(tt.editor_line_number, t.editor_line_number);
    assert_eq!(tt.syntax_label, t.syntax_label);
}

// The registry lists the sixteen theme names in order; of them only
// telemetry's table is defined, so it alone loads.
#[test]
fn available_themes_registry() {
    let names = Theme::available_themes();
    assert_eq!(
        names,
        vec![
            "ayu-dark",
            "catppuccin",
            "dracula",
            "everforest",
            "github-dark",
            "gruvbox",
            "material",
            "monokai",
            "night-owl",
            "nord",
            "one-dark",
            "rose-pine",
            "solarized-dark",
            "solarized-light",
            "telemetry",
            "tokyo-night",
        ]
    );
    for name in names {
        if name == "telemetry" {
            assert!(Theme::load(name).is_ok());
        } else {
            assert_eq!(Theme::load(name).unwrap_err(), ThemeError::UnknownTheme);
        }
    }
}
