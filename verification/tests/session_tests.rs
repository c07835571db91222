use fzc::app::{ActivePane, AppState, RuntimeContext};
use fzc::input::{byte_index_for_char, insert_char_at, remove_char_at, Key, KeyCode};
use fzc::run::{RunOutcome, INTERRUPTED_EXIT_CODE};
use fzc::search::RankingSettings;
use fzc::session::{scroll_by, visible_start, ChatLineKind, MAX_CHAT_LINES};
use fzc::stream::{
    is_interrupt_key, stream_outcome, stream_step, strip_line_ending, StreamEvent, StreamPhase,
};

fn empty_app() -> AppState {
    AppState::new(
        Vec::new(),
        None,
        Vec::new(),
        RankingSettings { usage_enabled: true, usage_weight: 8_000 },
        RuntimeContext { cwd: "/tmp".to_string(), explicit_config_path: None },
        Vec::new(),
    )
}

#[test]
fn log_evicts_the_oldest_line_over_the_limit() {
    let mut app = empty_app();
    app.chat.clear();
    for i in 0..601 {
        app.push_line(ChatLineKind::Stdout, format!("line {i}"));
    }
    assert_eq!(app.chat.len(), 600);
    assert_eq!(MAX_CHAT_LINES, 600);
    assert_eq!(app.chat[0].text, "line 1");
    assert_eq!(app.chat[599].text, "line 600");
    assert_eq!(app.session_scroll, 0);
}

#[test]
fn scroll_offset_moves_with_evicted_lines() {
    let mut app = empty_app();
    app.chat.clear();
    for i in 0..600 {
        app.push_line(ChatLineKind::Stdout, format!("line {i}"));
    }
    app.active_pane = ActivePane::Session;
    app.session_scroll = 5;
    app.push_line(ChatLineKind::Stdout, "one more".to_string());
    assert_eq!(app.chat.len(), 600);
    assert_eq!(app.session_scroll, 4);
    assert!(app.session_scroll < app.chat.len());

    app.session_scroll = 0;
    app.push_line(ChatLineKind::Stdout, "and another".to_string());
    assert_eq!(app.session_scroll, 0);
}

#[test]
fn new_line_brings_the_view_back_while_commands_have_the_focus() {
    let mut app = empty_app();
    app.session_scroll = 1;
    app.push_info("hello".to_string());
    assert_eq!(app.session_scroll, 0);
}

#[test]
fn scrolling_stays_inside_the_log() {
    assert_eq!(scroll_by(0, 20, 1), 1);
    assert_eq!(scroll_by(18, 20, 10), 19);
    assert_eq!(scroll_by(3, 20, -10), 0);
    assert_eq!(scroll_by(3, 20, -1), 2);
    assert_eq!(scroll_by(0, 0, 1), 0);
    assert_eq!(scroll_by(7, 20, 0), 7);
}

#[test]
fn visible_window() {
    assert_eq!(visible_start(100, 10, 0), 90);
    assert_eq!(visible_start(100, 10, 5), 85);
    assert_eq!(visible_start(100, 10, 500), 0);
    assert_eq!(visible_start(5, 10, 3), 0);
    assert_eq!(visible_start(5, 0, 0), 4);
}

#[test]
fn cursor_editing_counts_characters() {
    let mut text = "héllo".to_string();
    insert_char_at(&mut text, 2, 'X');
    assert_eq!(text, "héXllo");
    insert_char_at(&mut text, 100, '!');
    assert_eq!(text, "héXllo!");
    assert!(remove_char_at(&mut text, 1));
    assert_eq!(text, "hXllo!");
    assert!(!remove_char_at(&mut text, 6));
    assert_eq!(text, "hXllo!");

    let mut wide = "日本語".to_string();
    insert_char_at(&mut wide, 1, '→');
    assert_eq!(wide, "日→本語");
    assert!(remove_char_at(&mut wide, 2));
    assert_eq!(wide, "日→語");
}

#[test]
fn interrupt_ends_the_run_with_the_sentinel() {
    let mut app = empty_app();
    let before = app.chat.len();

    let (phase, effect) = stream_step(&mut app, StreamPhase::CheckCancel, StreamEvent::Cancel(true));
    assert_eq!(phase, StreamPhase::DrainRest { exit_code: 130, interrupted: true });
    assert!(effect.kill_child);

    let (phase, _) =
        stream_step(&mut app, phase, StreamEvent::Line(ChatLineKind::Stdout, "tail".to_string()));
    assert_eq!(app.chat.len(), before + 1);

    let (phase, effect) = stream_step(&mut app, phase, StreamEvent::QueueEmpty);
    assert_eq!(phase, StreamPhase::Finished { exit_code: 130, interrupted: true });
    assert!(effect.redraw);
    assert!(matches!(stream_outcome(phase), Some(RunOutcome::Interrupted)));
    assert_eq!(INTERRUPTED_EXIT_CODE, 130);

    let (phase, effect) =
        stream_step(&mut app, phase, StreamEvent::Line(ChatLineKind::Stdout, "late".to_string()));
    assert_eq!(phase, StreamPhase::Finished { exit_code: 130, interrupted: true });
    assert!(!effect.redraw && !effect.kill_child);
    assert_eq!(app.chat.len(), before + 1);
}

#[test]
fn a_round_without_cancel_reaches_the_exit_status() {
    let mut app = empty_app();
    app.start_loading("demo");
    let before = app.chat.len();

    let (phase, _) = stream_step(&mut app, StreamPhase::CheckCancel, StreamEvent::Cancel(false));
    assert_eq!(phase, StreamPhase::DrainReady);
    let (phase, effect) =
        stream_step(&mut app, phase, StreamEvent::Line(ChatLineKind::Stderr, "oops".to_string()));
    assert_eq!(phase, StreamPhase::DrainReady);
    assert!(effect.redraw);
    assert_eq!(app.spinner_index, 1);
    let (phase, _) = stream_step(&mut app, phase, StreamEvent::QueueEmpty);
    assert_eq!(phase, StreamPhase::CheckChild);
    let (phase, _) = stream_step(&mut app, phase, StreamEvent::Running);
    assert_eq!(phase, StreamPhase::AwaitLine);
    let (phase, effect) = stream_step(&mut app, phase, StreamEvent::Timeout);
    assert_eq!(phase, StreamPhase::CheckCancel);
    assert!(effect.redraw);
    assert_eq!(app.spinner_index, 2);

    let (phase, _) = stream_step(&mut app, phase, StreamEvent::Cancel(false));
    let (phase, _) = stream_step(&mut app, phase, StreamEvent::QueueEmpty);
    let (phase, _) = stream_step(&mut app, phase, StreamEvent::Exited(Some(3)));
    assert_eq!(phase, StreamPhase::DrainRest { exit_code: 3, interrupted: false });
    let (phase, _) = stream_step(&mut app, phase, StreamEvent::QueueEmpty);
    assert!(matches!(stream_outcome(phase), Some(RunOutcome::Exited(3))));
    assert_eq!(app.chat.len(), before + 1);
    assert!(matches!(app.chat[before].kind, ChatLineKind::Stderr));

    let (missing, _) = stream_step(&mut app, StreamPhase::CheckChild, StreamEvent::Exited(None));
    assert_eq!(missing, StreamPhase::DrainRest { exit_code: 0, interrupted: false });
}

#[test]
fn events_out_of_turn_change_nothing() {
    let mut app = empty_app();
    let before = app.chat.len();
    let (phase, effect) = stream_step(
        &mut app,
        StreamPhase::CheckCancel,
        StreamEvent::Line(ChatLineKind::Stdout, "early".to_string()),
    );
    assert_eq!(phase, StreamPhase::CheckCancel);
    assert!(!effect.redraw && !effect.kill_child);
    assert_eq!(app.chat.len(), before);
    assert!(stream_outcome(phase).is_none());
}

#[test]
fn line_endings_are_stripped() {
    assert_eq!(strip_line_ending("hello\r\n"), "hello");
    assert_eq!(strip_line_ending("hello\n\n"), "hello");
    assert_eq!(strip_line_ending("hello"), "hello");
    assert_eq!(strip_line_ending("a\nb\n"), "a\nb");
    assert_eq!(strip_line_ending("\n"), "");
}

#[test]
fn escape_interrupts_a_run() {
    assert!(is_interrupt_key(Key::plain(KeyCode::Esc)));
    assert!(!is_interrupt_key(Key::plain(KeyCode::Enter)));
    assert!(!is_interrupt_key(Key::plain(KeyCode::Char('q'))));
}

#[test]
fn byte_index_counts_utf8_widths() {
    assert_eq!(byte_index_for_char("héllo", 0), 0);
    assert_eq!(byte_index_for_char("héllo", 1), 1);
    assert_eq!(byte_index_for_char("héllo", 2), 3);
    assert_eq!(byte_index_for_char("héllo", 5), 6);
    assert_eq!(byte_index_for_char("héllo", 50), 6);
    assert_eq!(byte_index_for_char("日本語𝄞", 3), 9);
    assert_eq!(byte_index_for_char("日本語𝄞", 4), 13);
    assert_eq!(byte_index_for_char("", 3), 0);
}
