use lil_big_helper::app::keys::{
    is_reverse_tab_key, process_numeric_prefix, AppStatus, KeyStep,
};
use lil_big_helper::app::prompt::{
    action_menu, create_branch_prompt, menu_error, open_prompt, set_base_prompt,
    set_branch_prefix_prompt, submit_action_menu, switch_branch_prompt, MenuChoice, PromptKind,
};
use lil_big_helper::app::status_line::{input_spans, StatusLine};
use lil_big_helper::color::ColorTheme;
use lil_big_helper::config::GitHelperConfig;
use lil_big_helper::event::{Key, KeyCode, KeyKind, Modifiers, UserEvent, UserEventWithCount};

fn key(code: KeyCode) -> Key {
    Key {
        code,
        modifiers: Modifiers::default(),
        kind: KeyKind::Press,
    }
}

fn control(code: KeyCode) -> Key {
    Key {
        code,
        modifiers: Modifiers {
            control: true,
            ..Modifiers::default()
        },
        kind: KeyKind::Press,
    }
}

fn typed(c: char) -> Key {
    key(KeyCode::Char(c))
}

#[test]
fn test_process_numeric_prefix() {
    let cases = [
        ("", UserEvent::NavigateDown, 1),
        ("5", UserEvent::NavigateUp, 5),
        ("0", UserEvent::PageDown, 1),
        ("42", UserEvent::ScrollDown, 42),
        ("999", UserEvent::PageDown, 999),
        ("abc", UserEvent::ScrollUp, 1),
        ("5", UserEvent::Quit, 1),
        ("", UserEvent::Confirm, 1),
    ];
    for (prefix, event, count) in cases {
        assert_eq!(
            process_numeric_prefix(prefix, event, key(KeyCode::Enter)),
            UserEventWithCount { event, count }
        );
    }
}

#[test]
fn answers_are_typed() {
    let mut p = open_prompt(PromptKind::SwitchBranch, "Branch".into(), None, None);
    for c in "déx".chars() {
        p.handle_key(typed(c));
    }
    assert_eq!(p.value(), "déx");
    p.handle_key(key(KeyCode::Backspace));
    p.handle_key(key(KeyCode::Home));
    p.handle_key(typed(' '));
    assert_eq!(p.value(), "dé");
    assert_eq!(
        p.refresh_prompt_status_line(),
        StatusLine::Input("Branch:  dé".into(), Some(12), None)
    );
    p.handle_key(control(KeyCode::Char('k')));
    assert_eq!(p.value(), "");
    p.handle_key(control(KeyCode::Char('y')));
    assert_eq!(p.value(), "dé");
    p.handle_key(key(KeyCode::Left));
    assert_eq!(p.value(), "dé");
}

#[test]
fn keys_ask_for_edits() {
    let mut p = open_prompt(PromptKind::SwitchBranch, "B".into(), None, Some("ab".into()));
    p.handle_key(key(KeyCode::Left));
    p.handle_key(key(KeyCode::Left));
    p.handle_key(key(KeyCode::Right));
    p.handle_key(typed('x'));
    assert_eq!(p.value(), "axb");
    p.handle_key(key(KeyCode::Delete));
    assert_eq!(p.value(), "ax");
    p.handle_key(key(KeyCode::Home));
    p.handle_key(key(KeyCode::Delete));
    p.handle_key(key(KeyCode::End));
    p.handle_key(typed('y'));
    assert_eq!(p.value(), "xy");
    for code in [
        KeyCode::Tab,
        KeyCode::BackTab,
        KeyCode::Up,
        KeyCode::Down,
        KeyCode::Other,
    ] {
        p.handle_key(key(code));
    }
    assert_eq!(p.value(), "xy");
    let shifted = Modifiers {
        shift: true,
        ..Modifiers::default()
    };
    p.handle_key(Key {
        modifiers: shifted,
        ..typed('Z')
    });
    assert_eq!(p.value(), "xyZ");
    p.handle_key(Key {
        modifiers: shifted,
        ..key(KeyCode::Backspace)
    });
    assert_eq!(p.value(), "xyZ");
    p.handle_key(Key {
        kind: KeyKind::Release,
        ..typed('w')
    });
    assert_eq!(p.value(), "xyZ");
    p.handle_key(Key {
        kind: KeyKind::Repeat,
        ..typed('w')
    });
    assert_eq!(p.value(), "xyZw");
    p.handle_key(control(KeyCode::Char('h')));
    assert_eq!(p.value(), "xyZ");
    p.handle_key(Key {
        modifiers: Modifiers {
            alt: true,
            ..Modifiers::default()
        },
        ..key(KeyCode::Backspace)
    });
    assert_eq!(p.value(), "");
}

#[test]
fn keys_together_ask_for_edits() {
    let meta = |code| Key {
        modifiers: Modifiers {
            meta: true,
            ..Modifiers::default()
        },
        ..key(code)
    };
    let both = |code| Key {
        modifiers: Modifiers {
            control: true,
            alt: true,
            ..Modifiers::default()
        },
        ..key(code)
    };
    let mut p = open_prompt(
        PromptKind::SwitchBranch,
        "B".into(),
        None,
        Some("one two".into()),
    );
    p.handle_key(meta(KeyCode::Char('b')));
    p.handle_key(typed('1'));
    assert_eq!(p.value(), "one 1two");
    p.handle_key(control(KeyCode::Char('a')));
    p.handle_key(control(KeyCode::Right));
    p.handle_key(typed('2'));
    assert_eq!(p.value(), "one 21two");
    p.handle_key(control(KeyCode::Char('b')));
    p.handle_key(control(KeyCode::Char('f')));
    p.handle_key(typed('3'));
    assert_eq!(p.value(), "one 231two");
    p.handle_key(control(KeyCode::Char('a')));
    p.handle_key(meta(KeyCode::Char('f')));
    p.handle_key(meta(KeyCode::Char('d')));
    assert_eq!(p.value(), "231two");
    p.handle_key(control(KeyCode::Char('e')));
    p.handle_key(both(KeyCode::Char('h')));
    assert_eq!(p.value(), "231twoh");
    p.handle_key(meta(KeyCode::Char('x')));
    p.handle_key(control(KeyCode::Char('x')));
    p.handle_key(both(KeyCode::Left));
    assert_eq!(p.value(), "231twoh");
    p.handle_key(meta(KeyCode::Backspace));
    assert_eq!(p.value(), "");
}

#[test]
fn modifiers_are_numbered_by_bits() {
    let all = Modifiers {
        shift: true,
        control: true,
        alt: true,
        super_key: true,
        hyper: true,
        meta: true,
    };
    assert_eq!(all.bits(), 63);
    assert_eq!(Modifiers::default().bits(), 0);
    let alt = Modifiers {
        alt: true,
        ..Modifiers::default()
    };
    assert_eq!(alt.bits(), 4);
}

#[test]
fn words_are_passed_and_cut() {
    let mut p = open_prompt(
        PromptKind::SwitchBranch,
        "B".into(),
        None,
        Some("one two".into()),
    );
    p.handle_key(control(KeyCode::Left));
    p.handle_key(typed('x'));
    assert_eq!(p.value(), "one xtwo");
    p.handle_key(control(KeyCode::Delete));
    assert_eq!(p.value(), "one x");
    p.handle_key(control(KeyCode::Char('w')));
    assert_eq!(p.value(), "one");
    p.handle_key(control(KeyCode::Char('u')));
    assert_eq!(p.value(), "");
}

#[test]
fn options_go_round_both_ways() {
    let mut p = set_base_prompt(
        Some("x".into()),
        vec!["a".into(), "b".into(), "c".into()],
        Some("b".into()),
    )
    .unwrap();
    assert_eq!(p.value(), "b");
    assert_eq!(
        p.refresh_prompt_status_line(),
        StatusLine::Input(
            "Base branch for x: < b >".into(),
            None,
            p.transient.clone()
        )
    );
    p.handle_key(key(KeyCode::Right));
    p.handle_key(key(KeyCode::Tab));
    assert_eq!(p.value(), "a");
    p.handle_key(key(KeyCode::Char('k')));
    assert_eq!(p.value(), "c");
    p.handle_key(key(KeyCode::Char('z')));
    assert_eq!(p.value(), "c");

    assert_eq!(
        set_base_prompt(None, vec!["a".into()], None).unwrap_err(),
        "Not on a branch"
    );
    assert_eq!(
        set_base_prompt(Some("x".into()), vec![], None).unwrap_err(),
        "No local branches available to select as a base"
    );
}

#[test]
fn questions_say_what_is_asked() {
    let config = GitHelperConfig::default();
    let p = create_branch_prompt(Some("main".into()), "mason", &config);
    assert_eq!(p.label, "New branch suffix [mason / <name>]");
    assert_eq!(
        p.kind,
        PromptKind::CreateBranchSuffix {
            base_branch: "main".into()
        }
    );
    let p = create_branch_prompt(None, "mason", &config);
    assert_eq!(p.kind, PromptKind::CreateBranchBase);
    assert_eq!(p.transient, Some("Protected bases: main".into()));
    let p = switch_branch_prompt(&vec!["a".into(), "b".into()]);
    assert_eq!(p.transient, Some("Local branches: a, b".into()));
    assert_eq!(switch_branch_prompt(&vec![]).transient, None);
    let p = set_branch_prefix_prompt("mason", &config);
    assert_eq!(p.value(), "mason");
    assert_eq!(
        p.transient,
        Some("Current: mason. Default: feature. Empty resets to default.".into())
    );
    assert_eq!(action_menu().kind, PromptKind::ActionMenu);
}

#[test]
fn the_menu_goes_by_the_first_letter() {
    assert_eq!(submit_action_menu("push"), MenuChoice::Push);
    assert_eq!(submit_action_menu("b"), MenuChoice::CreateBranch);
    assert_eq!(submit_action_menu(""), MenuChoice::Missing);
    assert_eq!(submit_action_menu("x"), MenuChoice::Unknown('x'));
    assert_eq!(
        menu_error(MenuChoice::Unknown('x')),
        Some("Unknown action 'x'".into())
    );
    assert_eq!(
        menu_error(MenuChoice::Missing),
        Some("No action selected".into())
    );
    assert_eq!(menu_error(MenuChoice::Push), None);
}

#[test]
fn numbers_are_collected_before_an_event() {
    let mut status = AppStatus::default();
    assert_eq!(
        status.handle_key(false, None, key(KeyCode::Char('0'))),
        KeyStep::Done
    );
    assert_eq!(status.numeric_prefix, "");
    for c in ['1', '0'] {
        status.handle_key(false, None, key(KeyCode::Char(c)));
    }
    assert_eq!(status.numeric_prefix, "10");
    assert_eq!(
        status.handle_key(false, Some(UserEvent::NavigateDown), key(KeyCode::Down)),
        KeyStep::ToView(UserEventWithCount {
            event: UserEvent::NavigateDown,
            count: 10
        })
    );
    assert_eq!(status.numeric_prefix, "");
    status.handle_key(false, None, key(KeyCode::Char('7')));
    assert_eq!(
        status.handle_key(false, Some(UserEvent::Cancel), key(KeyCode::Esc)),
        KeyStep::Done
    );
    assert_eq!(status.numeric_prefix, "");
    assert_eq!(
        status.handle_key(false, Some(UserEvent::ForceQuit), key(KeyCode::Other)),
        KeyStep::Quit
    );
}

#[test]
fn an_error_takes_the_next_key() {
    let mut status = AppStatus::default();
    status.error_notification("bad".into());
    assert_eq!(
        status.handle_key(false, Some(UserEvent::Quit), key(KeyCode::Char('q'))),
        KeyStep::Done
    );
    assert_eq!(status.status_line, StatusLine::Blank);
    assert_eq!(
        status.handle_key(false, Some(UserEvent::Quit), key(KeyCode::Char('q'))),
        KeyStep::ToView(UserEventWithCount {
            event: UserEvent::Quit,
            count: 1
        })
    );
    status.info_notification("fyi".into());
    status.handle_key(false, None, key(KeyCode::Other));
    assert_eq!(status.status_line, StatusLine::Blank);
    status.update_status_input("x".into(), None, None);
    assert_eq!(
        status.handle_key(false, None, key(KeyCode::Char('1'))),
        KeyStep::ToView(UserEventWithCount {
            event: UserEvent::Unknown,
            count: 1
        })
    );
}

#[test]
fn a_question_takes_the_keys() {
    let mut status = AppStatus::default();
    status.open_prompt(action_menu());
    assert_eq!(
        status.handle_key(false, Some(UserEvent::Quit), typed('q')),
        KeyStep::ToPrompt
    );
    assert!(status.handle_prompt_key(typed('p')).is_none());
    let answered = status.handle_prompt_key(key(KeyCode::Enter)).unwrap();
    assert_eq!(answered.value(), "p");
    assert!(status.prompt.is_none());
    assert_eq!(status.status_line, StatusLine::Blank);
    assert!(is_reverse_tab_key(key(KeyCode::BackTab)));
    assert!(!is_reverse_tab_key(key(KeyCode::Tab)));
}

#[test]
fn the_line_shows_what_there_is_room_for() {
    let theme = ColorTheme::default();
    let line = StatusLine::Input("ab".into(), Some(2), Some("hint".into()));
    let spans = line.render_status_line("", 20, &theme).unwrap();
    let shown: String = spans.iter().map(|s| s.content.as_str()).collect();
    assert!(shown.starts_with("ab"));
    assert!(shown.ends_with("hint"));
    assert_eq!(line.cursor_column(3), Some(5));
    let spans = StatusLine::Blank.render_status_line("12", 20, &theme).unwrap();
    assert_eq!(spans[0].content, "12");
    assert!(input_spans("ab", "hint", 2, 4, 20, &theme).is_some());
    let spans = StatusLine::NotificationError("bad".into())
        .render_status_line("", 20, &theme)
        .unwrap();
    assert_eq!(spans[0].style.fg, Some(theme.status_error_fg));
}
