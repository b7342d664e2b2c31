use serde_json::Value;
use std::collections::HashSet;
use stentor::config::KittyConfig;
use stentor::kitty::{
    check_response, close_args, find_available_slot, find_stentor_windows, frame, free_slot,
    get_kitty_socket_name, judge_data, judge_listing, judge_reply, launch_with_slot,
    list_kitty_windows, list_request, parse_worktree_label, payload, printed, read_windows,
    set_background_color, set_window_color_and_env, stentor_windows, task_commands, ClaudeWindow,
    KittyError, KittyMultiSlotHandler, KittyPayload, KittyWindow, WindowColors,
};
use stentor::multi_slot::HandlerUIMessage;

fn json(text: &str) -> Value {
    serde_json::from_str(text).unwrap()
}

#[test]
fn test_get_kitty_socket_name_with_env() {
    let result = get_kitty_socket_name(Some("unix:/tmp/test.sock"));
    assert!(result.is_ok());
    assert_eq!(result.unwrap(), "/tmp/test.sock");
}

#[test]
fn test_get_kitty_socket_name_without_prefix() {
    let result = get_kitty_socket_name(Some("/tmp/test.sock"));
    assert!(result.is_ok());
    assert_eq!(result.unwrap(), "kitty");
}

#[test]
fn test_get_kitty_socket_name_missing_env() {
    let result = get_kitty_socket_name(None);
    assert!(result.is_ok());
    assert_eq!(result.unwrap(), "kitty");
    assert_eq!(get_kitty_socket_name(Some("unix:@mykitty")).unwrap(), "mykitty");
}

#[test]
fn test_find_stentor_windows_empty() {
    let data = json("[]");
    let windows = find_stentor_windows(&data);
    assert_eq!(windows.len(), 0);
}

#[test]
fn test_find_stentor_windows_no_stentor() {
    let data = json(
        r#"[{"tabs": [{"windows": [{"id": 1, "cwd": "/home/test", "env": {}}]}]}]"#,
    );
    let windows = find_stentor_windows(&data);
    assert_eq!(windows.len(), 0);
}

#[test]
fn test_find_stentor_windows_with_stentor() {
    let data = json(
        r#"[{"tabs": [{"windows": [
            {"id": 1, "cwd": "/home/test", "env": {"STENTOR_SLOT": "1"}}
        ]}]}]"#,
    );
    let windows = find_stentor_windows(&data);
    assert_eq!(windows.len(), 1);
    assert_eq!(windows[0].id, 1);
    assert_eq!(windows[0].slot_num, 1);
}

#[test]
fn test_find_stentor_windows_with_slot() {
    let data = json(
        r#"[{"tabs": [{"windows": [
            {"id": 1, "cwd": "/home/test", "env": {"STENTOR_SLOT": "3"}}
        ]}]}]"#,
    );
    let windows = find_stentor_windows(&data);
    assert_eq!(windows.len(), 1);
    assert_eq!(windows[0].id, 1);
    assert_eq!(windows[0].slot_num, 3);
}

#[test]
fn test_find_stentor_windows_multiple() {
    let data = json(
        r#"[{"tabs": [{"windows": [
            {"id": 1, "cwd": "/home/first", "env": {"STENTOR_SLOT": "1"}},
            {"id": 2, "cwd": "/home/normal", "env": {}},
            {"id": 3, "cwd": "/home/second", "env": {"STENTOR_SLOT": "2"}}
        ]}]}]"#,
    );
    let windows = find_stentor_windows(&data);
    assert_eq!(windows.len(), 2);
    assert_eq!(windows[0].id, 1);
    assert_eq!(windows[0].slot_num, 1);
    assert_eq!(windows[1].id, 3);
    assert_eq!(windows[1].slot_num, 2);
}

#[test]
fn test_find_stentor_windows_invalid_json_structure() {
    let data = json(
        r#"[{"tabs": [{"windows": [{"cwd": "/home/test", "env": {"STENTOR_SLOT": "1"}}]}]}]"#,
    );
    let windows = find_stentor_windows(&data);
    assert_eq!(windows.len(), 0);
}

#[test]
fn test_slot_range_validation() {
    for slot in 1..=8 {
        assert!((1..=8).contains(&slot), "Slot {} should be valid", slot);
        assert!(launch_with_slot(slot, &[]).is_ok(), "Slot {} should be valid", slot);
    }
    assert!(!(1..=8).contains(&0));
    assert!(!(1..=8).contains(&9));
    assert!(!(1..=8).contains(&100));
    assert!(launch_with_slot(0, &[]).is_err());
    assert!(launch_with_slot(9, &[]).is_err());
    assert!(launch_with_slot(100, &[]).is_err());
}

#[test]
fn test_find_stentor_windows_various_slot_numbers() {
    let data = json(
        r#"[{"tabs": [{"windows": [
            {"id": 1, "cwd": "/home/test", "env": {"STENTOR_SLOT": "0"}},
            {"id": 2, "cwd": "/home/test", "env": {"STENTOR_SLOT": "9"}},
            {"id": 3, "cwd": "/home/test", "env": {"STENTOR_SLOT": "5"}}
        ]}]}]"#,
    );
    let windows = find_stentor_windows(&data);
    assert_eq!(windows.len(), 3);
    assert_eq!(windows[0].slot_num, 0);
    assert_eq!(windows[1].slot_num, 9);
    assert_eq!(windows[2].slot_num, 5);
}

#[test]
fn test_find_stentor_windows_non_numeric_slot() {
    let data = json(
        r#"[{"tabs": [{"windows": [
            {"id": 1, "cwd": "/home/test", "env": {"STENTOR_SLOT": "invalid"}},
            {"id": 2, "cwd": "/home/test", "env": {"STENTOR_SLOT": ""}}
        ]}]}]"#,
    );
    let windows = find_stentor_windows(&data);
    assert_eq!(windows.len(), 0);
}

#[test]
fn test_find_stentor_windows_cwd_extraction() {
    let data = json(
        r#"[{"tabs": [{"windows": [
            {"id": 1, "cwd": "/home/user/project", "env": {"STENTOR_SLOT": "1"}}
        ]}]}]"#,
    );
    let windows = find_stentor_windows(&data);
    assert_eq!(windows.len(), 1);
    assert_eq!(windows[0].cwd, "/home/user/project");
}

#[test]
fn test_find_stentor_windows_missing_cwd() {
    let data = json(
        r#"[{"tabs": [{"windows": [{"id": 1, "env": {"STENTOR_SLOT": "1"}}]}]}]"#,
    );
    let windows = find_stentor_windows(&data);
    assert_eq!(windows.len(), 1);
    assert_eq!(windows[0].cwd, "unknown");
}

#[test]
fn test_find_stentor_windows_multiple_tabs() {
    let data = json(
        r#"[{"tabs": [
            {"windows": [{"id": 1, "cwd": "/tab1", "env": {"STENTOR_SLOT": "1"}}]},
            {"windows": [{"id": 2, "cwd": "/tab2", "env": {"STENTOR_SLOT": "2"}}]}
        ]}]"#,
    );
    let windows = find_stentor_windows(&data);
    assert_eq!(windows.len(), 2);
    assert_eq!(windows[0].id, 1);
    assert_eq!(windows[1].id, 2);
}

#[test]
fn test_find_stentor_windows_multiple_os_windows() {
    let data = json(
        r#"[
            {"tabs": [{"windows": [{"id": 1, "cwd": "/os1", "env": {"STENTOR_SLOT": "1"}}]}]},
            {"tabs": [{"windows": [{"id": 2, "cwd": "/os2", "env": {"STENTOR_SLOT": "2"}}]}]}
        ]"#,
    );
    let windows = find_stentor_windows(&data);
    assert_eq!(windows.len(), 2);
}

#[test]
fn windows_are_read_whatever_is_missing() {
    let data = json(
        r#"[
            {"tabs": "none"},
            7,
            {"tabs": [{}, {"windows": {}}, {"windows": [
                {"id": -1, "cwd": 3, "env": {"STENTOR_SLOT": 1}},
                {"id": 1.5, "env": []},
                {"id": 18446744073709551615, "cwd": "/x", "env": {"STENTOR_SLOT": "+2"}}
            ]}]}
        ]"#,
    );
    let windows = read_windows(&data);
    assert_eq!(windows.len(), 3);
    assert_eq!(windows[0].id, None);
    assert_eq!(windows[0].cwd, None);
    assert_eq!(windows[0].slot, None);
    assert_eq!(windows[1].id, None);
    assert_eq!(windows[2].id, Some(u64::MAX));
    assert_eq!(windows[2].cwd, Some("/x".to_string()));
    assert_eq!(windows[2].slot, Some("+2".to_string()));
    assert_eq!(find_stentor_windows(&data)[0].slot_num, 2);
    assert!(read_windows(&json("{}")).is_empty());
    assert!(read_windows(&json("\"x\"")).is_empty());
}

fn window(id: Option<u64>, slot: &str) -> KittyWindow {
    KittyWindow {
        id,
        cwd: None,
        slot: Some(slot.to_string()),
    }
}

#[test]
fn lowest_free_slot_is_taken() {
    assert_eq!(free_slot(&vec![]), Some(1));
    assert_eq!(
        free_slot(&vec![window(Some(1), "1"), window(Some(2), "3"), window(Some(3), "9")]),
        Some(2)
    );
    // A window without an id still occupies its slot.
    assert_eq!(free_slot(&vec![window(None, "1"), window(None, "x")]), Some(2));
    assert!(stentor_windows(&vec![window(None, "1")]).is_empty());
    let full: Vec<KittyWindow> = (1..=8).map(|n| window(Some(n), &n.to_string())).collect();
    assert_eq!(free_slot(&full), None);
    let data = json(r#"[{"tabs": [{"windows": [{"env": {"STENTOR_SLOT": "1"}}]}]}]"#);
    assert_eq!(find_available_slot(&data), Some(2));
}

#[test]
fn launching_names_the_slot() {
    let command = vec!["zsh".to_string(), "-l".to_string()];
    assert_eq!(
        launch_with_slot(3, &command).unwrap(),
        vec!["@", "launch", "--cwd=current", "--env", "STENTOR_SLOT=3", "zsh", "-l"]
    );
    assert_eq!(
        launch_with_slot(9, &command).unwrap_err().message(),
        "Slot must be between 1 and 8, got 9"
    );
    assert_eq!(close_args("17"), vec!["@", "close-window", "--match", "id:17"]);
}

#[test]
fn frames_are_found_again() {
    assert_eq!(frame("{}"), "\x1bP@kitty-cmd{}\x1b\\");
    assert_eq!(
        list_request(),
        "\x1bP@kitty-cmd{\"cmd\":\"ls\",\"version\":[0,37,2]}\x1b\\"
    );
    assert_eq!(payload(&frame("{\"ok\":true}")), Some("{\"ok\":true}"));
    assert_eq!(payload("noise é @kitty-cmd1\x1b\\2\x1b\\"), Some("1"));
    assert_eq!(payload("@kitty-cmd without an end"), None);
    assert_eq!(payload("\x1b\\@kitty-cmd"), None);
    assert_eq!(payload(""), None);
}

#[test]
fn responses_are_judged() {
    assert!(check_response(&frame("{\"ok\": true}").into_bytes()).is_ok());
    // No response at all is no failure.
    assert!(check_response(&vec![]).is_ok());
    assert!(check_response(&vec![0xff, 0xfe]).is_ok());
    for refused in ["{\"ok\":false}", "{}", "{\"ok\":1}", "[]"] {
        match check_response(&frame(refused).into_bytes()) {
            Err(e) => assert_eq!(e.message(), format!("Kitty command failed: {}", refused)),
            Ok(()) => panic!("{}", refused),
        }
    }
    let error = check_response(&frame("{oops").into_bytes()).unwrap_err();
    assert!(matches!(error, KittyError::ResponseNotJson));
    assert_eq!(error.message(), "Failed to parse Kitty response");
    // Bytes that are no UTF-8 are replaced, and the rest is read.
    let mut bytes = vec![0xff];
    bytes.extend(frame("{\"ok\":true}").into_bytes());
    assert!(check_response(&bytes).is_ok());
    assert!(judge_reply("x", serde_json::from_str("{\"ok\":true}")).is_ok());
    assert!(judge_reply("x", serde_json::from_str("?")).is_err());
}

#[test]
fn listings_are_read() {
    let list = |text: &str| list_kitty_windows(&frame(text).into_bytes());
    assert_eq!(list("{\"ok\":true,\"data\":\"[1,2]\"}").unwrap(), json("[1,2]"));
    assert_eq!(list("{\"ok\":true,\"data\":[3]}").unwrap(), json("[3]"));
    assert_eq!(list("{\"ok\":true,\"data\":null}").unwrap(), json("null"));
    assert!(matches!(list("{\"ok\":true,\"data\":\"[\"}"), Err(KittyError::DataNotJson)));
    assert!(matches!(list("{\"ok\":true}"), Err(KittyError::NoResponse)));
    assert!(matches!(list("{\"ok\":false,\"data\":[]}"), Err(KittyError::ListRefused)));
    assert!(matches!(list("?"), Err(KittyError::ResponseNotJson)));
    assert!(matches!(list_kitty_windows(&vec![]), Err(KittyError::NoResponse)));
    assert_eq!(
        list("{\"ok\":false}").unwrap_err().message(),
        "Kitty ls command returned ok=false"
    );
    assert_eq!(
        list_kitty_windows(&vec![]).unwrap_err().message(),
        "Failed to parse Kitty response"
    );
    assert_eq!(
        judge_data(serde_json::from_str("?")).unwrap_err().message(),
        "Failed to parse Kitty data"
    );
    assert!(judge_listing(serde_json::from_str("{\"ok\":true,\"data\":[]}")).is_ok());
}

#[test]
fn background_commands_carry_both_colors() {
    let command = set_background_color("#ffa000", 42);
    assert_eq!(command.cmd, "set-colors");
    assert_eq!(command.version, Some(vec![0, 26, 0]));
    match command.payload {
        Some(KittyPayload::SetColors { colors, match_window, reset }) => {
            assert_eq!(
                colors,
                Some(WindowColors { background: 0xffa000, foreground: 0 })
            );
            assert_eq!(match_window, Some("id:42".to_string()));
            assert_eq!(reset, None);
        }
        other => panic!("{:?}", other),
    }
    match set_background_color("", 42).payload {
        Some(KittyPayload::SetColors { colors, match_window, reset }) => {
            assert_eq!(colors, None);
            assert_eq!(match_window, Some("id:42".to_string()));
            assert_eq!(reset, Some(true));
        }
        other => panic!("{:?}", other),
    }
    match set_background_color("nonsense", 1).payload {
        Some(KittyPayload::SetColors { colors, .. }) => assert_eq!(
            colors,
            Some(WindowColors { background: 0x808080, foreground: 0xffffff })
        ),
        other => panic!("{:?}", other),
    }
}

#[test]
fn variables_come_with_colors() {
    let (color, variable) = set_window_color_and_env("#2e1e2e", "STENTOR_SLOT_1", "1", 7);
    assert_eq!(color.cmd, "set-colors");
    assert_eq!(variable.cmd, "set-user-vars");
    assert_eq!(variable.version, Some(vec![0, 35, 0]));
    match variable.payload {
        Some(KittyPayload::SetUserVars { match_window, vars }) => {
            assert_eq!(match_window, Some("id:7".to_string()));
            assert_eq!(vars, vec![("STENTOR_SLOT_1".to_string(), "1".to_string())]);
        }
        other => panic!("{:?}", other),
    }
}

#[test]
fn labels_name_repository_and_branch() {
    let label = parse_worktree_label(
        "/home/me/src",
        Some("main"),
        Some("git@example.com:me/tools.git.git"),
    );
    assert_eq!(label, "tools\nmain");
    assert_eq!(parse_worktree_label("/home/me/src", Some("main"), Some("")), "\nmain");
    assert_eq!(parse_worktree_label("/home/me/src", Some("main"), None), "src");
    assert_eq!(parse_worktree_label("/home/me/src", Some(""), Some("x/y")), "src");
    assert_eq!(parse_worktree_label("/home/me/src", None, None), "src");
    assert_eq!(parse_worktree_label("/home/me/src/", None, None), "src");
    assert_eq!(parse_worktree_label("/home/me/src//", Some("main"), None), "src");
    assert_eq!(parse_worktree_label("/", None, None), "");
    assert_eq!(parse_worktree_label("unknown", None, None), "unknown");
    assert_eq!(printed(Some(&b" main\n".to_vec())), Some("main".to_string()));
    assert_eq!(printed(Some(&vec![b'a', 0xff])), Some("a\u{fffd}".to_string()));
    assert_eq!(printed(None), None);
}

fn handler(background_color_cmd: Option<&str>) -> KittyMultiSlotHandler {
    KittyMultiSlotHandler::new(KittyConfig {
        background_color_cmd: background_color_cmd.map(|s| s.to_string()),
        ..KittyConfig::default()
    })
}

fn found(id: u64, slot_num: usize) -> ClaudeWindow {
    ClaudeWindow {
        id,
        cwd: format!("/dir/{}", id),
        slot_num,
    }
}

fn destinations(message: &HandlerUIMessage) -> Vec<(usize, String, String)> {
    match message {
        HandlerUIMessage::SetDestinations(d) => d
            .iter()
            .map(|d| (d.slot_num, d.label.clone(), d.color_hex.clone()))
            .collect(),
        other => panic!("{:?}", other),
    }
}

#[test]
fn setup_shows_windows_one_by_one() {
    let h = handler(None);
    let opening = destinations(&h.opening());
    assert_eq!(opening.len(), 8);
    assert_eq!(opening[7], (8, String::new(), "transparent".to_string()));

    // There is no slot 9, so its window is passed over.
    let setup = h.setup(&vec![found(10, 2), found(11, 9), found(12, 1)]);
    let task = setup.next_task().unwrap();
    assert_eq!((task.window_id, task.slot_num, task.color_hex.as_str()), (10, 2, "#1e2e2e"));
    assert_eq!(task.cwd, "/dir/10");
    let (setup, message) = setup.task_done(true, "ten");
    let shown = destinations(&message);
    assert_eq!(shown.len(), 8);
    assert_eq!(shown[0], (2, "ten".to_string(), "#1e2e2e".to_string()));
    assert_eq!(shown[1], (2, String::new(), "transparent".to_string()));
    assert_eq!(setup.next_task().unwrap().window_id, 12);
    let (setup, message) = setup.task_done(false, "twelve");
    let shown = destinations(&message);
    assert_eq!(shown.len(), 7);
    assert_eq!(shown[1], (1, "twelve".to_string(), "#2e1e2e".to_string()));
    assert_eq!(shown[2].0, 4);
    assert!(setup.next_task().is_none());
    match setup.finish() {
        Some(HandlerUIMessage::StoreWindowIds(ids)) => assert_eq!(ids, vec![10]),
        other => panic!("{:?}", other),
    }
}

#[test]
fn every_slot_from_one_to_eight_becomes_a_destination() {
    let setup = handler(None).setup(&vec![found(7, 5)]);
    let task = setup.next_task().unwrap();
    assert_eq!((task.window_id, task.slot_num, task.color_hex.as_str()), (7, 5, "#2e1e3e"));
    let (setup, message) = setup.task_done(true, "five");
    assert_eq!(
        destinations(&message)[0],
        (5, "five".to_string(), "#2e1e3e".to_string())
    );
    match setup.finish() {
        Some(HandlerUIMessage::StoreWindowIds(ids)) => assert_eq!(ids, vec![7]),
        other => panic!("{:?}", other),
    }

    let windows: Vec<ClaudeWindow> = (1..=8).map(|n| found(n, n as usize)).collect();
    let mut setup = handler(None).setup(&windows);
    let mut colors = HashSet::new();
    while let Some(task) = setup.next_task() {
        colors.insert(task.color_hex.clone());
        setup = setup.task_done(true, "x").0;
    }
    assert_eq!(colors.len(), 8);
    assert!(handler(None).setup(&vec![found(1, 0), found(2, 9)]).next_task().is_none());
}

#[test]
fn tasks_mark_their_windows() {
    let setup = handler(None).setup(&vec![found(7, 5)]);
    let (color, variable) = task_commands(setup.next_task().unwrap());
    match color.payload {
        Some(KittyPayload::SetColors { colors, match_window, reset }) => {
            assert_eq!(
                colors,
                Some(WindowColors { background: 0x2e1e3e, foreground: 0xffffff })
            );
            assert_eq!(match_window, Some("id:7".to_string()));
            assert_eq!(reset, None);
        }
        other => panic!("{:?}", other),
    }
    match variable.payload {
        Some(KittyPayload::SetUserVars { match_window, vars }) => {
            assert_eq!(match_window, Some("id:7".to_string()));
            assert_eq!(vars, vec![("STENTOR_SLOT_5".to_string(), "1".to_string())]);
        }
        other => panic!("{:?}", other),
    }
}

#[test]
fn setup_takes_eight_windows_at_most() {
    let windows: Vec<ClaudeWindow> = (0..12).map(|n| found(n, 1)).collect();
    let mut setup = handler(None).setup(&windows);
    let mut count = 0;
    while setup.next_task().is_some() {
        let (next, message) = setup.task_done(false, "x");
        assert_eq!(destinations(&message).len(), 8);
        setup = next;
        count += 1;
    }
    assert_eq!(count, 8);
    assert!(setup.finish().is_none());
}

#[test]
fn cleanup_goes_back_to_the_background() {
    let h = handler(Some("print-color"));
    assert_eq!(h.get_background_color(Some(&b" #282828\n".to_vec())), "#282828");
    assert_eq!(h.get_background_color(Some(&b"\n".to_vec())), "#1e1e2e");
    assert_eq!(h.get_background_color(None), "#1e1e2e");
    let plain = handler(None);
    assert_eq!(plain.get_background_color(Some(&b"#282828".to_vec())), "#1e1e2e");
    assert_eq!(plain.choose_background(Some("#282828".to_string())), "#1e1e2e");
    assert_eq!(h.config().background_color_cmd, Some("print-color".to_string()));

    let commands = h.cleanup(&vec![5, 6], "#282828");
    assert_eq!(commands.len(), 2);
    match &commands[1].payload {
        Some(KittyPayload::SetColors { colors, match_window, .. }) => {
            assert_eq!(colors.unwrap().background, 0x282828);
            assert_eq!(match_window.as_deref(), Some("id:6"));
        }
        other => panic!("{:?}", other),
    }
    assert!(h.cleanup(&vec![], "#282828").is_empty());
    // Where nothing is changed back, the colour is not looked at.
    assert!(h.cleanup(&vec![], "€€").is_empty());
}

#[test]
fn output_commands_find_the_socket() {
    let h = handler(None);
    assert_eq!(
        h.output_env_vars(Some("unix:@mine")),
        vec![("KITTY_LISTEN_ON".to_string(), "unix:@mine".to_string())]
    );
    // A socket in the file system stays one.
    assert_eq!(
        h.output_env_vars(Some("unix:/tmp/x")),
        vec![("KITTY_LISTEN_ON".to_string(), "unix:/tmp/x".to_string())]
    );
    assert_eq!(
        h.output_env_vars(Some("/tmp/x")),
        vec![("KITTY_LISTEN_ON".to_string(), "unix:@kitty".to_string())]
    );
    assert_eq!(
        h.output_env_vars(None),
        vec![("KITTY_LISTEN_ON".to_string(), "unix:@kitty".to_string())]
    );
}
