use stentor::config::{
    default_timing, parse_slot_matchers, split_prefix, ClientConfig, Config, KittyConfig,
    MatcherKind, Overrides, SlotMatcher, Timing,
};
use stentor::daemon::MultiSlotHandler;

/// A number of thousandths as a float.
fn float(thousandths: u32) -> f32 {
    thousandths as f32 / 1000.0
}

fn default_config() -> Config<f32> {
    let t = default_timing();
    Config::with_timing(Timing {
        silence_duration: float(t.silence_duration),
        silence_threshold: float(t.silence_threshold),
        min_speech_duration: float(t.min_speech_duration),
        periodic_transcription_interval: float(t.periodic_transcription_interval),
        transcription_window: float(t.transcription_window),
        transcription_lag: float(t.transcription_lag),
    })
}

#[test]
fn test_default_config() {
    let config = default_config();
    assert_eq!(config.model, "base");
    assert_eq!(config.language, "en");
    assert_eq!(config.timing.silence_duration, 2.0);
    assert_eq!(config.timing.silence_threshold, 0.002);
    assert_eq!(config.timing.min_speech_duration, 0.5);
    assert_eq!(config.chunk_size, 1024);
    assert_eq!(config.timing.periodic_transcription_interval, 1.0);
    assert_eq!(config.timing.transcription_window, 5.0);
    assert_eq!(config.timing.transcription_lag, 1.0);
    assert!(config.output_command.is_none());
    assert_eq!(config.socket_name, "stentor.sock");
}

#[test]
fn test_config_file_default() {
    let daemon = default_config();
    let client = ClientConfig::default();
    let kitty = KittyConfig::default();
    assert_eq!(daemon.model, "base");
    assert_eq!(daemon.language, "en");
    assert_eq!(daemon.timing.silence_duration, 2.0);
    assert_eq!(daemon.chunk_size, 1024);
    assert_eq!(daemon.timing.periodic_transcription_interval, 1.0);
    assert_eq!(daemon.timing.transcription_window, 5.0);
    assert_eq!(daemon.timing.transcription_lag, 1.0);
    assert!(client.source.is_none());
    assert_eq!(kitty.base_background_color, "#1e1e2e");
}

#[test]
fn test_client_config_default() {
    let client_config = ClientConfig::default();
    assert!(client_config.source.is_none());
    assert!(client_config.multi_slot_handler.is_none());
}

#[test]
fn test_kitty_config_default() {
    let kitty_config = KittyConfig::default();
    assert!(kitty_config.background_color_cmd.is_none());
    assert_eq!(kitty_config.base_background_color, "#1e1e2e");
    assert!(kitty_config.output_command.is_none());
    assert!(kitty_config.slot_matches.is_empty());
    assert_eq!(kitty_config.slot_id_font, "monospace:bold");
}

#[test]
fn test_slot_matcher_parse_cmd_prefix() {
    let matcher = SlotMatcher::parse("cmd:zsh").unwrap();
    assert!(matches!(matcher, SlotMatcher::Cmd(ref s) if s == "zsh"));
    assert!(matcher.matches_cmd("zsh"));
    assert!(!matcher.matches_cmd("nvim"));
}

#[test]
fn test_slot_matcher_parse_bare_string() {
    let matcher = SlotMatcher::parse("zsh").unwrap();
    assert!(matches!(matcher, SlotMatcher::Cmd(ref s) if s == "zsh"));
    assert!(matcher.matches_cmd("zsh"));
}

#[test]
fn test_slot_matcher_parse_hypr_title() {
    let matcher = SlotMatcher::parse("hypr-title:MultiMessage:.*").unwrap();
    assert!(matches!(matcher, SlotMatcher::HyprTitle(_)));
    assert!(matcher.is_hyprland_matcher());
    assert!(matcher.matches_hyprland_window("MultiMessage: test", "kitty"));
    assert!(!matcher.matches_hyprland_window("Other title", "kitty"));
}

#[test]
fn test_slot_matcher_parse_hypr_class() {
    let matcher = SlotMatcher::parse("hypr-class:^kitty$").unwrap();
    assert!(matches!(matcher, SlotMatcher::HyprClass(_)));
    assert!(matcher.is_hyprland_matcher());
    assert!(matcher.matches_hyprland_window("any title", "kitty"));
    assert!(!matcher.matches_hyprland_window("any title", "alacritty"));
}

#[test]
fn test_slot_matcher_invalid_regex() {
    let result = SlotMatcher::parse("hypr-title:[invalid");
    assert!(result.is_err());
}

#[test]
fn test_parse_slot_matchers_mixed() {
    let patterns = vec![
        "zsh".to_string(),
        "cmd:nvim".to_string(),
        "hypr-title:Test.*".to_string(),
    ];
    let matchers = parse_slot_matchers(&patterns);
    assert_eq!(matchers.len(), 3);
}

#[test]
fn test_parse_slot_matchers_skips_invalid() {
    let patterns = vec![
        "zsh".to_string(),
        "hypr-title:[invalid".to_string(),
        "nvim".to_string(),
    ];
    let matchers = parse_slot_matchers(&patterns);
    assert_eq!(matchers.len(), 2);
    assert!(matchers[0].matches_cmd("zsh"));
    assert!(matchers[1].matches_cmd("nvim"));
}

#[test]
fn prefixes_are_told_apart() {
    assert_eq!(split_prefix("cmd:a:b"), (MatcherKind::Cmd, "a:b"));
    assert_eq!(split_prefix("cmd:hypr-title:x"), (MatcherKind::Cmd, "hypr-title:x"));
    assert_eq!(split_prefix("hypr-title:"), (MatcherKind::HyprTitle, ""));
    assert_eq!(split_prefix("hypr-class:x"), (MatcherKind::HyprClass, "x"));
    assert_eq!(split_prefix("hypr-clas:x"), (MatcherKind::Cmd, "hypr-clas:x"));
    assert_eq!(split_prefix(""), (MatcherKind::Cmd, ""));
}

#[test]
fn invalid_patterns_are_named() {
    let error = SlotMatcher::parse("hypr-title:[invalid").unwrap_err();
    assert_eq!(error.message(), "Invalid regex in hypr-title pattern: [invalid");
    let error = SlotMatcher::parse("hypr-class:(").unwrap_err();
    assert_eq!(error.message(), "Invalid regex in hypr-class pattern: (");
    // A process may be called anything.
    assert!(SlotMatcher::parse("cmd:[invalid").is_ok());
}

#[test]
fn matchers_look_at_one_thing() {
    let cmd = SlotMatcher::parse("kitty").unwrap();
    assert!(!cmd.is_hyprland_matcher());
    assert!(!cmd.matches_hyprland_window("kitty", "kitty"));
    let title = SlotMatcher::parse("hypr-title:kitty").unwrap();
    assert!(!title.matches_cmd("kitty"));
    assert!(!title.matches_hyprland_window("other", "kitty"));
    let copy = title.clone();
    assert!(copy.matches_hyprland_window("my kitty here", "other"));
    assert!(!copy.matches_hyprland_window("my Kitty here", "other"));
}

#[test]
fn command_line_overrides_the_configuration() {
    let config = default_config().override_with(Overrides {
        model: Some("large".to_string()),
        language: None,
        output_command: Some("wl-copy".to_string()),
        silence_duration: Some(3.0),
    });
    assert_eq!(config.model, "large");
    assert_eq!(config.language, "en");
    assert_eq!(config.output_command, Some("wl-copy".to_string()));
    assert_eq!(config.timing.silence_duration, 3.0);
    assert_eq!(config.timing.min_speech_duration, 0.5);
    let config = config.override_with(Overrides {
        model: None,
        language: Some("auto".to_string()),
        output_command: None,
        silence_duration: None,
    });
    assert_eq!(config.language, "auto");
    assert_eq!(config.output_command, Some("wl-copy".to_string()));
    assert_eq!(config.timing.silence_duration, 3.0);
    assert_eq!(MultiSlotHandler::default(), MultiSlotHandler::NoHandler);
}
