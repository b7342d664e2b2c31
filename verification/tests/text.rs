use stentor::slot_images::{
    ensure_slot_images, generate_slot_image, get_slot_image_path, image_name, place_dot, Dot,
    InvalidSlot, IMAGE_SIZE,
};
use stentor::text::{
    chars_of, decimal, find_from, is_white_space, last_part, matches_at, parse_usize, remove_all,
    same_text, split, starts_with, strip_prefix, trim, trim_suffix,
};
use stentor::transcript::{clean, extend, join_segments, preview, push_segment};
use stentor::transcription::{
    check_download, get_model_path, model_file, model_path, model_url, ModelSource, Transcriber,
};

#[test]
fn test_get_slot_image_path_valid() {
    for slot in 1..=8 {
        let result = get_slot_image_path(slot, "monospace:bold");
        assert!(result.is_ok(), "Failed for slot {slot}: {result:?}");
        let path = result.unwrap();
        assert!(path.contains(&format!("slot_{slot}.png")));
    }
}

#[test]
fn test_get_slot_image_path_invalid() {
    assert!(get_slot_image_path(0, "monospace:bold").is_err());
    assert!(get_slot_image_path(9, "monospace:bold").is_err());
}

#[test]
fn pictures_lie_in_the_cache() {
    assert_eq!(image_name(3), "slot_3.png");
    assert_eq!(get_slot_image_path(3, "/c").unwrap(), "/c/slot_3.png");
    assert_eq!(get_slot_image_path(3, "/c/").unwrap(), "/c/slot_3.png");
    assert_eq!(get_slot_image_path(3, "").unwrap(), "slot_3.png");
    assert_eq!(get_slot_image_path(9, "/c").unwrap_err(), InvalidSlot { slot_num: 9 });
    assert_eq!(
        get_slot_image_path(0, "/c").unwrap_err().message(),
        "Invalid slot number: 0 (must be 1-8)"
    );
    assert!(ensure_slot_images(&[true; 8]).is_empty());
    assert!(ensure_slot_images(&[true; 9]).is_empty());
    let mut present = [true; 8];
    present[7] = false;
    assert_eq!(ensure_slot_images(&present), vec![1, 2, 3, 4, 5, 6, 7, 8]);
    assert_eq!(ensure_slot_images(&[true; 7]).len(), 8);
}

#[test]
fn dots_outside_the_picture_are_dropped() {
    assert_eq!(place_dot(3, 4, 10, -4), Some((13, 0)));
    assert_eq!(place_dot(3, 3, 10, -4), None);
    assert_eq!(place_dot(IMAGE_SIZE - 1, 0, 0, 0), Some((511, 0)));
    assert_eq!(place_dot(IMAGE_SIZE, 0, 0, 0), None);
    assert_eq!(place_dot(u32::MAX, 0, i32::MAX, 0), None);
}

#[test]
fn digits_are_drawn_in_white() {
    let dots = vec![
        Dot { x: 1, y: 2, alpha: 100 },
        Dot { x: 0, y: 0, alpha: 9 },
        Dot { x: 1, y: 2, alpha: 178 },
        Dot { x: 2, y: 509, alpha: 50 },
    ];
    let bytes = generate_slot_image(&dots, -1, 3);
    assert_eq!(bytes.len(), 512 * 512 * 4);
    let at = |x: usize, y: usize| {
        let i = 4 * (y * 512 + x);
        [bytes[i], bytes[i + 1], bytes[i + 2], bytes[i + 3]]
    };
    // The later of two dots at one place counts, and those outside are dropped.
    assert_eq!(at(0, 5), [255, 255, 255, 178]);
    assert_eq!(at(5, 0), [0, 0, 0, 0]);
    let drawn = bytes.chunks(4).filter(|p| p != &[0, 0, 0, 0]).count();
    assert_eq!(drawn, 1);
    let blank = generate_slot_image(&vec![], 0, 0);
    assert!(blank.iter().all(|b| *b == 0));
}

#[test]
fn white_space_is_that_of_unicode() {
    for u in 0..=0x10ffffu32 {
        if let Some(c) = char::from_u32(u) {
            assert_eq!(is_white_space(c), c.is_whitespace(), "{:x}", u);
        }
    }
}

#[test]
fn text_is_taken_apart() {
    assert_eq!(trim("\u{3000} a b\t\n"), "a b");
    assert_eq!(trim(" \n"), "");
    assert!(starts_with("unix:@x", "unix:"));
    assert!(!starts_with("un", "unix:"));
    assert_eq!(strip_prefix("unix:@x", "unix:"), Some("@x"));
    assert_eq!(strip_prefix("x", "unix:"), None);
    assert_eq!(last_part("a/b/c", '/'), "c");
    assert_eq!(last_part("a/b/", '/'), "");
    assert_eq!(last_part("abc", '/'), "abc");
    assert_eq!(trim_suffix("x.git.git", ".git"), "x");
    assert_eq!(trim_suffix(".git", ".git"), "");
    assert_eq!(split("a\n\nb", '\n'), vec!["a", "", "b"]);
    assert_eq!(split("", '\n'), vec![""]);
    assert_eq!(remove_all("a[B]b[B][B]", "[B]"), "ab");
    assert_eq!(remove_all("aaa", "aa"), "a");
    assert!(same_text("é", "é"));
    assert!(!same_text("a", "b"));
    assert!(!same_text("a", "ab"));
    assert!(matches_at(&chars_of("xyz"), &chars_of("yz"), 1));
    assert_eq!(find_from(&chars_of("abab"), &chars_of("ab"), 1), Some(2));
    assert_eq!(find_from(&chars_of("abab"), &chars_of("ab"), 3), None);
}

#[test]
fn numbers_are_written_and_read() {
    for n in [0u64, 7, 10, 99, 12345, u64::MAX] {
        assert_eq!(decimal(n), n.to_string());
    }
    for s in ["0", "007", "+5", "18446744073709551615", "18446744073709551616", "", "+", "-1",
        "1 ", "1_0", "٣", "99999999999999999999999"] {
        assert_eq!(parse_usize(s), s.parse::<usize>().ok(), "{}", s);
    }
}

#[test]
fn transcriptions_are_cleaned() {
    assert_eq!(clean(" [BLANK_AUDIO] hello [BLANK_AUDIO]\n"), "hello");
    assert_eq!(clean("[BLANK_AUDIO]"), "");
    assert_eq!(clean("a [BLANK_AUDIO] b"), "a  b");
    let mut text = String::new();
    extend(&mut text, Some(" one "));
    extend(&mut text, None);
    extend(&mut text, Some("[BLANK_AUDIO]"));
    extend(&mut text, Some("two"));
    assert_eq!(text, "one two");
    assert_eq!(preview(Some(" x ")), "x");
    assert_eq!(preview(None), "");
}

#[test]
fn segments_are_put_together() {
    let mut text = String::new();
    push_segment(&mut text, " one ");
    push_segment(&mut text, "[BLANK_AUDIO]");
    push_segment(&mut text, "two");
    assert_eq!(text, "one two");
    let segments = vec![Some(" Hello".to_string()), None, Some(" world. ".to_string())];
    assert_eq!(join_segments(&segments), "Hello world.");
    let transcriber = Transcriber::new("en".to_string());
    assert_eq!(transcriber.transcribe(&segments), "Hello world.");
    assert_eq!(transcriber.transcribe(&vec![]), "");
}

#[test]
fn language_can_be_found_out() {
    assert_eq!(Transcriber::new("auto".to_string()).get_language(), None);
    assert_eq!(Transcriber::new("en".to_string()).get_language(), Some("en"));
    assert_eq!(Transcriber::new("Auto".to_string()).get_language(), Some("Auto"));
}

#[test]
fn test_model_path_construction() {
    // The file of the model, wherever it is taken from.
    let result = get_model_path("/home/u", "tiny", false, false);
    assert_eq!(
        result,
        ("/home/u/.local/share/whisper/ggml-tiny.bin".to_string(), ModelSource::Download)
    );
}

#[test]
fn models_are_found_or_downloaded() {
    assert_eq!(model_file("tiny"), "ggml-tiny.bin");
    assert_eq!(
        model_url("tiny"),
        "https://huggingface.co/ggerganov/whisper.cpp/resolve/main/ggml-tiny.bin"
    );
    assert_eq!(
        model_path("/home/u", "base"),
        "/home/u/.local/share/whisper/ggml-base.bin"
    );
    assert_eq!(
        model_path("/root/", "tiny"),
        "/root/.local/share/whisper/ggml-tiny.bin"
    );
    let path = |installed, local| get_model_path("/home/u", "base", installed, local);
    let at_home = "/home/u/.local/share/whisper/ggml-base.bin".to_string();
    assert_eq!(path(true, true), (at_home.clone(), ModelSource::Installed));
    assert_eq!(path(true, false), (at_home.clone(), ModelSource::Installed));
    assert_eq!(path(false, true), ("ggml-base.bin".to_string(), ModelSource::Local));
    assert_eq!(path(false, false), (at_home, ModelSource::Download));
    assert_eq!(check_download("tiny", true, "200 OK", Some(5)), Ok(5));
    assert_eq!(
        check_download("huge", false, "404 Not Found", Some(5)),
        Err("Failed to download model: HTTP 404 Not Found. Model 'huge' may not exist.".to_string())
    );
    assert_eq!(
        check_download("tiny", true, "200 OK", None),
        Err("Failed to get content length".to_string())
    );
}
