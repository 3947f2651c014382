use std::path::PathBuf;
use echo::whisper::{
    choose_backend, find_whisper_path, get_model_path, select_whisper_path, whisper_candidates,
    TranscriptionBackend, WhisperLocation, get_thread_count, transcript_from_output, whisper_args,
    whisper_outcome, WHISPER_NOT_FOUND,
};

#[test]
fn transcript_joins_lines_and_drops_markers() {
    let out = "[00:00:00.000 --> 00:00:02.000]\n  Hello there.\n\n[BLANK_AUDIO]\nHow are you?  \n";
    assert_eq!(transcript_from_output(out), "Hello there. How are you?");
}

#[test]
fn transcript_handles_crlf_and_whitespace_lines() {
    let out = "first line\r\n \t \r\nsecond\r\n";
    assert_eq!(transcript_from_output(out), "first line second");
}

#[test]
fn transcript_of_empty_or_marker_only_output_is_empty() {
    assert_eq!(transcript_from_output(""), "");
    assert_eq!(transcript_from_output("\n\n"), "");
    assert_eq!(transcript_from_output("[BLANK_AUDIO]\n"), "");
}

#[test]
fn transcript_keeps_indented_bracket_lines() {
    // only a '[' at the very start of a line marks it
    assert_eq!(transcript_from_output(" [music] la la\nend"), "[music] la la end");
}

#[test]
fn transcript_keeps_bare_carriage_return_inside() {
    assert_eq!(transcript_from_output("a\rb\nc"), "a\rb c");
    assert_eq!(transcript_from_output("a\r"), "a");
}

#[test]
fn transcript_matches_std_line_handling() {
    let samples = [
        "x\n\n y \r\n[z]\n\u{3000}w\u{3000}\n",
        "one\ntwo\r\nthree\r",
        "\u{a0}\u{2003}keep\u{2028}\n",
        "  lead\ntrail  ",
    ];
    for s in samples.iter() {
        let expected = s
            .lines()
            .filter(|line| !line.trim().is_empty() && !line.starts_with('['))
            .collect::<Vec<&str>>()
            .join(" ");
        assert_eq!(transcript_from_output(s), expected.trim());
    }
}

#[test]
fn whitespace_test_agrees_with_std() {
    for u in 0u32..=0x10FFFF {
        if let Some(c) = char::from_u32(u) {
            assert_eq!(echo::text::is_whitespace_char(c), c.is_whitespace(), "U+{:04X}", u);
        }
    }
}

#[test]
fn model_path_found_or_reported_missing() {
    assert_eq!(
        get_model_path("base.en", "C:\\Program Files\\Echo", '\\', true).unwrap(),
        "C:\\Program Files\\Echo\\models\\ggml-base.en.bin"
    );
    assert_eq!(
        get_model_path("small.en", "/Applications/Echo.app/Contents/MacOS", '/', true).unwrap(),
        "/Applications/Echo.app/Contents/MacOS/models/ggml-small.en.bin"
    );
    assert_eq!(
        get_model_path("tiny.en", "C:\\Echo", '\\', false).unwrap_err(),
        "Model tiny.en not found. Please download it from Settings."
    );
}

#[test]
fn thread_count_is_capped_at_eight() {
    assert_eq!(get_thread_count(Some(1)), 1);
    assert_eq!(get_thread_count(Some(8)), 8);
    assert_eq!(get_thread_count(Some(64)), 8);
    assert_eq!(get_thread_count(None), 4);
}

#[test]
fn whisper_command_line() {
    let args = whisper_args("rec.wav", "model.bin", 12);
    assert_eq!(
        args,
        vec!["-f", "rec.wav", "-m", "model.bin", "-nt", "-t", "12", "-l", "en", "-np"]
    );
    assert_eq!(whisper_args("a", "b", 0)[6], "0");
    assert_eq!(whisper_args("a", "b", 1234567)[6], "1234567");
}

#[test]
fn decimal_matches_to_string() {
    for n in [0usize, 7, 9, 10, 99, 100, 4096, usize::MAX] {
        assert_eq!(echo::text::decimal(n), n.to_string());
    }
}

#[test]
fn whisper_outcome_success_and_failure() {
    assert_eq!(whisper_outcome(true, " hi \n[x]\nthere\n", "warn"), Ok("hi  there".to_string()));
    assert_eq!(
        whisper_outcome(false, "ignored", "no model"),
        Err("Whisper failed: no model".to_string())
    );
}

#[test]
fn whisper_path_falls_back_when_file_exists() {
    let candidates = whisper_candidates();
    let search = find_whisper_path(true);
    assert!(!search.names.is_empty() && search.names.len() <= 6);
    assert_eq!(&search.names[..], &candidates[..search.names.len()]);
    assert!(search.location.is_ok());
    let search = find_whisper_path(false);
    match search.location {
        Ok(WhisperLocation::OnPath(_)) => {}
        Ok(WhisperLocation::Fallback) => panic!("fallback chosen although it does not exist"),
        Err(e) => {
            assert_eq!(e, WHISPER_NOT_FOUND);
            assert_eq!(search.names, candidates);
        }
    }
}

fn on_path(location: Result<WhisperLocation, String>) -> Option<PathBuf> {
    match location {
        Ok(WhisperLocation::OnPath(p)) => Some(p),
        _ => None,
    }
}

#[test]
fn whisper_path_selection() {
    let found = PathBuf::from("/usr/bin/whisper");
    let later = PathBuf::from("/usr/bin/main");
    assert_eq!(
        on_path(select_whisper_path(vec![None, None, Some(found.clone()), Some(later.clone())], false)),
        Some(found.clone())
    );
    assert_eq!(on_path(select_whisper_path(vec![Some(found.clone())], true)), Some(found));
    assert!(matches!(select_whisper_path(vec![None; 6], true), Ok(WhisperLocation::Fallback)));
    assert!(matches!(select_whisper_path(vec![], true), Ok(WhisperLocation::Fallback)));
    match select_whisper_path(vec![None, None], false) {
        Err(e) => assert_eq!(e, "Whisper executable not found. Please install whisper.cpp."),
        Ok(_) => panic!("a location was chosen"),
    }
}

#[test]
fn whisper_candidate_order() {
    assert_eq!(
        whisper_candidates(),
        vec!["whisper-cli", "whisper-cli.exe", "whisper", "whisper.exe", "main", "main.exe"]
    );
}

#[test]
fn backend_choice() {
    let local = PathBuf::from("/usr/bin/whisper-cli");
    match choose_backend(Ok(local.clone()), Some("sk-test".to_string())) {
        Ok(TranscriptionBackend::Local(p)) => assert_eq!(p, local),
        _ => panic!("local whisper should be chosen"),
    }
    match choose_backend(Err("missing".to_string()), Some("sk-test".to_string())) {
        Ok(TranscriptionBackend::OpenAi(k)) => assert_eq!(k, "sk-test"),
        _ => panic!("the API should be chosen"),
    }
    match choose_backend(Err("missing".to_string()), Some(String::new())) {
        Err(e) => assert_eq!(e, "OPENAI_API_KEY not set"),
        _ => panic!("an empty key was accepted"),
    }
    match choose_backend(Err("missing".to_string()), None) {
        Err(e) => assert_eq!(e, "missing"),
        _ => panic!("a backend was chosen without whisper or key"),
    }
}
