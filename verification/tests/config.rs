use noma::config::{
    default_threads, history_lines, history_text, Entry, History, PasteMode, Provider, Settings,
};

fn settings() -> Settings {
    Settings::default_with_threads(4)
}

#[test]
fn a_blank_microphone_means_the_system_default() {
    assert_eq!(settings().microphone(), None);
    let blank = Settings {
        microphone: "   ".to_string(),
        ..settings()
    };
    assert_eq!(blank.microphone(), None);
}

#[test]
fn a_named_microphone_is_trimmed_and_kept() {
    let named = Settings {
        microphone: "  yeti  ".to_string(),
        ..settings()
    };
    assert_eq!(named.microphone().as_deref(), Some("yeti"));
}

#[test]
fn provider_names_match_sherpa() {
    assert_eq!(Provider::Cpu.as_sherpa(), "cpu");
    assert_eq!(Provider::Cuda.as_sherpa(), "cuda");
    assert_eq!(Provider::DirectMl.as_sherpa(), "directml");
}

#[test]
fn partial_interval_has_a_floor() {
    let settings = Settings {
        partial_interval_ms: 5,
        ..settings()
    };
    assert_eq!(settings.partial_interval(), 200);
}

#[test]
fn thread_default_is_sane() {
    for available in [None, Some(0), Some(1), Some(2), Some(7), Some(16), Some(64), Some(usize::MAX)] {
        let threads = default_threads(available);
        assert!((1..=8).contains(&threads));
    }
    assert_eq!(default_threads(None), 4);
    assert_eq!(default_threads(Some(6)), 3);
    assert_eq!(default_threads(Some(64)), 8);
}

#[test]
fn defaults_match_the_documented_file() {
    let settings = settings();
    assert_eq!(settings.model, "sherpa-onnx-nemo-parakeet-tdt-0.6b-v3-int8");
    assert_eq!(settings.provider, Provider::Cpu);
    assert_eq!(settings.hotkey, "right-ctrl");
    assert_eq!(settings.paste_mode, PasteMode::Paste);
    assert!(settings.partials);
    assert_eq!(settings.partial_interval(), 700);
    assert_eq!(settings.history_limit, 200);
    assert_eq!(Provider::default(), Provider::Cpu);
    assert_eq!(PasteMode::default(), PasteMode::Paste);
}

fn entry(text: &str) -> Entry {
    Entry::new(1.0f32.to_bits(), text, text)
}

#[test]
fn missing_file_loads_as_empty() {
    let history = History::from_oldest_first(Vec::new(), 10);
    assert!(history.is_empty());
}

#[test]
fn records_newest_first_and_survives_a_reload() {
    let mut history = History::from_oldest_first(Vec::new(), 10);
    history.remember(entry("first"));
    history.remember(entry("second"));
    assert_eq!(
        history.entries().iter().map(|e| e.text.as_str()).collect::<Vec<_>>(),
        ["second", "first"]
    );

    // What is on disk is oldest first; reading it back gives newest first.
    let on_disk: Vec<Entry> = history.entries().iter().rev().cloned().collect();
    let reloaded = History::from_oldest_first(on_disk, 10);
    assert_eq!(
        reloaded.entries().iter().map(|e| e.text.as_str()).collect::<Vec<_>>(),
        ["second", "first"]
    );
}

#[test]
fn the_limit_keeps_the_newest_and_compacts_the_file() {
    let mut history = History::from_oldest_first(Vec::new(), 2);
    let mut lines_on_disk = 0;
    for index in 0..6 {
        history.remember(entry(&format!("line {index}")));
        lines_on_disk += 1;
        if history.needs_compaction(lines_on_disk) {
            lines_on_disk = history.entries().len();
        }
    }
    assert_eq!(history.entries().len(), 2);
    assert_eq!(history.entries()[0].text, "line 5");
    // Compaction keeps the file from growing without bound.
    assert!(lines_on_disk <= 4, "file kept {} lines", lines_on_disk);

    let on_disk: Vec<Entry> = history.entries().iter().rev().cloned().collect();
    let reloaded = History::from_oldest_first(on_disk, 2);
    assert_eq!(reloaded.entries()[0].text, "line 5");
}

#[test]
fn a_zero_limit_records_nothing() {
    let mut history = History::from_oldest_first(Vec::new(), 0);
    assert!(!history.records());
    history.remember(entry("secret"));
    assert!(history.is_empty());
}

#[test]
fn clear_forgets_the_file_too() {
    let mut history = History::from_oldest_first(Vec::new(), 10);
    history.remember(entry("gone"));
    history.clear();
    assert!(history.is_empty());
}

#[test]
fn a_long_file_keeps_only_the_newest() {
    let loaded: Vec<Entry> = (0..5).map(|index| entry(&format!("line {index}"))).collect();
    let history = History::from_oldest_first(loaded, 3);
    assert_eq!(
        history.entries().iter().map(|e| e.text.as_str()).collect::<Vec<_>>(),
        ["line 4", "line 3", "line 2"]
    );
    assert_eq!(history.limit(), 3);
}

#[test]
fn compaction_waits_for_twice_the_limit() {
    let history = History::from_oldest_first(Vec::new(), 3);
    assert!(!history.needs_compaction(6));
    assert!(history.needs_compaction(7));
    let huge = History::from_oldest_first(Vec::new(), usize::MAX);
    assert!(!huge.needs_compaction(usize::MAX));
}

fn at(now: u64, seconds: u64) -> Entry {
    Entry {
        at: now - seconds,
        seconds_bits: 1.0f32.to_bits(),
        raw: String::new(),
        text: String::new(),
    }
}

#[test]
fn ages_read_the_way_a_person_would_say_them() {
    let now = 1_000_000;
    assert_eq!(at(now, 5).age(now), "just now");
    assert_eq!(at(now, 300).age(now), "5 min ago");
    assert_eq!(at(now, 7_200).age(now), "2 h ago");
    assert_eq!(at(now, 90_000).age(now), "yesterday");
    assert_eq!(at(now, 400_000).age(now), "4 d ago");
}

#[test]
fn ages_at_the_boundaries() {
    let now = 10_000_000;
    assert_eq!(at(now, 59).age(now), "just now");
    assert_eq!(at(now, 60).age(now), "1 min ago");
    assert_eq!(at(now, 3_599).age(now), "59 min ago");
    assert_eq!(at(now, 3_600).age(now), "1 h ago");
    assert_eq!(at(now, 86_399).age(now), "23 h ago");
    assert_eq!(at(now, 86_400).age(now), "yesterday");
    assert_eq!(at(now, 172_799).age(now), "yesterday");
    assert_eq!(at(now, 172_800).age(now), "2 d ago");
    assert_eq!(at(now, 8_640_000).age(now), "100 d ago");
}

#[test]
fn a_clock_that_went_backwards_reads_as_just_now() {
    let entry = Entry {
        at: 2_000,
        seconds_bits: 1.0f32.to_bits(),
        raw: String::new(),
        text: String::new(),
    };
    assert_eq!(entry.age(1_000), "just now");
}

#[test]
fn edits_are_visible() {
    assert!(Entry::new(1.0f32.to_bits(), "um hello", "Hello").was_edited());
    assert!(!Entry::new(1.0f32.to_bits(), "Hello", "Hello").was_edited());
    assert!(!Entry::new(1.0f32.to_bits(), "  Hello ", "Hello").was_edited());
}

#[test]
fn a_new_entry_is_stamped_with_the_clock() {
    let entry = Entry::new(2.5f32.to_bits(), "raw", "text");
    // Any machine running this has a clock past 2020.
    assert!(entry.at > 1_577_836_800);
    assert_eq!(f32::from_bits(entry.seconds_bits), 2.5);
}

#[test]
fn history_records_are_its_filled_lines() {
    let text = "{\"a\":1}\n\n   \n{\"b\":2}\r\n{\"c\":3}";
    assert_eq!(
        history_lines(text),
        vec!["{\"a\":1}".to_string(), "{\"b\":2}".to_string(), "{\"c\":3}".to_string()]
    );
    assert!(history_lines("").is_empty());
    assert!(history_lines("\n\n").is_empty());
}

#[test]
fn a_rewritten_history_file_reads_back() {
    let lines = vec!["one".to_string(), "two".to_string()];
    let text = history_text(&lines);
    assert_eq!(text, "one\ntwo\n");
    assert_eq!(history_lines(&text), lines);
    let mut grown = text.clone();
    grown.push_str("three\n");
    assert_eq!(history_lines(&grown).len(), 3);
}
