use noma::text::commands::{match_at, spoken_commands};
use noma::text::render::{capitalized, ends_sentence, render, Piece};
use noma::text::words::{normalize_word, trailing_punctuation};
use noma::text::{default_fillers, process, Replacement, TextSettings};

fn settings() -> TextSettings {
    TextSettings::default()
}

#[test]
fn passthrough_when_disabled() {
    let mut settings = settings();
    settings.enabled = false;
    assert_eq!(process("  um hello there  ", &settings), "um hello there");
}

#[test]
fn drops_fillers() {
    assert_eq!(process("um hello uh there", &settings()), "Hello there");
}

#[test]
fn keeps_words_that_merely_contain_a_filler() {
    assert_eq!(
        process("the umbrella is uh red", &settings()),
        "The umbrella is red"
    );
}

#[test]
fn filler_keeps_its_punctuation() {
    assert_eq!(process("well um, that works", &settings()), "Well, that works");
}

#[test]
fn spoken_new_line_breaks_the_text() {
    assert_eq!(
        process("first line new line second line", &settings()),
        "First line\nSecond line"
    );
}

#[test]
fn spoken_punctuation_attaches_to_the_previous_word() {
    assert_eq!(
        process("does it work question mark", &settings()),
        "Does it work?"
    );
}

#[test]
fn replacements_win_over_fillers_and_keep_punctuation() {
    let mut settings = settings();
    settings.replacements = vec![Replacement::new("no ma", "Noma")];
    assert_eq!(process("i use no ma, daily", &settings), "I use Noma, daily");
}

#[test]
fn longest_replacement_wins() {
    let mut settings = settings();
    settings.replacements = vec![
        Replacement::new("open", "OPEN"),
        Replacement::new("open a i", "OpenAI"),
    ];
    assert_eq!(process("open a i ships", &settings), "OpenAI ships");
}

#[test]
fn capitalizes_after_sentence_end() {
    assert_eq!(
        process("hello there. how are you?", &settings()),
        "Hello there. How are you?"
    );
}

#[test]
fn optional_final_period() {
    let mut settings = settings();
    settings.ensure_final_punctuation = true;
    assert_eq!(process("no trailing period", &settings), "No trailing period.");
    assert_eq!(process("already there!", &settings), "Already there!");
}

#[test]
fn empty_input_stays_empty() {
    assert_eq!(process("   ", &settings()), "");
}

#[test]
fn all_filler_input_stays_empty() {
    assert_eq!(process("um uh hmm", &settings()), "");
}

#[test]
fn trailing_punctuation_handles_unicode() {
    assert_eq!(trailing_punctuation("café,"), ",");
    assert_eq!(trailing_punctuation("café"), "");
    assert_eq!(trailing_punctuation("..."), "...");
}

#[test]
fn matches_the_longest_phrase() {
    let words = ["new", "paragraph", "here"];
    let (command, len) = match_at(&words, 0).expect("match");
    assert_eq!(command.emits, "\n\n");
    assert_eq!(len, 2);
}

#[test]
fn ignores_a_phrase_the_model_punctuated_mid_sentence() {
    let words = ["a", "new.", "line"];
    assert!(match_at(&words, 1).is_none());
}

#[test]
fn tolerates_a_trailing_comma_on_the_last_word() {
    let words = ["new", "line,", "then"];
    let (command, len) = match_at(&words, 0).expect("match");
    assert_eq!(command.emits, "\n");
    assert_eq!(len, 2);
}

#[test]
fn no_match_past_the_end() {
    let words = ["new"];
    assert!(match_at(&words, 0).is_none());
}

#[test]
fn descriptions_are_human_readable() {
    assert!(spoken_commands()
        .iter()
        .any(|command| command.description() == "\"new line\" - line break"));
}

fn plain() -> TextSettings {
    TextSettings {
        capitalize_sentences: false,
        ensure_final_punctuation: false,
        ..TextSettings::default()
    }
}

fn word(text: &str) -> Piece {
    Piece::Word(text.to_string())
}

#[test]
fn punctuation_hugs_the_previous_word() {
    let pieces = vec![word("hello"), Piece::Punctuation("?".into()), word("yes")];
    assert_eq!(render(&pieces, &plain()), "hello? yes");
}

#[test]
fn leading_punctuation_is_dropped() {
    let pieces = vec![Piece::Punctuation("?".into()), word("yes")];
    assert_eq!(render(&pieces, &plain()), "yes");
}

#[test]
fn breaks_eat_the_space_before_them() {
    let pieces = vec![word("one"), Piece::Break("\n".into()), word("two")];
    assert_eq!(render(&pieces, &plain()), "one\ntwo");
}

#[test]
fn capitalizes_after_a_break_and_after_a_full_stop() {
    let pieces = vec![
        word("one."),
        word("two"),
        Piece::Break("\n".into()),
        word("three"),
    ];
    assert_eq!(render(&pieces, &TextSettings::default()), "One. Two\nThree");
}

#[test]
fn quoted_sentence_end_still_counts() {
    assert!(ends_sentence("done.\""));
    assert!(!ends_sentence("mid,"));
}

#[test]
fn capitalizing_skips_a_leading_quote() {
    assert_eq!(capitalized("\"hello"), "\"Hello");
    assert_eq!(capitalized("42"), "42");
}

#[test]
fn no_final_period_after_a_break() {
    let pieces = vec![word("one"), Piece::Break("\n".into())];
    let settings = TextSettings {
        ensure_final_punctuation: true,
        ..TextSettings::default()
    };
    assert_eq!(render(&pieces, &settings), "One\n");
}

// Further cases: the default filler list and word normalization.

#[test]
fn the_default_filler_list() {
    assert_eq!(
        default_fillers(),
        vec!["um", "uh", "uhm", "erm", "eh", "mm", "hmm", "mhm"]
    );
}

#[test]
fn plain_settings_only_normalize_spacing() {
    let settings = TextSettings {
        spoken_commands: false,
        remove_fillers: false,
        replacements: Vec::new(),
        capitalize_sentences: false,
        ensure_final_punctuation: false,
        ..TextSettings::default()
    };
    assert_eq!(
        process("  um\tnew   line \u{3000} question mark ", &settings),
        "um new line question mark"
    );
}

#[test]
fn blank_input_gives_nothing_under_any_settings() {
    let mut settings = settings();
    settings.ensure_final_punctuation = true;
    assert_eq!(process(" \t\n\u{a0} ", &settings), "");
    settings.enabled = false;
    assert_eq!(process(" \t\n\u{a0} ", &settings), "");
}

#[test]
fn the_result_never_ends_in_a_space() {
    assert_eq!(process("hello new line", &settings()), "Hello\n");
    assert_eq!(process("hello um, ", &settings()), "Hello,");
}

#[test]
fn a_final_period_is_not_doubled_after_other_marks() {
    let mut settings = settings();
    settings.ensure_final_punctuation = true;
    assert_eq!(process("what question mark", &settings), "What?");
    assert_eq!(process("see (this)", &settings), "See (this)");
}

#[test]
fn spoken_commands_can_be_turned_off() {
    let mut settings = settings();
    settings.spoken_commands = false;
    assert_eq!(process("first new line", &settings), "First new line");
}

#[test]
fn fillers_can_be_kept() {
    let mut settings = settings();
    settings.remove_fillers = false;
    assert_eq!(process("um hello", &settings), "Um hello");
}

#[test]
fn a_blank_replacement_phrase_never_matches() {
    let mut settings = settings();
    settings.replacements = vec![Replacement::new("  ,, ", "X")];
    assert_eq!(process("hello there", &settings), "Hello there");
}

#[test]
fn replacements_match_case_and_punctuation_insensitively() {
    let mut settings = settings();
    settings.replacements = vec![Replacement::new("No Ma", "Noma")];
    assert_eq!(process("\"no ma\" rocks", &settings), "Noma\" rocks");
}

#[test]
fn new_paragraph_and_ellipsis() {
    assert_eq!(
        process("one new paragraph two ellipsis", &settings()),
        "One\n\nTwo..."
    );
}

#[test]
fn descriptions_of_each_kind() {
    let all = spoken_commands();
    let described: Vec<String> = all.iter().map(|command| command.description()).collect();
    assert!(described.contains(&"\"new paragraph\" - blank line".to_string()));
    assert!(described.contains(&"\"question mark\" - ?".to_string()));
    assert_eq!(all.len(), 8);
}

#[test]
fn the_longest_command_beats_a_shorter_one() {
    let words = ["exclamation", "point"];
    let (command, len) = match_at(&words, 0).expect("match");
    assert_eq!(command.emits, "!");
    assert_eq!(len, 2);
    assert!(match_at(&words, 5).is_none());
}

#[test]
fn capitalizing_uses_the_full_uppercase_mapping() {
    assert_eq!(capitalized("ßtraße"), "SStraße");
    assert_eq!(capitalized("éclair"), "Éclair");
}

#[test]
fn lowercasing_covers_more_than_ascii() {
    let mut settings = settings();
    settings.replacements = vec![Replacement::new("ÉCLAIR", "eclair")];
    assert_eq!(process("Éclair", &settings), "Eclair");
}

#[test]
fn words_are_compared_bare_and_lowercase() {
    assert_eq!(normalize_word("\"Hello,\""), "hello");
    assert_eq!(normalize_word("Um..."), "um");
    assert_eq!(normalize_word("..."), "");
    assert_eq!(normalize_word("Café!"), "café");
}
