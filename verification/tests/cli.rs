use tree_sitter_cli::cli::{
    get_styles, prints_file_names, select_test_language, Encoding, HelpColor, Shell, TextStyle,
};

fn strings(items: &[&str]) -> Vec<String> {
    items.iter().map(|s| s.to_string()).collect()
}

#[test]
fn wanted_language_is_chosen() {
    let available = strings(&["json", "rust", "c"]);
    assert_eq!(select_test_language(&available, &strings(&["rust"])), Some(1));
    assert_eq!(select_test_language(&available, &strings(&["c", "rust"])), Some(1));
}

#[test]
fn first_language_when_none_is_wanted() {
    let available = strings(&["json", "rust"]);
    assert_eq!(select_test_language(&available, &strings(&["python"])), Some(0));
    assert_eq!(select_test_language(&available, &strings(&[])), Some(0));
}

#[test]
fn no_language_found() {
    assert_eq!(select_test_language(&strings(&[]), &strings(&["rust"])), None);
}

#[test]
fn file_names_shown_for_several_files() {
    assert!(!prints_file_names(0));
    assert!(!prints_file_names(1));
    assert!(prints_file_names(2));
}

#[test]
fn help_palette() {
    let s = get_styles();
    let bold_yellow = TextStyle { bold: true, color: HelpColor::Yellow };
    assert_eq!(s.usage, bold_yellow);
    assert_eq!(s.header, bold_yellow);
    assert_eq!(s.literal, TextStyle { bold: false, color: HelpColor::Green });
    assert_eq!(s.invalid, TextStyle { bold: true, color: HelpColor::Red });
    assert_eq!(s.error, TextStyle { bold: true, color: HelpColor::Red });
    assert_eq!(s.valid, TextStyle { bold: true, color: HelpColor::Green });
    assert_eq!(s.placeholder, TextStyle { bold: false, color: HelpColor::White });
}

#[test]
fn enums_compare() {
    assert_eq!(Encoding::Utf8, Encoding::Utf8);
    assert_ne!(Encoding::Utf16LE, Encoding::Utf16BE);
    assert_ne!(Shell::Bash, Shell::Nushell);
}

use tree_sitter_cli::cli::{
    check_scope, force_rebuild, highlight_settings, path_language, stdin_language, test_language,
    language_directory, HighlightError, PathLanguage,
};
use std::path::PathBuf;

#[test]
fn grammar_path_forces_rebuild() {
    assert!(!force_rebuild(false, false));
    assert!(force_rebuild(true, false));
    assert!(force_rebuild(false, true));
    assert!(force_rebuild(true, true));
}

#[test]
fn unknown_scope_is_refused() {
    assert_eq!(check_scope(true, false), Err(HighlightError::UnknownScope));
    assert_eq!(check_scope(true, true), Ok(()));
    assert_eq!(check_scope(false, false), Ok(()));
}

#[test]
fn path_language_prefers_scope() {
    assert_eq!(path_language(true, true), PathLanguage::Scope);
    assert_eq!(path_language(true, false), PathLanguage::Scope);
    assert_eq!(path_language(false, true), PathLanguage::FileName);
    assert_eq!(path_language(false, false), PathLanguage::Skip);
}

#[test]
fn stdin_language_choices() {
    assert_eq!(stdin_language(true, 0, false), Ok(None));
    assert_eq!(stdin_language(false, 0, true), Err(HighlightError::NoLanguage));
    assert_eq!(stdin_language(false, 2, false), Err(HighlightError::NoLanguageConfiguration));
    assert_eq!(stdin_language(false, 2, true), Ok(Some(0)));
}

#[test]
fn test_language_choices() {
    let available = strings(&["json", "rust"]);
    assert_eq!(test_language(&available, &strings(&["rust"]), true), Ok(1));
    assert_eq!(test_language(&available, &strings(&["go"]), true), Ok(0));
    assert_eq!(
        test_language(&available, &strings(&["rust"]), false),
        Err(HighlightError::NoLanguageConfiguration)
    );
    assert_eq!(
        test_language(&strings(&[]), &strings(&["rust"]), false),
        Err(HighlightError::NoLanguage)
    );
}

#[test]
fn settings_copy_flags() {
    let s = highlight_settings(
        vec!["keyword".to_string()],
        true,
        true,
        false,
        true,
        false,
        true,
        Some(PathBuf::from("captures.json")),
        Some(Encoding::Utf16BE),
    );
    assert_eq!(s.theme, vec!["keyword".to_string()]);
    assert!(s.check && !s.inline_styles && s.html && !s.latex && s.quiet && !s.print_time);
    assert_eq!(s.captures_path, Some(PathBuf::from("captures.json")));
    assert_eq!(s.encoding, Some(Encoding::Utf16BE));
    let t = highlight_settings((), false, false, true, false, true, false, None, None);
    assert!(t.inline_styles && t.latex && t.print_time && !t.html && !t.check && !t.quiet);
    assert!(t.captures_path.is_none() && t.encoding.is_none());
}

#[test]
fn grammar_directory_supplies_languages() {
    let current = PathBuf::from("/work");
    let grammar = PathBuf::from("/grammars/json");
    assert_eq!(language_directory(Some(&grammar), &current), &grammar);
    assert_eq!(language_directory(None, &current), &current);
}
