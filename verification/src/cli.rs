//! The choices the command-line front end makes: input encodings, shells for
//! completions, which language a test is highlighted with, and the colours
//! of its help text.

use vstd::prelude::*;

verus! {

/// The text encoding of the files to highlight.
#[derive(Clone, Copy, Debug, PartialEq, Eq, Structural)]
pub enum Encoding {
    Utf8,
    Utf16LE,
    Utf16BE,
}

/// A shell that completions can be generated for.
#[derive(Clone, Copy, Debug, PartialEq, Eq, Structural)]
pub enum Shell {
    Bash,
    Elvish,
    Fish,
    PowerShell,
    Zsh,
    Nushell,
}

/// The names that a list of strings holds.
pub open spec fn name_seq(names: Seq<String>) -> Seq<Seq<char>> {
    names.map_values(|s: String| s@)
}

/// Whether the language called `name` is one the test asks for.
pub open spec fn is_wanted(wanted: Seq<String>, name: Seq<char>) -> bool {
    name_seq(wanted).contains(name)
}

/// Whether any of the available languages is one the test asks for.
pub open spec fn some_wanted(available: Seq<String>, wanted: Seq<String>) -> bool {
    exists|j: int| 0 <= j < available.len() && is_wanted(wanted, #[trigger] available[j]@)
}

/// The language a test is highlighted with: the first available language
/// that the test names, or else the first available language at all.
pub open spec fn chosen_language(available: Seq<String>, wanted: Seq<String>, i: int) -> bool {
    &&& 0 <= i < available.len()
    &&& if some_wanted(available, wanted) {
        &&& is_wanted(wanted, available[i]@)
        &&& forall|j: int| 0 <= j < i ==> !is_wanted(wanted, #[trigger] available[j]@)
    } else {
        i == 0
    }
}

/// A language counts as asked for exactly when its name is equal to one of
/// the names the test lists: no prefix, suffix or other likeness counts.
pub proof fn lemma_wanted_is_exact_membership(wanted: Seq<String>, name: Seq<char>)
    ensures
        is_wanted(wanted, name) <==> exists|m: int| 0 <= m < wanted.len() && (#[trigger] wanted[m])@ == name,
{
    if is_wanted(wanted, name) {
        let m = choose|m: int| 0 <= m < name_seq(wanted).len() && name_seq(wanted)[m] == name;
        assert(wanted[m]@ == name);
    }
    if exists|m: int| 0 <= m < wanted.len() && (#[trigger] wanted[m])@ == name {
        let m = choose|m: int| 0 <= m < wanted.len() && (#[trigger] wanted[m])@ == name;
        assert(name_seq(wanted)[m] == name);
    }
}

/// The language chosen for a test is the first available one whose name
/// equals a name the test lists; only when no available name equals a listed
/// one is it the first available language.
pub proof fn lemma_chosen_language_is_first_exact_match(
    available: Seq<String>,
    wanted: Seq<String>,
    i: int,
)
    requires
        chosen_language(available, wanted, i),
    ensures
        0 <= i < available.len(),
        (exists|j: int, m: int|
            0 <= j < available.len() && 0 <= m < wanted.len() && (#[trigger] available[j])@
                == (#[trigger] wanted[m])@) ==> {
            &&& exists|m: int| 0 <= m < wanted.len() && (#[trigger] wanted[m])@ == available[i]@
            &&& forall|j: int, m: int|
                0 <= j < i && 0 <= m < wanted.len() ==> (#[trigger] available[j])@
                    != (#[trigger] wanted[m])@
        },
        !(exists|j: int, m: int|
            0 <= j < available.len() && 0 <= m < wanted.len() && (#[trigger] available[j])@
                == (#[trigger] wanted[m])@) ==> i == 0,
{
    lemma_wanted_is_exact_membership(wanted, available[i]@);
    if exists|j: int, m: int|
        0 <= j < available.len() && 0 <= m < wanted.len() && (#[trigger] available[j])@
            == (#[trigger] wanted[m])@ {
        let (j, m) = choose|j: int, m: int|
            0 <= j < available.len() && 0 <= m < wanted.len() && (#[trigger] available[j])@
                == (#[trigger] wanted[m])@;
        lemma_wanted_is_exact_membership(wanted, available[j]@);
        assert(some_wanted(available, wanted));
        assert forall|j2: int, m2: int|
            0 <= j2 < i && 0 <= m2 < wanted.len() implies (#[trigger] available[j2])@
                != (#[trigger] wanted[m2])@ by {
            lemma_wanted_is_exact_membership(wanted, available[j2]@);
            assert(!is_wanted(wanted, available[j2]@));
        }
    } else {
        if some_wanted(available, wanted) {
            let j = choose|j: int| 0 <= j < available.len() && is_wanted(wanted, #[trigger] available[j]@);
            lemma_wanted_is_exact_membership(wanted, available[j]@);
            let m = choose|m: int| 0 <= m < wanted.len() && (#[trigger] wanted[m])@ == available[j]@;
            assert(available[j]@ == wanted[m]@);
        }
    }
}

fn wants(wanted: &Vec<String>, name: &String) -> (r: bool)
    ensures
        r == is_wanted(wanted@, name@),
{
    let mut k: usize = 0;
    while k < wanted.len()
        invariant
            k <= wanted.len(),
            forall|m: int| 0 <= m < k ==> wanted@[m]@ != name@,
        decreases wanted.len() - k,
    {
        if wanted[k] == *name {
            assert(name_seq(wanted@)[k as int] == name@);
            return true;
        }
        k = k + 1;
    }
    assert(!name_seq(wanted@).contains(name@)) by {
        if name_seq(wanted@).contains(name@) {
            let m = choose|m: int| 0 <= m < name_seq(wanted@).len() && name_seq(wanted@)[m] == name@;
            assert(wanted@[m]@ == name@);
        }
    }
    false
}

/// Picks the language to highlight a test with, among the languages found in
/// the current directory (`available`, by name): the first that the test
/// lists among its languages (`wanted`), or else the first one found; `None`
/// when none was found.
pub fn select_test_language(available: &Vec<String>, wanted: &Vec<String>) -> (r: Option<usize>)
    ensures
        match r {
            Some(i) => chosen_language(available@, wanted@, i as int),
            None => available@.len() == 0,
        },
{
    let mut i: usize = 0;
    while i < available.len()
        invariant
            i <= available.len(),
            forall|j: int| 0 <= j < i ==> !is_wanted(wanted@, #[trigger] available@[j]@),
        decreases available.len() - i,
    {
        if wants(wanted, &available[i]) {
            return Some(i);
        }
        i = i + 1;
    }
    if available.len() == 0 {
        None
    } else {
        Some(0)
    }
}

/// Whether each highlighted file is preceded by its name: only when there is
/// more than one.
pub fn prints_file_names(path_count: usize) -> (r: bool)
    ensures
        r == (path_count > 1),
{
    path_count > 1
}

/// Why highlighting cannot start.
#[derive(Clone, Copy, Debug, PartialEq, Eq, Structural)]
pub enum HighlightError {
    /// A scope was asked for and no known language has it.
    UnknownScope,
    /// No language was found in the current directory.
    NoLanguage,
    /// The current directory holds no language configuration.
    NoLanguageConfiguration,
}

/// Where the language of a file to highlight comes from.
#[derive(Clone, Copy, Debug, PartialEq, Eq, Structural)]
pub enum PathLanguage {
    /// The language of the scope given on the command line.
    Scope,
    /// The language the file's name points to.
    FileName,
    /// No language: the file is passed over with a warning.
    Skip,
}

/// What the highlighter is told to do, from the command line and the
/// loaded configuration; `T` is the theme that colours the captures.
pub struct HighlightSettings<T> {
    pub theme: T,
    pub check: bool,
    pub captures_path: Option<std::path::PathBuf>,
    pub inline_styles: bool,
    pub html: bool,
    pub latex: bool,
    pub quiet: bool,
    pub print_time: bool,
    pub encoding: Option<Encoding>,
}

/// Whether the parser is rebuilt: when asked to, and whenever a grammar
/// path is given.
pub fn force_rebuild(rebuild: bool, grammar_path_given: bool) -> (r: bool)
    ensures
        r == (rebuild || grammar_path_given),
{
    rebuild || grammar_path_given
}

/// A scope given on the command line must name a known language.
pub fn check_scope(scope_given: bool, scope_found: bool) -> (r: Result<(), HighlightError>)
    ensures
        r is Err <==> (scope_given && !scope_found),
        r matches Err(e) ==> e == HighlightError::UnknownScope,
{
    if scope_given && !scope_found {
        Err(HighlightError::UnknownScope)
    } else {
        Ok(())
    }
}

/// The language of a file named on the command line: the scope's when one
/// was found, or else the one its file name points to, or else none.
pub fn path_language(scope_found: bool, file_name_found: bool) -> (r: PathLanguage)
    ensures
        r == (if scope_found {
            PathLanguage::Scope
        } else if file_name_found {
            PathLanguage::FileName
        } else {
            PathLanguage::Skip
        }),
{
    if scope_found {
        PathLanguage::Scope
    } else if file_name_found {
        PathLanguage::FileName
    } else {
        PathLanguage::Skip
    }
}

/// The language of text read from standard input: `Ok(None)` for the
/// scope's language when one was found; otherwise the first language of the
/// current directory, which must exist and must come with a configuration.
pub fn stdin_language(scope_found: bool, available: usize, current_config: bool) -> (r: Result<
    Option<usize>,
    HighlightError,
>)
    ensures
        r == (if scope_found {
            Ok(None)
        } else if available == 0 {
            Err(HighlightError::NoLanguage)
        } else if !current_config {
            Err(HighlightError::NoLanguageConfiguration)
        } else {
            Ok(Some(0usize))
        }),
{
    if scope_found {
        Ok(None)
    } else if available == 0 {
        Err(HighlightError::NoLanguage)
    } else if !current_config {
        Err(HighlightError::NoLanguageConfiguration)
    } else {
        Ok(Some(0))
    }
}

/// The language of a corpus test: the one `select_test_language` picks
/// among those of the current directory, which must come with a
/// configuration. A scope plays no part here.
pub fn test_language(available: &Vec<String>, wanted: &Vec<String>, current_config: bool) -> (r:
    Result<usize, HighlightError>)
    ensures
        available@.len() == 0 ==> r == Err::<usize, HighlightError>(HighlightError::NoLanguage),
        available@.len() > 0 && !current_config ==> r == Err::<usize, HighlightError>(
            HighlightError::NoLanguageConfiguration,
        ),
        available@.len() > 0 && current_config ==> (r matches Ok(i) && chosen_language(
            available@,
            wanted@,
            i as int,
        )),
{
    match select_test_language(available, wanted) {
        None => Err(HighlightError::NoLanguage),
        Some(i) => {
            if current_config {
                Ok(i)
            } else {
                Err(HighlightError::NoLanguageConfiguration)
            }
        },
    }
}

/// The highlighter's settings: the loaded theme and the captures file as
/// given, inline styles unless CSS classes are asked for, and every other
/// flag, and the encoding, as given.
pub fn highlight_settings<T>(
    theme: T,
    html: bool,
    css_classes: bool,
    latex: bool,
    quiet: bool,
    time: bool,
    check: bool,
    captures_path: Option<std::path::PathBuf>,
    encoding: Option<Encoding>,
) -> (r: HighlightSettings<T>)
    ensures
        r.theme == theme,
        r.check == check,
        r.captures_path == captures_path,
        r.inline_styles == !css_classes,
        r.html == html,
        r.latex == latex,
        r.quiet == quiet,
        r.print_time == time,
        r.encoding == encoding,
{
    HighlightSettings {
        theme,
        check,
        captures_path,
        inline_styles: !css_classes,
        html,
        latex,
        quiet,
        print_time: time,
        encoding,
    }
}

/// The directory whose grammars supply the languages: the grammar directory
/// when one is given, or else the current directory.
pub fn language_directory<'a>(
    grammar_path: Option<&'a std::path::PathBuf>,
    current_dir: &'a std::path::PathBuf,
) -> (r: &'a std::path::PathBuf)
    ensures
        *r == (match grammar_path {
            Some(g) => *g,
            None => *current_dir,
        }),
{
    match grammar_path {
        Some(g) => g,
        None => current_dir,
    }
}

/// A terminal colour used in the help text.
#[derive(Clone, Copy, Debug, PartialEq, Eq, Structural)]
pub enum HelpColor {
    Yellow,
    Green,
    Red,
    White,
}

/// How one kind of help text is drawn.
#[derive(Clone, Copy, Debug, PartialEq, Eq, Structural)]
pub struct TextStyle {
    pub bold: bool,
    pub color: HelpColor,
}

/// The styles of the parts of the help text.
#[derive(Clone, Copy, Debug, PartialEq, Eq, Structural)]
pub struct HelpStyles {
    pub usage: TextStyle,
    pub header: TextStyle,
    pub literal: TextStyle,
    pub invalid: TextStyle,
    pub error: TextStyle,
    pub valid: TextStyle,
    pub placeholder: TextStyle,
}

/// The help text's palette: bold yellow headings, green literals, bold red
/// for what is wrong, bold green for what is right, white placeholders.
pub fn get_styles() -> (r: HelpStyles)
    ensures
        r == (HelpStyles {
            usage: TextStyle { bold: true, color: HelpColor::Yellow },
            header: TextStyle { bold: true, color: HelpColor::Yellow },
            literal: TextStyle { bold: false, color: HelpColor::Green },
            invalid: TextStyle { bold: true, color: HelpColor::Red },
            error: TextStyle { bold: true, color: HelpColor::Red },
            valid: TextStyle { bold: true, color: HelpColor::Green },
            placeholder: TextStyle { bold: false, color: HelpColor::White },
        }),
{
    HelpStyles {
        usage: TextStyle { bold: true, color: HelpColor::Yellow },
        header: TextStyle { bold: true, color: HelpColor::Yellow },
        literal: TextStyle { bold: false, color: HelpColor::Green },
        invalid: TextStyle { bold: true, color: HelpColor::Red },
        error: TextStyle { bold: true, color: HelpColor::Red },
        valid: TextStyle { bold: true, color: HelpColor::Green },
        placeholder: TextStyle { bold: false, color: HelpColor::White },
    }
}

} // verus!
