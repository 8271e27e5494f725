use vstd::prelude::*;

verus! {

/// How a command-line run ends: normally, or with the exit code of a program it ran.
#[derive(Clone, Copy, Debug, PartialEq, Eq, Structural)]
pub enum CliOutcome {
    Success,
    Exit(i32),
}

pub open spec fn is_ascii_letter(c: char) -> bool {
    ('a' <= c && c <= 'z') || ('A' <= c && c <= 'Z')
}

pub open spec fn is_name_char(c: char) -> bool {
    is_ascii_letter(c) || ('0' <= c && c <= '9') || c == '_' || c == '-'
}

/// A project name starts with an ASCII letter and holds only ASCII letters,
/// digits, `-` and `_`.
pub open spec fn well_formed_project_name(name: Seq<char>) -> bool {
    &&& name.len() > 0
    &&& is_ascii_letter(name[0])
    &&& forall|i: int| 0 <= i < name.len() ==> is_name_char(#[trigger] name[i])
}

/// The characters from `a` to `z` and from `A` to `Z`.
pub open spec fn ascii_letter_range(c: char) -> bool {
    ('a' <= c && c <= 'z') || ('A' <= c && c <= 'Z')
}

/// A nonempty name that starts with a letter from `a`–`z` or `A`–`Z` and
/// holds only such letters, digits from `0` to `9`, `-` and `_`.
pub open spec fn letters_digits_name(name: Seq<char>) -> bool {
    &&& name.len() > 0
    &&& ascii_letter_range(name[0])
    &&& forall|i: int|
        0 <= i < name.len() ==> ascii_letter_range(#[trigger] name[i]) || ('0' <= name[i] && name[i] <= '9')
            || name[i] == '-' || name[i] == '_'
}

/// Every letter from `a` to `z` and from `A` to `Z` is an ASCII letter, and
/// nothing else is; so a name of such letters, digits, `-` and `_` that
/// starts with a letter is well formed, and one that does not start with a
/// letter is not.
pub proof fn lemma_ascii_letters(name: Seq<char>)
    ensures
        forall|c: char| is_ascii_letter(c) <==> ascii_letter_range(c),
        letters_digits_name(name) <==> well_formed_project_name(name),
        !(name.len() > 0 && ascii_letter_range(name[0])) ==> !well_formed_project_name(name),
{
    if letters_digits_name(name) {
        assert forall|i: int| 0 <= i < name.len() implies is_name_char(#[trigger] name[i]) by {
            assert(ascii_letter_range(name[i]) || ('0' <= name[i] && name[i] <= '9') || name[i] == '-'
                || name[i] == '_');
        }
    }
    if well_formed_project_name(name) {
        assert forall|i: int| 0 <= i < name.len() implies ascii_letter_range(#[trigger] name[i]) || (
        '0' <= name[i] && name[i] <= '9') || name[i] == '-' || name[i] == '_' by {
            assert(is_name_char(name[i]));
        }
    }
}

pub open spec fn name_error() -> Seq<char> {
    "Project names must start with an ASCII letter and contain only ASCII letters, digits, '-' or '_'"@
}

pub open spec fn reserved_error() -> Seq<char> {
    "Project name 'stdlib' is reserved for the standard library"@
}

/// The manifest of a new project.
pub open spec fn manifest_text(name: Seq<char>) -> Seq<char> {
    "[crate]\nname = \""@ + name + "\"\nversion = \"0.1.0\"\n\n[lib]\npath = \"src/main.rk\"\n"@
}

/// The files of a new project, by path relative to its directory.
pub open spec fn project_files_spec(name: Seq<char>) -> Seq<(Seq<char>, Seq<char>)> {
    seq![
        ("rock.toml"@, manifest_text(name)),
        ("src/main.rk"@, "main = !->\n    \"Hello, Rock!\".println!\n"@),
        (".gitignore"@, "/build/\n"@),
    ]
}

fn ascii_letter(c: char) -> (r: bool)
    ensures
        r <==> (('a' <= c && c <= 'z') || ('A' <= c && c <= 'Z')),
        r == is_ascii_letter(c),
{
    ('a' <= c && c <= 'z') || ('A' <= c && c <= 'Z')
}

fn name_char(c: char) -> (r: bool)
    ensures
        r == is_name_char(c),
{
    ascii_letter(c) || ('0' <= c && c <= '9') || c == '_' || c == '-'
}

/// Whether two strings hold the same characters.
pub(crate) fn same_text(a: &str, b: &str) -> (r: bool)
    ensures
        r == (a@ == b@),
{
    let n = a.unicode_len();
    if n != b.unicode_len() {
        return false;
    }
    let mut i: usize = 0;
    while i < n
        invariant
            i <= n,
            n == a@.len(),
            n == b@.len(),
            forall|j: int| 0 <= j < i ==> a@[j] == b@[j],
        decreases n - i,
    {
        if a.get_char(i) != b.get_char(i) {
            return false;
        }
        i = i + 1;
    }
    assert(a@ =~= b@);
    true
}

/// Checks a name for a new project: well formed, and not the reserved `stdlib`.
pub fn validate_project_name(name: &str) -> (r: Result<(), String>)
    ensures
        letters_digits_name(name@) && name@ != "stdlib"@ ==> r is Ok,
        !letters_digits_name(name@) ==> (r matches Err(e) && e@ == name_error()),
        letters_digits_name(name@) && name@ == "stdlib"@ ==> (r matches Err(e) && e@ == reserved_error()),
        !(name@.len() > 0 && ascii_letter_range(name@[0])) ==> (r matches Err(e) && e@ == name_error()),
        !well_formed_project_name(name@) ==> (r matches Err(e) && e@ == name_error()),
        well_formed_project_name(name@) && name@ == "stdlib"@ ==> (r matches Err(e) && e@
            == reserved_error()),
        well_formed_project_name(name@) && name@ != "stdlib"@ ==> r is Ok,
{
    proof {
        lemma_ascii_letters(name@);
    }
    let n = name.unicode_len();
    let mut ok = n > 0 && ascii_letter(name.get_char(0));
    let mut i: usize = 0;
    while ok && i < n
        invariant
            i <= n,
            n == name@.len(),
            ok ==> n > 0 && is_ascii_letter(name@[0]),
            ok ==> forall|j: int| 0 <= j < i ==> is_name_char(#[trigger] name@[j]),
            !ok ==> !well_formed_project_name(name@),
        decreases n - i + (if ok { 1int } else { 0int }),
    {
        if !name_char(name.get_char(i)) {
            ok = false;
        } else {
            i = i + 1;
        }
    }
    if !ok {
        return Err(
            "Project names must start with an ASCII letter and contain only ASCII letters, digits, '-' or '_'".to_owned(),
        );
    }
    if same_text(name, "stdlib") {
        return Err("Project name 'stdlib' is reserved for the standard library".to_owned());
    }
    Ok(())
}

/// The manifest of a new project named `name`.
pub fn project_manifest(name: &str) -> (r: String)
    ensures
        r@ == manifest_text(name@),
{
    let mut text = "[crate]\nname = \"".to_owned();
    text.append(name);
    text.append("\"\nversion = \"0.1.0\"\n\n[lib]\npath = \"src/main.rk\"\n");
    text
}

/// The files of a new project named `name`: its path relative to the
/// project's directory, and its content.
pub fn project_files(name: &str) -> (r: Vec<(String, String)>)
    ensures
        r@.len() == 3,
        forall|i: int|
            0 <= i < 3 ==> (#[trigger] r@[i]).0@ == project_files_spec(name@)[i].0 && r@[i].1@
                == project_files_spec(name@)[i].1,
{
    let mut files: Vec<(String, String)> = Vec::new();
    files.push(("rock.toml".to_owned(), project_manifest(name)));
    files.push(
        ("src/main.rk".to_owned(), "main = !->\n    \"Hello, Rock!\".println!\n".to_owned()),
    );
    files.push((".gitignore".to_owned(), "/build/\n".to_owned()));
    files
}

/// What creating a project named `name` writes, or why the name is refused.
pub fn new_project_files(name: &str) -> (r: Result<Vec<(String, String)>, String>)
    ensures
        letters_digits_name(name@) && name@ != "stdlib"@ ==> r is Ok,
        !letters_digits_name(name@) ==> (r matches Err(e) && e@ == name_error()),
        letters_digits_name(name@) && name@ == "stdlib"@ ==> (r matches Err(e) && e@ == reserved_error()),
        !(name@.len() > 0 && ascii_letter_range(name@[0])) ==> (r matches Err(e) && e@ == name_error()),
        !well_formed_project_name(name@) ==> (r matches Err(e) && e@ == name_error()),
        well_formed_project_name(name@) && name@ == "stdlib"@ ==> (r matches Err(e) && e@
            == reserved_error()),
        well_formed_project_name(name@) && name@ != "stdlib"@ ==> (r matches Ok(files)
            && files@.len() == 3 && forall|i: int|
            0 <= i < 3 ==> (#[trigger] files@[i]).0@ == project_files_spec(name@)[i].0
                && files@[i].1@ == project_files_spec(name@)[i].1),
{
    proof {
        lemma_ascii_letters(name@);
    }
    validate_project_name(name)?;
    Ok(project_files(name))
}

} // verus!
