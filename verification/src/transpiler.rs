//! Script files in languages that are transpiled to the language of the
//! script engine before they are loaded.

use vstd::prelude::*;
use vstd::string::StringExecFns;
use crate::script::ScriptError;
use crate::text::{eq_ignore_ascii_case, spec_eq_ignore_ascii_case};

verus! {

/// A language that can be transpiled.
#[derive(Copy, Clone, Debug, PartialEq, Eq, Structural)]
pub enum Transpiler {
    Fennel,
}

/// File extensions which can be transpiled
pub fn transpilable_file_extensions() -> (r: Vec<&'static str>)
    ensures
        r@.len() == 1,
        r@[0]@ == "fnl"@,
{
    let mut extensions: Vec<&'static str> = Vec::new();
    extensions.push("fnl");
    extensions
}

/// True for the extension of a file that can be transpiled, whatever its
/// case.
pub open spec fn spec_is_transpilable_extension(extension: Seq<char>) -> bool {
    spec_eq_ignore_ascii_case(extension, "fnl"@)
}

/// True for the extension of a file that can be transpiled, whatever its
/// case.
pub fn is_transpilable_extension(extension: &str) -> (r: bool)
    ensures
        r == spec_is_transpilable_extension(extension@),
{
    let extensions = transpilable_file_extensions();
    let mut i: usize = 0;
    while i < extensions.len()
        invariant
            extensions@.len() == 1,
            extensions@[0]@ == "fnl"@,
            i <= extensions@.len(),
            forall|k: int|
                0 <= k < i ==> !spec_eq_ignore_ascii_case(extension@, (#[trigger] extensions@[k])@),
        decreases extensions@.len() - i,
    {
        if eq_ignore_ascii_case(extension, extensions[i]) {
            return true;
        }
        i += 1;
    }
    false
}

/// True when `part` stands in `text`, right behind a dot.
pub open spec fn follows_dot(text: Seq<char>, part: Seq<char>) -> bool {
    exists|i: int|
        0 < i && i + part.len() <= text.len() && text[i - 1] == '.' && #[trigger] text.subrange(
            i,
            i + part.len(),
        ) == part
}

/// The place of the last slash of a text, or -1 where it has none.
pub open spec fn last_slash(text: Seq<char>) -> int
    decreases text.len(),
{
    if text.len() == 0 {
        -1
    } else if text.last() == '/' {
        text.len() - 1
    } else {
        last_slash(text.drop_last())
    }
}

/// The text behind the last slash of a path: the path itself where it has no
/// slash.
pub open spec fn spec_file_name(path: Seq<char>) -> Seq<char> {
    path.subrange(last_slash(path) + 1, path.len() as int)
}

/// True for a path whose file name is the text behind its last slash
/// wherever the path is read: it holds no backslash and no colon and does
/// not begin with a slash, and that text is a name other than `..` and, in a
/// path with a slash, other than `.` and the empty text.
pub open spec fn names_a_file(path: Seq<char>) -> bool {
    &&& !path.contains('\\')
    &&& !path.contains(':')
    &&& path.len() > 0 ==> path[0] != '/'
    &&& spec_file_name(path) != ".."@
    &&& path.contains('/') ==> spec_file_name(path).len() > 0 && spec_file_name(path) != "."@
}

/// The place of the last dot of a text, or -1 where it has none.
pub open spec fn last_dot(text: Seq<char>) -> int
    decreases text.len(),
{
    if text.len() == 0 {
        -1
    } else if text.last() == '.' {
        text.len() - 1
    } else {
        last_dot(text.drop_last())
    }
}

/// The extension of a file name: the part behind its last dot, and none
/// where the name has no dot or its only dot is its first character.
pub open spec fn spec_plain_extension(name: Seq<char>) -> Option<Seq<char>> {
    if last_dot(name) > 0 {
        Some(name.subrange(last_dot(name) + 1, name.len() as int))
    } else {
        None
    }
}

/// The extension of a file path, as `std::path::Path::extension` finds it:
/// the part of the file name behind its last dot. The result holds no dot and
/// stands in the path behind one. Of a path whose file name is the text
/// behind its last slash wherever it is read, see [`names_a_file`], it is the
/// part of that name behind the last dot, and none where the name has no dot
/// or only begins with one. Nothing is said of which other paths have an
/// extension, because their file names are found by the rules of the
/// platform.
#[verifier::external_body]
fn file_extension(file_path: &str) -> (r: Option<String>)
    ensures
        r matches Some(extension) ==> !extension@.contains('.') && follows_dot(
            file_path@,
            extension@,
        ),
        names_a_file(file_path@) ==> (match spec_plain_extension(spec_file_name(file_path@)) {
            Some(extension) => r is Some && r->0@ == extension,
            None => r is None,
        }),
{
    match std::path::Path::new(file_path).extension() {
        Some(extension) => Some(extension.to_string_lossy().into_owned()),
        None => None,
    }
}

/// Check via the file extension if the file can be transpiled. For a path
/// whose file name is the text behind its last slash wherever it is read,
/// see [`names_a_file`], the answer is exact; for any other path the file
/// name, and with it the extension, is found by the rules of the platform.
pub fn is_transpilable_file(file_path: &str) -> (r: bool)
    ensures
        r ==> exists|extension: Seq<char>|
            follows_dot(file_path@, extension) && #[trigger] spec_is_transpilable_extension(
                extension,
            ),
        !file_path@.contains('.') ==> !r,
        names_a_file(file_path@) ==> r == (match spec_plain_extension(
            spec_file_name(file_path@),
        ) {
            Some(extension) => spec_is_transpilable_extension(extension),
            None => false,
        }),
{
    let extension = file_extension(file_path);
    proof {
        if extension is Some {
            let found = extension->0@;
            let i = choose|i: int|
                0 < i && i + found.len() <= file_path@.len() && file_path@[i - 1] == '.'
                    && #[trigger] file_path@.subrange(i, i + found.len()) == found;
            assert(file_path@.contains('.'));
        }
    }
    has_transpilable_extension(&extension)
}

/// True when a file that has the given extension, or none, can be
/// transpiled.
pub fn has_transpilable_extension(extension: &Option<String>) -> (r: bool)
    ensures
        r == (match extension {
            Some(extension) => spec_is_transpilable_extension(extension@),
            None => false,
        }),
{
    match extension {
        Some(extension) => is_transpilable_extension(extension.as_str()),
        None => false,
    }
}

/// The message of the error for an extension that cannot be transpiled.
pub open spec fn spec_unexpected_extension(extension: Seq<char>) -> Seq<char> {
    "Unexpected file extension for transpiler: '"@ + extension
        + "'. Supported extensions are: '"@ + "fnl"@ + "'"@
}

/// The transpiler for files with the given extension.
///
/// ### Errors
/// Returns an error that names the extension and the ones that can be
/// transpiled, when the extension is not one of them.
pub fn transpiler_for_extension(extension: &str) -> (r: Result<Transpiler, ScriptError>)
    ensures
        spec_is_transpilable_extension(extension@) ==> r == Ok::<Transpiler, ScriptError>(
            Transpiler::Fennel,
        ),
        !spec_is_transpilable_extension(extension@) ==> (r matches Err(e) && e@
            == spec_unexpected_extension(extension@)),
{
    if is_transpilable_extension(extension) {
        Ok(Transpiler::Fennel)
    } else {
        let extensions = transpilable_file_extensions();
        let mut message = "Unexpected file extension for transpiler: '".to_owned();
        message.append(extension);
        message.append("'. Supported extensions are: '");
        message.append(extensions[0]);
        message.append("'");
        Err(ScriptError::runtime(message))
    }
}

/// The transpiler for a file, by its extension. A file without an extension
/// is treated as one with an empty extension.
///
/// ### Errors
/// Returns the error of [`transpiler_for_extension`] for the extension of
/// the file, when that is not one of the extensions that can be transpiled.
pub fn transpiler_for_file(file_path: &str) -> (r: Result<Transpiler, ScriptError>)
    ensures
        r is Ok ==> exists|extension: Seq<char>|
            follows_dot(file_path@, extension) && #[trigger] spec_is_transpilable_extension(
                extension,
            ),
        r matches Err(e) ==> exists|extension: Seq<char>|
            (extension.len() == 0 || follows_dot(file_path@, extension))
                && !spec_is_transpilable_extension(extension) && e@
                == #[trigger] spec_unexpected_extension(extension),
        !file_path@.contains('.') ==> (r matches Err(e) && e@ == spec_unexpected_extension(
            Seq::empty(),
        )),
        names_a_file(file_path@) ==> ({
            let extension = match spec_plain_extension(spec_file_name(file_path@)) {
                Some(extension) => extension,
                None => Seq::empty(),
            };
            if spec_is_transpilable_extension(extension) {
                r == Ok::<Transpiler, ScriptError>(Transpiler::Fennel)
            } else {
                r matches Err(e) && e@ == spec_unexpected_extension(extension)
            }
        }),
{
    proof {
        reveal_strlit("fnl");
        reveal_strlit("");
        assert(!spec_is_transpilable_extension(Seq::empty()));
    }
    match file_extension(file_path) {
        Some(extension) => {
            proof {
                let i = choose|i: int|
                    0 < i && i + extension@.len() <= file_path@.len() && file_path@[i - 1] == '.'
                        && #[trigger] file_path@.subrange(i, i + extension@.len()) == extension@;
                assert(file_path@.contains('.'));
            }
            let r = transpiler_for_extension(extension.as_str());
            proof {
                if r is Err {
                    assert(r->Err_0@ == spec_unexpected_extension(extension@));
                }
            }
            r
        },
        None => {
            let r = transpiler_for_extension("");
            proof {
                assert(""@ =~= Seq::<char>::empty());
                assert(r->Err_0@ == spec_unexpected_extension(Seq::empty()));
            }
            r
        },
    }
}

} // verus!
