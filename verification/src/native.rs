//! Native libraries: how they are named on each system, and where they stand.
use vstd::prelude::*;
use vstd::string::*;

use crate::text;

verus! {

/// An operating system.
#[derive(Clone, Copy, Debug, PartialEq, Eq, Structural)]
pub enum Os {
    Windows,
    Linux,
    Macos,
    Other,
}

/// A processor architecture.
#[derive(Clone, Copy, Debug, PartialEq, Eq, Structural)]
pub enum Arch {
    X64,
    Arm64,
    Other,
}

/// What programs are built for.
#[derive(Clone, Copy, Debug, PartialEq, Eq, Structural)]
pub struct Target {
    pub os: Os,
    pub arch: Arch,
}

/// Whether a character parts the names in a path.
pub open spec fn is_separator(os: Os, c: char) -> bool {
    c == '/' || (os == Os::Windows && c == '\\')
}

/// Whether a path is the name of a drive alone.
pub open spec fn is_drive(os: Os, path: Seq<char>) -> bool {
    os == Os::Windows && path.len() == 2 && path[1] == ':' && (('a' <= path[0] && path[0] <= 'z')
        || ('A' <= path[0] && path[0] <= 'Z'))
}

/// The path of an entry of a directory, which is named by a file name.
pub open spec fn entry_path(os: Os, directory: Seq<char>, name: Seq<char>) -> Seq<char> {
    if directory.len() == 0 || is_separator(os, directory.last()) || is_drive(os, directory) {
        directory + name
    } else if os == Os::Windows {
        directory + "\\"@ + name
    } else {
        directory + "/"@ + name
    }
}

/// The path of an entry of a directory.
pub fn join_path(os: Os, directory: &str, name: &str) -> (r: String)
    ensures
        r@ == entry_path(os, directory@, name@),
{
    let len: usize = directory.unicode_len();
    if len == 0 {
        return text::join2(directory, name);
    }
    let last: char = directory.get_char(len - 1);
    if last == '/' || (os == Os::Windows && last == '\\') {
        return text::join2(directory, name);
    }
    if os == Os::Windows && len == 2 && last == ':' {
        let first: char = directory.get_char(0);
        if ('a' <= first && first <= 'z') || ('A' <= first && first <= 'Z') {
            return text::join2(directory, name);
        }
    }
    if os == Os::Windows {
        text::join3(directory, "\\", name)
    } else {
        text::join3(directory, "/", name)
    }
}

/// The file name of a native library.
pub open spec fn library_name(os: Os, stem: Seq<char>) -> Seq<char> {
    match os {
        Os::Windows => stem + ".dll"@,
        Os::Macos => "lib"@ + stem + ".dylib"@,
        _ => "lib"@ + stem + ".so"@,
    }
}

/// The path of a native library in a directory.
pub fn library_path(directory: &str, stem: &str, os: Os) -> (r: String)
    ensures
        r@ == entry_path(os, directory@, library_name(os, stem@)),
{
    let name: String = match os {
        Os::Windows => text::join2(stem, ".dll"),
        Os::Macos => text::join3("lib", stem, ".dylib"),
        _ => text::join3("lib", stem, ".so"),
    };
    join_path(os, directory, name.as_str())
}

/// A library that is there, or the message that it is not.
pub fn load_library(path: &str, exists: bool) -> (r: Result<String, String>)
    ensures
        match r {
            Ok(p) => exists && p@ == path@,
            Err(m) => !exists && m@ == "dynamic library not found: "@ + path@,
        },
{
    if exists {
        Ok(path.to_string())
    } else {
        Err(text::join2("dynamic library not found: ", path))
    }
}

/// Whether a file name is that of a native library outside of Windows.
pub open spec fn is_native_library(name: Seq<char>) -> bool {
    text::extension(name) == Some("so"@) || text::extension(name) == Some("dylib"@)
}

/// Whether a file name is that of a native library outside of Windows.
pub fn native_library(name: &str) -> (r: bool)
    ensures
        r == is_native_library(name@),
{
    match text::extension_of(name) {
        Some(extension) => text::same_text(extension.as_str(), "so") || text::same_text(
            extension.as_str(),
            "dylib",
        ),
        None => false,
    }
}

/// The names of a directory's entries that are native libraries, in their order.
pub open spec fn library_names(entries: Seq<Seq<char>>) -> Seq<Seq<char>>
    decreases entries.len(),
{
    if entries.len() == 0 {
        Seq::empty()
    } else if is_native_library(entries.last()) {
        library_names(entries.drop_last()).push(entries.last())
    } else {
        library_names(entries.drop_last())
    }
}

/// The files of a directory that are to be loaded ahead of use, in order: on Windows those that
/// `preferred_order` names, as far as they are there, and elsewhere the native libraries among its
/// entries.
pub open spec fn preloaded(
    os: Os,
    directory: Seq<char>,
    preferred_order: Seq<Seq<char>>,
    entries: Seq<Seq<char>>,
) -> Seq<Seq<char>> {
    let names = if os == Os::Windows {
        preferred_order
    } else {
        library_names(entries)
    };
    names.map_values(|name: Seq<char>| entry_path(os, directory, name))
}

/// The files of a directory that are to be loaded ahead of use; on Windows the caller passes over
/// those that are not there.
pub fn preload_directory(
    os: Os,
    directory: &str,
    preferred_order: &Vec<String>,
    entries: &Vec<String>,
) -> (r: Vec<String>)
    ensures
        text::views(r@) == preloaded(
            os,
            directory@,
            text::views(preferred_order@),
            text::views(entries@),
        ),
{
    let mut names: Vec<String> = Vec::new();
    if os == Os::Windows {
        let mut i: usize = 0;
        while i < preferred_order.len()
            invariant
                i <= preferred_order@.len(),
                names@.len() == i,
                forall|j: int| 0 <= j < i ==> (#[trigger] names@[j])@ == preferred_order@[j]@,
            decreases preferred_order@.len() - i,
        {
            names.push(preferred_order[i].clone());
            i = i + 1;
        }
        assert(text::views(names@) =~= text::views(preferred_order@));
    } else {
        let mut i: usize = 0;
        assert(text::views(entries@).take(0) =~= Seq::<Seq<char>>::empty());
        while i < entries.len()
            invariant
                i <= entries@.len(),
                text::views(names@) =~= library_names(text::views(entries@).take(i as int)),
            decreases entries@.len() - i,
        {
            assert(text::views(entries@).take(i + 1).drop_last() =~= text::views(entries@).take(
                i as int,
            ));
            if native_library(entries[i].as_str()) {
                names.push(entries[i].clone());
            }
            i = i + 1;
        }
        assert(text::views(entries@).take(i as int) =~= text::views(entries@));
    }
    let mut paths: Vec<String> = Vec::new();
    let mut i: usize = 0;
    while i < names.len()
        invariant
            i <= names@.len(),
            paths@.len() == i,
            forall|j: int|
                0 <= j < i ==> (#[trigger] paths@[j])@ == entry_path(os, directory@, names@[j]@),
        decreases names@.len() - i,
    {
        paths.push(join_path(os, directory, names[i].as_str()));
        i = i + 1;
    }
    assert(text::views(paths@) =~= text::views(names@).map_values(
        |name: Seq<char>| entry_path(os, directory@, name),
    ));
    paths
}

/// A library's path lies in its directory and ends in its file name.
pub proof fn law_library_is_in_directory(os: Os, directory: Seq<char>, stem: Seq<char>)
    ensures
        text::has_prefix(entry_path(os, directory, library_name(os, stem)), directory),
        text::has_suffix(
            entry_path(os, directory, library_name(os, stem)),
            library_name(os, stem),
        ),
{
    let name = library_name(os, stem);
    let path = entry_path(os, directory, name);
    reveal_strlit("\\");
    reveal_strlit("/");
    assert(path.take(directory.len() as int) =~= directory);
    assert(path.skip(path.len() - name.len()) =~= name);
}

/// On Windows the libraries are loaded in the order that is preferred; elsewhere those entries of
/// the directory are whose extension is that of a library, in their order. Each is loaded from the
/// directory.
pub proof fn law_libraries_are_loaded(
    os: Os,
    directory: Seq<char>,
    preferred_order: Seq<Seq<char>>,
    entries: Seq<Seq<char>>,
)
    ensures
        ({
            let names = if os == Os::Windows {
                preferred_order
            } else {
                entries.filter(
                    |name: Seq<char>|
                        text::extension(name) == Some("so"@) || text::extension(name) == Some(
                            "dylib"@,
                        ),
                )
            };
            let paths = preloaded(os, directory, preferred_order, entries);
            &&& paths.len() == names.len()
            &&& forall|i: int|
                0 <= i < names.len() ==> #[trigger] paths[i] == entry_path(os, directory, names[i])
        }),
{
    lemma_library_names(entries);
}

proof fn lemma_library_names(entries: Seq<Seq<char>>)
    ensures
        library_names(entries) == entries.filter(
            |name: Seq<char>|
                text::extension(name) == Some("so"@) || text::extension(name) == Some("dylib"@),
        ),
    decreases entries.len(),
{
    reveal(Seq::filter);
    if entries.len() > 0 {
        lemma_library_names(entries.drop_last());
    } else {
        assert(library_names(entries) =~= entries);
    }
}

/// A path into a directory is the directory, one separator of the system where it has none at its
/// end, and the name; the libraries of the systems are named in their own ways.
pub proof fn law_paths(directory: Seq<char>, name: Seq<char>)
    requires
        directory.len() > 2,
        directory.last() != '/',
        directory.last() != '\\',
    ensures
        entry_path(Os::Linux, directory, name) == directory + seq!['/'] + name,
        entry_path(Os::Macos, directory, name) == directory + seq!['/'] + name,
        entry_path(Os::Windows, directory, name) == directory + seq!['\\'] + name,
        entry_path(Os::Linux, directory + seq!['/'], name) == directory + seq!['/'] + name,
        entry_path(Os::Windows, directory + seq!['\\'], name) == directory + seq!['\\'] + name,
        library_name(Os::Windows, name) == name + ".dll"@,
        library_name(Os::Macos, name) == "lib"@ + name + ".dylib"@,
        library_name(Os::Linux, name) == "lib"@ + name + ".so"@,
{
    reveal_strlit("/");
    reveal_strlit("\\");
    assert("/"@ =~= seq!['/']);
    assert("\\"@ =~= seq!['\\']);
}

} // verus!
