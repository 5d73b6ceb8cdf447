//! How the files under a root directory are found and named: each
//! directory adds its name and a dot to the qualified name of what it holds,
//! and each source file adds its name without the extension.
use vstd::prelude::*;
use vstd::string::StringExecFns;
use crate::schedule::SourceFile;
use crate::text::{has_suffix, strip_suffix_chars};

verus! {

/// The extension that marks a source file.
pub open spec fn source_extension() -> Seq<char> {
    ".clue"@
}

/// A file name without its extension.
pub open spec fn stem(name: Seq<char>) -> Seq<char> {
    name.subrange(0, name.len() - source_extension().len())
}

/// The qualified-name prefix of what a directory `name` holds, inside a
/// directory whose prefix is `prefix`.
pub open spec fn descend_prefix(prefix: Seq<char>, name: Seq<char>) -> Seq<char> {
    prefix + name + "."@
}

/// The prefix reached from the root through the directories `dirs`.
pub open spec fn prefix_of(dirs: Seq<Seq<char>>) -> Seq<char>
    decreases dirs.len(),
{
    if dirs.len() == 0 {
        Seq::empty()
    } else {
        descend_prefix(prefix_of(dirs.drop_last()), dirs.last())
    }
}

/// The segments joined with dots.
pub open spec fn join_dots(segments: Seq<Seq<char>>) -> Seq<char>
    decreases segments.len(),
{
    if segments.len() == 0 {
        Seq::empty()
    } else if segments.len() == 1 {
        segments[0]
    } else {
        join_dots(segments.drop_last()) + "."@ + segments.last()
    }
}

/// What discovery does with one entry of a directory.
pub enum EntryAction {
    /// Walk the subdirectory at `path`, whose files are named after `prefix`.
    Descend { path: String, prefix: String },
    /// Record a source file.
    Source(SourceFile),
    /// Leave the entry out.
    Skip,
}

/// The path of entry `name` of directory `dir`.
pub open spec fn entry_path(dir: Seq<char>, name: Seq<char>) -> Seq<char> {
    dir + "/"@ + name
}

/// Decides what discovery does with entry `name` of directory `dir`, whose
/// files are named after `prefix`: a directory is walked, a file with the
/// source extension is recorded under its qualified name, anything else is
/// left out.
pub fn classify_entry(dir: &str, prefix: &str, name: &str, is_dir: bool) -> (r: EntryAction)
    ensures
        is_dir ==> (r matches EntryAction::Descend { path, prefix: p } && path@ == entry_path(
            dir@,
            name@,
        ) && p@ == descend_prefix(prefix@, name@)),
        !is_dir && has_suffix(name@, source_extension()) ==> (r matches EntryAction::Source(f)
            && f.path@ == entry_path(dir@, name@) && f.qualified_name@ == prefix@ + stem(name@)),
        !is_dir && !has_suffix(name@, source_extension()) ==> r is Skip,
{
    let mut path = String::from_str(dir);
    path.append("/");
    path.append(name);
    if is_dir {
        let mut p = String::from_str(prefix);
        p.append(name);
        p.append(".");
        return EntryAction::Descend { path, prefix: p };
    }
    match strip_suffix_chars(name, ".clue") {
        Some(s) => {
            let mut q = String::from_str(prefix);
            q.append(s.as_str());
            EntryAction::Source(SourceFile { path, qualified_name: q })
        },
        None => EntryAction::Skip,
    }
}

/// A file reached through the directories `dirs` is named by those
/// directories and its stem, joined with dots.
pub proof fn lemma_qualified_name(dirs: Seq<Seq<char>>, file: Seq<char>)
    ensures
        prefix_of(dirs) + stem(file) == join_dots(dirs.push(stem(file))),
    decreases dirs.len(),
{
    lemma_prefix_is_joined(dirs);
    if dirs.len() == 0 {
        assert(dirs.push(stem(file)) =~= seq![stem(file)]);
        assert(Seq::<char>::empty() + stem(file) =~= stem(file));
    } else {
        assert(dirs.push(stem(file)).drop_last() =~= dirs);
    }
}

/// The prefix through some directories is their dot-join and a dot.
pub proof fn lemma_prefix_is_joined(dirs: Seq<Seq<char>>)
    ensures
        dirs.len() > 0 ==> prefix_of(dirs) == join_dots(dirs) + "."@,
    decreases dirs.len(),
{
    if dirs.len() == 1 {
        assert(dirs.drop_last().len() == 0);
        assert(prefix_of(dirs.drop_last()) == Seq::<char>::empty());
        assert(Seq::<char>::empty() + dirs.last() + "."@ =~= dirs[0] + "."@);
    } else if dirs.len() > 1 {
        lemma_prefix_is_joined(dirs.drop_last());
        let j = join_dots(dirs.drop_last());
        assert((j + "."@) + dirs.last() + "."@ =~= (j + "."@ + dirs.last()) + "."@);
    }
}

} // verus!
