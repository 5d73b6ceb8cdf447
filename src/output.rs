//! What a run writes, and where: the artifact of a directory, with its
//! prelude, template and optional debugging wrapper, and the names of the
//! files it goes to.
use vstd::prelude::*;
use vstd::string::StringExecFns;
use crate::assemble::{
    artifact_at, assemble, debug_wrapped, joined, statics_sentinel, wrap_debug, DEFAULT_TEMPLATE,
};
use crate::compile::CompileOptions;
use crate::text::{has_suffix, is_last_occurrence, strip_suffix_chars, chars_of};

verus! {

/// The line that loads LuaJIT's bit library into `bit`.
pub open spec fn jitbit_line(bit: Seq<char>) -> Seq<char> {
    "local "@ + bit + " = require(\"bit\");\n"@
}

/// What precedes the statics of every artifact built with `options`.
pub open spec fn prelude_of(options: CompileOptions) -> Seq<char> {
    match options.jitbit {
        Some(bit) => jitbit_line(bit@),
        None => Seq::empty(),
    }
}

/// The prelude of the artifacts built with `options`.
pub fn prelude(options: &CompileOptions) -> (r: String)
    ensures
        r@ == prelude_of(*options),
{
    match &options.jitbit {
        Some(bit) => {
            let mut out = String::from_str("local ");
            out.append(bit.as_str());
            out.append(" = require(\"bit\");\n");
            out
        },
        None => String::new(),
    }
}

/// The template text: the given one, else the built-in one.
pub open spec fn template_of(template: Option<&str>) -> Seq<char> {
    match template {
        Some(t) => t@,
        None => DEFAULT_TEMPLATE@,
    }
}

/// The artifact made from `code` split at `i`, wrapped for debugging where
/// `debug` is set.
pub open spec fn persisted_artifact(base: Seq<char>, code: Seq<char>, i: int, debug: bool) -> Seq<char> {
    if debug {
        debug_wrapped(artifact_at(base, code, i))
    } else {
        artifact_at(base, code, i)
    }
}

/// The artifact of a directory whose files compiled to `fragments`, with
/// `template` as its base (the built-in one where none is given), wrapped
/// for debugging where the options ask for it.
pub fn build_artifact(options: &CompileOptions, fragments: &Vec<String>, template: Option<&str>) -> (r:
    String)
    ensures
        exists|i: int|
            #[trigger] is_last_occurrence(
                joined(prelude_of(*options), fragments@),
                statics_sentinel(),
                i,
            ) && r@ == persisted_artifact(
                template_of(template),
                joined(prelude_of(*options), fragments@),
                i,
                options.debug,
            ),
{
    let p = prelude(options);
    let base = match template {
        Some(t) => t,
        None => DEFAULT_TEMPLATE,
    };
    let plain = assemble(p.as_str(), fragments, base);
    if options.debug {
        wrap_debug(plain.as_str())
    } else {
        plain
    }
}

/// The output file name chosen by the user, with the `.lua` extension
/// added where it is missing.
pub open spec fn output_file_name_of(name: Seq<char>) -> Seq<char> {
    if has_suffix(name, ".lua"@) {
        name
    } else {
        name + ".lua"@
    }
}

/// The file name the artifact of a directory is written to.
pub fn output_file_name(name: &str) -> (r: String)
    ensures
        r@ == output_file_name_of(name@),
{
    match strip_suffix_chars(name, ".lua") {
        Some(stem) => {
            let mut out = stem;
            out.append(".lua");
            assert(out@ =~= name@);
            out
        },
        None => {
            let mut out = String::from_str(name);
            out.append(".lua");
            out
        },
    }
}

/// The path of file `file` inside directory `dir`, which may already end
/// with a separator.
pub open spec fn artifact_path_of(dir: Seq<char>, file: Seq<char>) -> Seq<char> {
    if dir.len() > 0 && (dir.last() == '/' || dir.last() == '\\') {
        dir + file
    } else {
        dir + "/"@ + file
    }
}

/// Where the artifact of directory `dir` is written.
pub fn artifact_path(dir: &str, file: &str) -> (r: String)
    ensures
        r@ == artifact_path_of(dir@, file@),
{
    let d = chars_of(dir);
    let mut out = String::from_str(dir);
    if d.len() > 0 && (d[d.len() - 1] == '/' || d[d.len() - 1] == '\\') {
        out.append(file);
    } else {
        out.append("/");
        out.append(file);
    }
    out
}

/// Where the code compiled from the single source file `path` is written:
/// the path with `.clue` replaced by `.lua`; `None` where it does not end
/// with `.clue`.
pub fn single_output_path(path: &str) -> (r: Option<String>)
    ensures
        r is Some <==> has_suffix(path@, ".clue"@),
        r matches Some(o) ==> o@ == path@.subrange(0, path@.len() - 5) + ".lua"@,
{
    proof {
        reveal_strlit(".clue");
    }
    match strip_suffix_chars(path, ".clue") {
        Some(stem) => {
            let mut out = stem;
            out.append(".lua");
            Some(out)
        },
        None => None,
    }
}

} // verus!
