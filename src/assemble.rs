//! Weaves compiled fragments into a template to make the final artifact,
//! and optionally wraps that artifact for debugging.
use vstd::prelude::*;
use crate::text::{
    chars_of, extend_chars, is_last_occurrence, lemma_replace_char_absent, lemma_replace_char_split,
    occurs_at, replace_all, replace_chars, rfind_chars, string_of,
};
use vstd::string::StringExecFns;

verus! {

/// The sentinel that separates hoisted statics from module bodies.
pub open spec fn statics_sentinel() -> Seq<char> {
    "--STATICS"@
}

/// The line of a template that receives the statics.
pub open spec fn statics_line() -> Seq<char> {
    "--STATICS\n"@
}

/// The character of a template that receives the module bodies.
pub open spec fn output_marker() -> Seq<char> {
    seq!['\u{a7}']
}

/// All the strings of `fs`, one after another.
pub open spec fn concat_all(fs: Seq<Seq<char>>) -> Seq<char>
    decreases fs.len(),
{
    if fs.len() == 0 {
        Seq::empty()
    } else {
        concat_all(fs.drop_last()) + fs.last()
    }
}

/// The views of a list of strings.
pub open spec fn views(fs: Seq<String>) -> Seq<Seq<char>> {
    fs.map_values(|f: String| f@)
}

/// What the fragments are joined into before the split: the prelude, the
/// statics line, and every fragment in the order given.
pub open spec fn joined(prelude: Seq<char>, fragments: Seq<String>) -> Seq<char> {
    prelude + statics_line() + concat_all(views(fragments))
}

/// The template with its statics line replaced by `statics` and then every
/// output marker replaced by `body`.
pub open spec fn filled(template: Seq<char>, statics: Seq<char>, body: Seq<char>) -> Seq<char> {
    replace_all(replace_all(template, statics_line(), statics), output_marker(), body)
}

/// The artifact made from `code`, split at the last statics sentinel `i`.
pub open spec fn artifact_at(template: Seq<char>, code: Seq<char>, i: int) -> Seq<char> {
    filled(
        template,
        code.subrange(0, i),
        code.subrange(i + statics_sentinel().len(), code.len() as int),
    )
}

/// The prelude followed by the statics line and every fragment.
pub fn join_fragments(prelude: &str, fragments: &Vec<String>) -> (r: Vec<char>)
    ensures
        r@ == joined(prelude@, fragments@),
{
    let mut out = chars_of(prelude);
    let line = chars_of("--STATICS\n");
    extend_chars(&mut out, &line);
    let ghost start = out@;
    let mut k: usize = 0;
    while k < fragments.len()
        invariant
            k <= fragments@.len(),
            out@ == start + concat_all(views(fragments@.subrange(0, k as int))),
        decreases fragments@.len() - k,
    {
        let f = chars_of(fragments[k].as_str());
        extend_chars(&mut out, &f);
        proof {
            let done = views(fragments@.subrange(0, k + 1));
            assert(done.drop_last() =~= views(fragments@.subrange(0, k as int)));
            assert(done.last() == fragments@[k as int]@);
        }
        k = k + 1;
    }
    assert(fragments@.subrange(0, fragments@.len() as int) =~= fragments@);
    out
}

/// Splits `code` at its last statics sentinel into the text before it and
/// the text after it; `None` where the sentinel does not occur.
pub fn split_statics(code: &Vec<char>) -> (r: Option<(Vec<char>, Vec<char>)>)
    ensures
        r is None <==> forall|j: int| !occurs_at(code@, j, statics_sentinel()),
        r matches Some((a, b)) ==> exists|i: int|
            is_last_occurrence(code@, statics_sentinel(), i)
                && a@ == code@.subrange(0, i)
                && b@ == code@.subrange(i + statics_sentinel().len(), code@.len() as int),
{
    let sentinel = chars_of("--STATICS");
    let n = code.len();
    match rfind_chars(code, &sentinel) {
        None => None,
        Some(i) => {
            assert(occurs_at(code@, i as int, statics_sentinel()));
            let mut a: Vec<char> = Vec::new();
            let mut b: Vec<char> = Vec::new();
            let mut k: usize = 0;
            while k < i
                invariant
                    k <= i,
                    i <= code@.len(),
                    a@ == code@.subrange(0, k as int),
                decreases i - k,
            {
                a.push(code[k]);
                k = k + 1;
                assert(a@ =~= code@.subrange(0, k as int));
            }
            assert(i + sentinel@.len() <= code@.len());
            let start: usize = i + sentinel.len();
            k = start;
            while k < code.len()
                invariant
                    n == code@.len(),
                    start <= k <= code@.len(),
                    b@ == code@.subrange(start as int, k as int),
                decreases code@.len() - k,
            {
                b.push(code[k]);
                k = k + 1;
                assert(b@ =~= code@.subrange(start as int, k as int));
            }
            Some((a, b))
        },
    }
}

/// Replaces every output marker of `template` by `body`.
pub fn fill_output(template: &Vec<char>, body: &Vec<char>) -> (r: Vec<char>)
    ensures
        r@ == replace_all(template@, output_marker(), body@),
{
    let marker = vec!['\u{a7}'];
    assert(marker@ =~= output_marker());
    replace_chars(template, &marker, body)
}

/// Substitutes `statics` for the template's statics line and then `body`
/// for every output marker.
pub fn fill_template(template: &str, statics: &Vec<char>, body: &Vec<char>) -> (r: String)
    ensures
        r@ == filled(template@, statics@, body@),
{
    let t = chars_of(template);
    let line = chars_of("--STATICS\n");
    let with_statics = replace_chars(&t, &line, statics);
    let done = fill_output(&with_statics, body);
    string_of(&done)
}

/// Joins the fragments after the prelude, splits the result at its last
/// statics sentinel, and fills the template with the two parts.
pub fn assemble(prelude: &str, fragments: &Vec<String>, template: &str) -> (r: String)
    ensures
        exists|i: int|
            is_last_occurrence(joined(prelude@, fragments@), statics_sentinel(), i)
                && r@ == artifact_at(template@, joined(prelude@, fragments@), i),
{
    let code = join_fragments(prelude, fragments);
    proof {
        reveal_strlit("--STATICS\n");
        reveal_strlit("--STATICS");
        let p = prelude@.len() as int;
        assert(code@.subrange(p, p + 9) =~= statics_sentinel());
        assert(occurs_at(code@, p, statics_sentinel()));
    }
    match split_statics(&code) {
        Some((statics, body)) => fill_template(template, &statics, &body),
        None => {
            proof {
                assert(false);
            }
            String::new()
        },
    }
}


/// The base template used when no custom one is given: a table of module
/// loaders, a cached `import`, and a call of the `main` module.
pub const DEFAULT_TEMPLATE: &'static str = "--STATICS\nlocal import\nlocal _modules = {\n\u{a7}}\n\nlocal _cache = {}\nimport = function(name)\n\tlocal loaded = _cache[name]\n\tif loaded == nil then\n\t\tlocal loader = _modules[name]\n\t\tif loader == nil then\n\t\t\terror(\"module not found: \" .. tostring(name), 2)\n\t\tend\n\t\tloaded = loader()\n\t\tif loaded == nil then\n\t\t\tloaded = true\n\t\tend\n\t\t_cache[name] = loaded\n\tend\n\treturn loaded\nend\n\nreturn import(\"main\")\n";

/// What the debugging wrapper puts before the artifact.
pub const DEBUG_HEAD: &'static str = "local _clue_line = 0\nlocal _clue_file = \"(unknown)\"\nlocal _clue_ok, _clue_error = xpcall(function(...)\n";

/// What the debugging wrapper puts after the artifact.
pub const DEBUG_TAIL: &'static str = "\nend, function(message)\n\treturn debug.traceback(tostring(message) .. \"\\n[Clue] in \" .. _clue_file .. \" at line \" .. _clue_line, 2)\nend, ...)\nif not _clue_ok then\n\terror(_clue_error, 0)\nend\n";

/// The artifact wrapped for debugging.
pub open spec fn debug_wrapped(artifact: Seq<char>) -> Seq<char> {
    DEBUG_HEAD@ + artifact + DEBUG_TAIL@
}

/// Wraps `artifact` in the debugging template: the artifact stands once,
/// verbatim, between the template's head and tail.
pub fn wrap_debug(artifact: &str) -> (r: String)
    ensures
        r@ == debug_wrapped(artifact@),
{
    let mut out = String::from_str(DEBUG_HEAD);
    out.append(artifact);
    out.append(DEBUG_TAIL);
    out
}

/// A body substituted into a template that holds the output marker twice
/// appears at both places, and the rest of the template is kept.
pub proof fn lemma_output_marker_twice(a: Seq<char>, b: Seq<char>, c: Seq<char>, body: Seq<char>)
    requires
        !a.contains('\u{a7}'),
        !b.contains('\u{a7}'),
        !c.contains('\u{a7}'),
    ensures
        replace_all(a + output_marker() + b + output_marker() + c, output_marker(), body)
            == a + body + b + body + c,
{
    let m = '\u{a7}';
    let rest = b + output_marker() + c;
    assert(a + output_marker() + b + output_marker() + c =~= a + seq![m] + rest);
    lemma_replace_char_split(a, rest, m, body);
    lemma_replace_char_split(b, c, m, body);
    lemma_replace_char_absent(c, m, body);
}

/// Enabling debugging keeps the plain artifact verbatim: the wrapped text
/// is the debugging head, the artifact, and the debugging tail.
pub proof fn lemma_debug_embeds_artifact(artifact: Seq<char>)
    ensures
        debug_wrapped(artifact).subrange(
            DEBUG_HEAD@.len() as int,
            (DEBUG_HEAD@.len() + artifact.len()) as int,
        ) == artifact,
        debug_wrapped(artifact).len() == DEBUG_HEAD@.len() + artifact.len() + DEBUG_TAIL@.len(),
{
    assert(debug_wrapped(artifact).subrange(
        DEBUG_HEAD@.len() as int,
        (DEBUG_HEAD@.len() + artifact.len()) as int,
    ) =~= artifact);
}

} // verus!
