//! Compiles one Clue source text to Lua through clue_core's preprocessor,
//! scanner, parser and code generator.
use vstd::prelude::*;
use vstd::string::StringExecFns;
use crate::text::has_suffix;
use std::collections::VecDeque;
use ahash::AHashMap;
use clue_core::code::Code;
use clue_core::compiler::Compiler;
use clue_core::env::Options;
use clue_core::parser::ComplexToken;
use clue_core::preprocessor::PPVar;
use clue_core::scanner::Token;

verus! {

#[verifier::external_type_specification]
#[verifier::external_body]
pub struct ExOptions(clue_core::env::Options);

#[verifier::external_type_specification]
#[verifier::external_body]
pub struct ExCode(clue_core::code::Code);

#[verifier::external_type_specification]
#[verifier::external_body]
pub struct ExToken(clue_core::scanner::Token);

#[verifier::external_type_specification]
#[verifier::external_body]
pub struct ExComplexToken(clue_core::parser::ComplexToken);

#[verifier::external_type_specification]
#[verifier::external_body]
pub struct ExPPVar(clue_core::preprocessor::PPVar);

#[verifier::external_type_specification]
#[verifier::external_body]
pub struct ExRandomState(ahash::RandomState);

#[verifier::external_type_specification]
#[verifier::external_body]
#[verifier::reject_recursive_types(K)]
#[verifier::reject_recursive_types(V)]
#[verifier::reject_recursive_types(S)]
pub struct ExAHashMap<K, V, S>(ahash::AHashMap<K, V, S>);

/// How `continue` statements are compiled.
#[derive(Clone, Copy, Debug, PartialEq, Eq, Structural)]
pub enum ContinueMode {
    Simple,
    LuaJIT,
    Goto,
    MoonScript,
}

/// The options every file of a run is compiled with.
#[derive(Clone, Debug)]
pub struct CompileOptions {
    /// Report the scanned tokens of each file.
    pub tokens: bool,
    /// Report the parsed structure of each file.
    pub structure: bool,
    /// Report the generated Lua code of each file.
    pub output: bool,
    /// The variable that holds LuaJIT's bit library, if bitwise operators
    /// go through it.
    pub jitbit: Option<String>,
    /// How `continue` statements are compiled.
    pub continue_mode: ContinueMode,
    /// Create globals with `rawset`.
    pub rawset_globals: bool,
    /// Emit debugging information.
    pub debug: bool,
}

/// Relies on clue_core's `Options`: builds the compiler's options from ours,
/// the rest left at their defaults.
#[verifier::external_body]
fn clue_options(o: &CompileOptions) -> (r: Options) {
    Options {
        env_tokens: o.tokens,
        env_struct: o.structure,
        env_output: o.output,
        env_jitbit: o.jitbit.clone(),
        env_continue: match o.continue_mode {
            ContinueMode::Simple => clue_core::env::ContinueMode::Simple,
            ContinueMode::LuaJIT => clue_core::env::ContinueMode::LuaJIT,
            ContinueMode::Goto => clue_core::env::ContinueMode::Goto,
            ContinueMode::MoonScript => clue_core::env::ContinueMode::MoonScript,
        },
        env_rawsetglobals: o.rawset_globals,
        env_debug: o.debug,
        ..Options::default()
    }
}

/// Relies on clue_core's `preprocessor::preprocess_code`: runs the
/// preprocessor's directives over the source, keeping the code parts and
/// the variables they define.
#[verifier::external_body]
fn preprocess(source: String, name: &String, options: &Options) -> (r: Result<
    ((VecDeque<(Code, bool)>, usize), AHashMap<Code, PPVar>),
    String,
>) {
    let mut bytes = source.into_bytes();
    clue_core::preprocessor::preprocess_code(&mut bytes, 1, false, name, options).map(
        |(codes, variables, ..)| (codes, variables),
    )
}

/// Relies on clue_core's `preprocessor::preprocess_codes`: expands the
/// preprocessor variables into one piece of code.
#[verifier::external_body]
fn expand(codes: (VecDeque<(Code, bool)>, usize), variables: &AHashMap<Code, PPVar>, name: &String) -> (r: Result<Code, String>) {
    clue_core::preprocessor::preprocess_codes(0, codes, variables, name)
}

/// Relies on clue_core's `scanner::scan_code`: splits code into tokens.
#[verifier::external_body]
fn scan(code: Code, name: &String) -> (r: Result<Vec<Token>, String>) {
    clue_core::scanner::scan_code(code, name)
}

/// Relies on clue_core's `parser::parse_tokens`: builds the syntax tree and
/// the statics hoisted out of it.
#[verifier::external_body]
fn parse(tokens: Vec<Token>, name: &String, options: &Options) -> (r: Result<
    (VecDeque<ComplexToken>, String),
    String,
>) {
    clue_core::parser::parse_tokens(tokens, name, options)
}

/// Relies on clue_core's `Compiler::new` and `Compiler::compile_tokens`:
/// generates the Lua code of a syntax tree at the given indentation depth.
#[verifier::external_body]
fn generate(tree: VecDeque<ComplexToken>, scope: usize, name: &String, options: &Options) -> (r:
    Result<String, String>) {
    Compiler::new(options, name).compile_tokens(scope, tree)
}

/// Relies on the `Debug` impl of clue_core's `Token`: a readable listing.
#[verifier::external_body]
fn describe_tokens(tokens: &Vec<Token>) -> (r: String) {
    format!("{:#?}", tokens)
}

/// Relies on the `Debug` impl of clue_core's `ComplexToken`: a readable
/// listing.
#[verifier::external_body]
fn describe_tree(tree: &VecDeque<ComplexToken>) -> (r: String) {
    format!("{:#?}", tree)
}


/// The heading of a report on file `name`.
pub open spec fn report_heading(what: Seq<char>, name: Seq<char>) -> Seq<char> {
    what + " of file \""@ + name + "\":\n"@
}

/// The report on `what` of file `name`: its heading, then `body`.
fn report(what: &str, name: &str, body: &str) -> (r: String)
    ensures
        r@ == report_heading(what@, name@) + body@,
{
    let mut out = String::from_str(what);
    out.append(" of file \"");
    out.append(name);
    out.append("\":\n");
    out.append(body);
    out
}

/// `s` begins with `p`.
pub open spec fn has_prefix(s: Seq<char>, p: Seq<char>) -> bool {
    p.len() <= s.len() && s.subrange(0, p.len() as int) == p
}

/// One file compiled: the Lua code, and the reports that the options ask
/// for.
pub struct CompileOutput {
    /// The file's statics followed by its generated code.
    pub code: String,
    /// The scanned tokens, where asked for.
    pub tokens: Option<String>,
    /// The parsed structure, where asked for.
    pub structure: Option<String>,
    /// The generated code, where asked for.
    pub output: Option<String>,
}

/// Compiles the Clue `source` of the module `name` at indentation depth
/// `scope`: preprocessing, scanning, parsing and code generation, the last
/// two finished by `finish_compile`. Whether a stage fails is up to
/// clue_core; on success each report stands exactly where its option is
/// set, and the generated code that is reported ends the compiled code.
pub fn compile_source(source: String, name: &String, scope: usize, options: &CompileOptions) -> (r:
    Result<CompileOutput, String>)
    ensures
        r matches Ok(out) ==> {
            &&& (out.tokens is Some <==> options.tokens)
            &&& (out.structure is Some <==> options.structure)
            &&& (out.output is Some <==> options.output)
            &&& out.tokens matches Some(t) ==> has_prefix(
                t@,
                report_heading("Scanned tokens"@, name@),
            )
            &&& out.structure matches Some(t) ==> has_prefix(
                t@,
                report_heading("Parsed structure"@, name@),
            )
            &&& out.output matches Some(t) ==> has_prefix(
                t@,
                report_heading("Compiled Lua code"@, name@),
            ) && has_suffix(
                out.code@,
                t@.skip(report_heading("Compiled Lua code"@, name@).len() as int),
            )
        },
{
    let o = clue_options(options);
    let (codes, variables) = match preprocess(source, name, &o) {
        Ok(p) => p,
        Err(e) => return Err(e),
    };
    let code = match expand(codes, &variables, name) {
        Ok(c) => c,
        Err(e) => return Err(e),
    };
    let tokens = match scan(code, name) {
        Ok(t) => t,
        Err(e) => return Err(e),
    };
    let token_listing = if options.tokens {
        Some(describe_tokens(&tokens))
    } else {
        None
    };
    let (tree, statics) = match parse(tokens, name, &o) {
        Ok(p) => p,
        Err(e) => return Err(e),
    };
    let tree_listing = if options.structure {
        Some(describe_tree(&tree))
    } else {
        None
    };
    let generated = generate(tree, scope, name, &o);
    let r = finish_compile(statics, generated, token_listing, tree_listing, name, options);
    proof {
        if r is Ok {
            let out = r->Ok_0;
            if out.tokens is Some {
                let t = out.tokens->Some_0;
                let h = report_heading("Scanned tokens"@, name@);
                assert(t@.subrange(0, h.len() as int) =~= h);
            }
            if out.structure is Some {
                let t = out.structure->Some_0;
                let h = report_heading("Parsed structure"@, name@);
                assert(t@.subrange(0, h.len() as int) =~= h);
            }
            if out.output is Some {
                let t = out.output->Some_0;
                let h = report_heading("Compiled Lua code"@, name@);
                let g = t@.skip(h.len() as int);
                assert(t@.subrange(0, h.len() as int) =~= h);
                assert(out.code@.subrange(out.code@.len() - g.len(), out.code@.len() as int) =~= g);
            }
        }
    }
    r
}

/// What a file compiles to once the parser has hoisted `statics` and the
/// generator has produced `generated`: a failed generation is handed on
/// unchanged; otherwise the code is the statics followed by the generated
/// code, and each listing given becomes a report headed with `name`. The
/// generated code is reported exactly where the options ask for it.
pub fn finish_compile(
    statics: String,
    generated: Result<String, String>,
    token_listing: Option<String>,
    tree_listing: Option<String>,
    name: &String,
    options: &CompileOptions,
) -> (r: Result<CompileOutput, String>)
    ensures
        generated matches Err(e) ==> r == Err::<CompileOutput, String>(e),
        generated matches Ok(g) ==> (r matches Ok(out) && {
            &&& out.code@ == statics@ + g@
            &&& (out.tokens is Some <==> token_listing is Some)
            &&& (out.tokens matches Some(t) ==> t@ == report_heading("Scanned tokens"@, name@)
                + token_listing->Some_0@)
            &&& (out.structure is Some <==> tree_listing is Some)
            &&& (out.structure matches Some(t) ==> t@ == report_heading(
                "Parsed structure"@,
                name@,
            ) + tree_listing->Some_0@)
            &&& (out.output is Some <==> options.output)
            &&& (out.output matches Some(t) ==> t@ == report_heading("Compiled Lua code"@, name@)
                + g@)
        }),
{
    let generated = match generated {
        Ok(g) => g,
        Err(e) => return Err(e),
    };
    let tokens = match &token_listing {
        Some(l) => Some(report("Scanned tokens", name.as_str(), l.as_str())),
        None => None,
    };
    let structure = match &tree_listing {
        Some(l) => Some(report("Parsed structure", name.as_str(), l.as_str())),
        None => None,
    };
    let output = if options.output {
        Some(report("Compiled Lua code", name.as_str(), generated.as_str()))
    } else {
        None
    };
    let mut code = statics;
    code.append(generated.as_str());
    Ok(CompileOutput { code, tokens, structure, output })
}

} // verus!
