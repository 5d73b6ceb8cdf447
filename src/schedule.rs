//! The shared state of a directory compilation: the files still pending,
//! the failures counted and the fragments compiled, and how their outcomes
//! become the run's result.
use vstd::prelude::*;
use vstd::string::StringExecFns;
use crate::text::{chars_of, extend_chars, string_of};

verus! {

/// A source file found under the root, with the name its module gets.
pub struct SourceFile {
    pub path: String,
    pub qualified_name: String,
}

/// How many workers a run starts: one per file, but never more than twice
/// the hardware parallelism.
pub open spec fn worker_count_spec(file_count: nat, parallelism: nat) -> nat {
    if file_count <= 2 * parallelism {
        file_count
    } else {
        2 * parallelism
    }
}

/// The number of workers for `file_count` files on a machine that runs
/// `parallelism` threads at once.
pub fn worker_count(file_count: usize, parallelism: usize) -> (r: usize)
    ensures
        r as nat == worker_count_spec(file_count as nat, parallelism as nat),
{
    if parallelism > usize::MAX / 2 || file_count <= parallelism * 2 {
        file_count
    } else {
        parallelism * 2
    }
}

/// Relies on `num_cpus::get`: the number of logical CPUs available, which
/// its documentation says is always at least one.
#[verifier::external_body]
fn available_cpus() -> (r: usize)
    ensures
        r >= 1,
{
    num_cpus::get()
}

/// The number of workers for `file_count` files on this machine, with the
/// number of available CPUs it was sized by: one worker per file, at most
/// twice the CPUs.
pub fn pool_size(file_count: usize) -> (r: (usize, usize))
    ensures
        r.1 >= 1,
        r.0 as nat == worker_count_spec(file_count as nat, r.1 as nat),
{
    let cpus = available_cpus();
    (worker_count(file_count, cpus), cpus)
}

/// A single file takes a single worker, whatever the parallelism; many
/// files take twice the parallelism and no more.
pub proof fn lemma_worker_bounds(file_count: nat, parallelism: nat)
    requires
        parallelism >= 1,
    ensures
        file_count == 1 ==> worker_count_spec(file_count, parallelism) == 1,
        file_count >= 2 * parallelism ==> worker_count_spec(file_count, parallelism) == 2
            * parallelism,
        worker_count_spec(file_count, parallelism) <= file_count,
        worker_count_spec(file_count, parallelism) <= 2 * parallelism,
{
}

/// The indices of the files that no worker has taken yet.
pub struct PendingSet {
    pub items: Vec<usize>,
}

impl PendingSet {
    /// Every index below `count`, each once.
    pub open spec fn well_formed(&self, count: nat) -> bool {
        &&& forall|i: int| 0 <= i < self.items@.len() ==> self.items@[i] < count
        &&& self.items@.no_duplicates()
    }

    /// A set holding the indices of `count` files.
    pub fn new(count: usize) -> (r: PendingSet)
        ensures
            r.items@ == Seq::new(count as nat, |i: int| i as usize),
            r.well_formed(count as nat),
    {
        let mut items: Vec<usize> = Vec::new();
        let mut i: usize = 0;
        while i < count
            invariant
                i <= count,
                items@ == Seq::new(i as nat, |k: int| k as usize),
            decreases count - i,
        {
            items.push(i);
            i = i + 1;
            assert(items@ =~= Seq::new(i as nat, |k: int| k as usize));
        }
        PendingSet { items }
    }

    /// Removes one pending index; `None` once every file has been taken.
    pub fn take(&mut self) -> (r: Option<usize>)
        ensures
            old(self).items@.len() == 0 ==> r is None && final(self).items@ == old(self).items@,
            old(self).items@.len() > 0 ==> r == Some(old(self).items@.last())
                && final(self).items@ == old(self).items@.drop_last(),
            forall|n: nat| old(self).well_formed(n) ==> final(self).well_formed(n),
            old(self).items@.no_duplicates() ==> (r matches Some(i)
                ==> !final(self).items@.contains(i)),
    {
        let r = self.items.pop();
        proof {
            assert forall|n: nat| old(self).well_formed(n) implies self.well_formed(n) by {
                assert(self.items@ =~= old(self).items@.drop_last() || self.items@
                    == old(self).items@);
                assert forall|a: int, b: int|
                    0 <= a < b < self.items@.len() implies self.items@[a] != self.items@[b] by {
                    assert(self.items@[a] == old(self).items@[a]);
                    assert(self.items@[b] == old(self).items@[b]);
                }
            }
            if old(self).items@.no_duplicates() && r is Some {
                let last = old(self).items@.len() - 1;
                assert forall|k: int| 0 <= k < self.items@.len() implies self.items@[k] != r->Some_0 by {
                    assert(old(self).items@[k] != old(self).items@[last]);
                }
            }
        }
        r
    }

    /// Whether every file has been taken.
    pub fn is_empty(&self) -> (r: bool)
        ensures
            r == (self.items@.len() == 0),
    {
        self.items.len() == 0
    }
}

/// The number of failed compilations seen so far.
pub struct ErrorCounter {
    pub count: usize,
}

impl ErrorCounter {
    /// A counter that has seen no failure.
    pub fn new() -> (r: ErrorCounter)
        ensures
            r.count == 0,
    {
        ErrorCounter { count: 0 }
    }

    /// Counts one more failed compilation.
    pub fn record_failure(&mut self)
        requires
            old(self).count < usize::MAX,
        ensures
            final(self).count == old(self).count + 1,
    {
        self.count = self.count + 1;
    }
}

/// A module's compiled code as an entry of the module table.
pub open spec fn fragment(name: Seq<char>, code: Seq<char>) -> Seq<char> {
    "\t[\""@ + name + "\"] = function()\n"@ + code + "\n\tend,\n"@
}

/// Formats `code` as the module table entry for `name`.
pub fn format_fragment(name: &str, code: &str) -> (r: String)
    ensures
        r@ == fragment(name@, code@),
{
    let mut out = String::from_str("\t[\"");
    out.append(name);
    out.append("\"] = function()\n");
    out.append(code);
    out.append("\n\tend,\n");
    out
}

/// The fragments compiled so far, in the order they were added.
pub struct FragmentList {
    pub fragments: Vec<String>,
}

impl FragmentList {
    /// A list with no fragment.
    pub fn new() -> (r: FragmentList)
        ensures
            r.fragments@.len() == 0,
    {
        FragmentList { fragments: Vec::new() }
    }

    /// Adds the table entry of module `name` compiled to `code`.
    pub fn push_compiled(&mut self, name: &str, code: &str)
        ensures
            final(self).fragments@.len() == old(self).fragments@.len() + 1,
            final(self).fragments@.drop_last() == old(self).fragments@,
            final(self).fragments@.last()@ == fragment(name@, code@),
    {
        let f = format_fragment(name, code);
        self.fragments.push(f);
        assert(self.fragments@.drop_last() =~= old(self).fragments@);
    }
}

/// The decimal digits of `n`.
pub open spec fn decimal(n: nat) -> Seq<char>
    decreases n,
{
    if n < 10 {
        seq![digit_char(n)]
    } else {
        decimal(n / 10) + seq![digit_char(n % 10)]
    }
}

/// The character of the decimal digit `d`.
pub open spec fn digit_char(d: nat) -> char {
    if d == 0 { '0' }
    else if d == 1 { '1' }
    else if d == 2 { '2' }
    else if d == 3 { '3' }
    else if d == 4 { '4' }
    else if d == 5 { '5' }
    else if d == 6 { '6' }
    else if d == 7 { '7' }
    else if d == 8 { '8' }
    else { '9' }
}

fn push_digit(out: &mut Vec<char>, d: usize)
    requires
        d < 10,
    ensures
        final(out)@ == old(out)@.push(digit_char(d as nat)),
{
    let c = if d == 0 { '0' }
    else if d == 1 { '1' }
    else if d == 2 { '2' }
    else if d == 3 { '3' }
    else if d == 4 { '4' }
    else if d == 5 { '5' }
    else if d == 6 { '6' }
    else if d == 7 { '7' }
    else if d == 8 { '8' }
    else { '9' };
    out.push(c);
}

/// Appends the decimal digits of `n` to `out`.
pub fn push_decimal(out: &mut Vec<char>, n: usize)
    ensures
        final(out)@ == old(out)@ + decimal(n as nat),
    decreases n,
{
    if n >= 10 {
        push_decimal(out, n / 10);
    }
    push_digit(out, n % 10);
    assert(final(out)@ =~= old(out)@ + decimal(n as nat));
}

/// The message that reports `count` failed files.
pub open spec fn failure_message(count: nat) -> Seq<char> {
    if count == 1 {
        "1 file failed to compile!"@
    } else {
        decimal(count) + " files failed to compile!"@
    }
}

/// The run's result once every worker has finished: the fragments where
/// nothing failed, else the message that counts the failures.
pub open spec fn run_result(failures: nat, fragments: Seq<String>) -> Result<Seq<String>, Seq<char>> {
    if failures == 0 {
        Ok(fragments)
    } else {
        Err(failure_message(failures))
    }
}

/// Turns the final failure count and fragment list into the run's result.
pub fn conclude(errors: ErrorCounter, output: FragmentList) -> (r: Result<Vec<String>, String>)
    ensures
        match (r, run_result(errors.count as nat, output.fragments@)) {
            (Ok(v), Ok(w)) => v@ == w,
            (Err(e), Err(m)) => e@ == m,
            _ => false,
        },
{
    if errors.count == 0 {
        Ok(output.fragments)
    } else if errors.count == 1 {
        Err(String::from_str("1 file failed to compile!"))
    } else {
        let mut digits: Vec<char> = Vec::new();
        push_decimal(&mut digits, errors.count);
        let tail = chars_of(" files failed to compile!");
        extend_chars(&mut digits, &tail);
        Err(string_of(&digits))
    }
}


/// How many of the outcomes are failures.
pub open spec fn count_failures(outcomes: Seq<Result<String, String>>) -> nat
    decreases outcomes.len(),
{
    if outcomes.len() == 0 {
        0
    } else {
        count_failures(outcomes.drop_last()) + if outcomes.last() is Err {
            1nat
        } else {
            0nat
        }
    }
}

/// The table entries of the files that compiled, in file order.
pub open spec fn compiled_fragments(
    files: Seq<SourceFile>,
    outcomes: Seq<Result<String, String>>,
) -> Seq<Seq<char>>
    decreases outcomes.len(),
{
    if outcomes.len() == 0 {
        Seq::empty()
    } else {
        let rest = compiled_fragments(files.drop_last(), outcomes.drop_last());
        match outcomes.last() {
            Ok(code) => rest.push(fragment(files.last().qualified_name@, code@)),
            Err(_) => rest,
        }
    }
}

/// The result of a run in which file `i` compiled to `outcomes[i]`.
pub open spec fn batch_result(
    files: Seq<SourceFile>,
    outcomes: Seq<Result<String, String>>,
) -> Result<Seq<Seq<char>>, Seq<char>> {
    let failures = count_failures(outcomes);
    if failures == 0 {
        Ok(compiled_fragments(files, outcomes))
    } else {
        Err(failure_message(failures))
    }
}

/// Gathers the outcomes of every file of a run: each failure is counted,
/// each success becomes a table entry, and the count decides the result.
pub fn collect_outcomes(files: &Vec<SourceFile>, outcomes: Vec<Result<String, String>>) -> (r:
    Result<Vec<String>, String>)
    requires
        files@.len() == outcomes@.len(),
    ensures
        match (r, batch_result(files@, outcomes@)) {
            (Ok(v), Ok(w)) => v@.map_values(|f: String| f@) == w,
            (Err(e), Err(m)) => e@ == m,
            _ => false,
        },
{
    let mut errors = ErrorCounter::new();
    let mut output = FragmentList::new();
    let mut i: usize = 0;
    while i < outcomes.len()
        invariant
            files@.len() == outcomes@.len(),
            i <= outcomes@.len(),
            errors.count as nat == count_failures(outcomes@.subrange(0, i as int)),
            errors.count <= i,
            output.fragments@.map_values(|f: String| f@) == compiled_fragments(
                files@.subrange(0, i as int),
                outcomes@.subrange(0, i as int),
            ),
        decreases outcomes@.len() - i,
    {
        let ghost before = output.fragments@;
        proof {
            assert(outcomes@.subrange(0, i + 1).drop_last() =~= outcomes@.subrange(0, i as int));
            assert(files@.subrange(0, i + 1).drop_last() =~= files@.subrange(0, i as int));
        }
        match &outcomes[i] {
            Ok(code) => {
                output.push_compiled(files[i].qualified_name.as_str(), code.as_str());
                assert(output.fragments@.map_values(|f: String| f@) =~= before.map_values(
                    |f: String| f@,
                ).push(fragment(files@[i as int].qualified_name@, code@)));
            },
            Err(_) => {
                errors.record_failure();
            },
        }
        i = i + 1;
    }
    proof {
        assert(outcomes@.subrange(0, i as int) =~= outcomes@);
        assert(files@.subrange(0, i as int) =~= files@);
    }
    conclude(errors, output)
}

/// Where every file compiles, the run succeeds with one table entry per
/// file, keyed by that file's qualified name, in file order.
pub proof fn lemma_all_compiled(files: Seq<SourceFile>, outcomes: Seq<Result<String, String>>)
    requires
        files.len() == outcomes.len(),
        forall|i: int| 0 <= i < outcomes.len() ==> outcomes[i] is Ok,
    ensures
        count_failures(outcomes) == 0,
        batch_result(files, outcomes) is Ok,
        compiled_fragments(files, outcomes).len() == files.len(),
        forall|i: int|
            0 <= i < files.len() ==> compiled_fragments(files, outcomes)[i] == fragment(
                files[i].qualified_name@,
                outcomes[i]->Ok_0@,
            ),
    decreases outcomes.len(),
{
    if outcomes.len() > 0 {
        lemma_all_compiled(files.drop_last(), outcomes.drop_last());
    }
}

/// Each file's qualified name with the code it compiled to.
pub open spec fn compiled_entries(
    files: Seq<SourceFile>,
    outcomes: Seq<Result<String, String>>,
) -> Seq<(Seq<char>, Seq<char>)> {
    Seq::new(files.len(), |i: int| (files[i].qualified_name@, outcomes[i]->Ok_0@))
}

/// Two runs over the same files, each compiling to the same code, hand on
/// the same fragments, whatever order the files were found in: only the
/// order of the fragments may differ.
pub proof fn lemma_run_order_irrelevant(
    files1: Seq<SourceFile>,
    outcomes1: Seq<Result<String, String>>,
    files2: Seq<SourceFile>,
    outcomes2: Seq<Result<String, String>>,
)
    requires
        files1.len() == outcomes1.len(),
        files2.len() == outcomes2.len(),
        forall|i: int| 0 <= i < outcomes1.len() ==> outcomes1[i] is Ok,
        forall|i: int| 0 <= i < outcomes2.len() ==> outcomes2[i] is Ok,
        compiled_entries(files1, outcomes1).to_multiset() == compiled_entries(
            files2,
            outcomes2,
        ).to_multiset(),
    ensures
        batch_result(files1, outcomes1) is Ok,
        batch_result(files2, outcomes2) is Ok,
        compiled_fragments(files1, outcomes1).to_multiset() == compiled_fragments(
            files2,
            outcomes2,
        ).to_multiset(),
{
    lemma_all_compiled(files1, outcomes1);
    lemma_all_compiled(files2, outcomes2);
    let g = |p: (Seq<char>, Seq<char>)| fragment(p.0, p.1);
    assert(compiled_fragments(files1, outcomes1) =~= compiled_entries(files1, outcomes1).map_values(g));
    assert(compiled_fragments(files2, outcomes2) =~= compiled_entries(files2, outcomes2).map_values(g));
    lemma_map_keeps_multiset(compiled_entries(files1, outcomes1), compiled_entries(files2, outcomes2), g);
}

/// Sequences with the same elements still have the same elements after
/// mapping each through `g`.
proof fn lemma_map_keeps_multiset<A, B>(s1: Seq<A>, s2: Seq<A>, g: spec_fn(A) -> B)
    requires
        s1.to_multiset() == s2.to_multiset(),
    ensures
        s1.map_values(g).to_multiset() == s2.map_values(g).to_multiset(),
    decreases s1.len(),
{
    broadcast use vstd::seq_lib::group_to_multiset_ensures;

    if s1.len() == 0 {
        assert(s2.to_multiset().len() == 0);
        assert(s1.map_values(g) =~= s2.map_values(g));
    } else {
        let x = s1.last();
        let rest1 = s1.drop_last();
        assert(s1 =~= rest1.push(x));
        assert(s1.to_multiset().count(x) > 0);
        assert(s2.contains(x));
        let j = choose|j: int| 0 <= j < s2.len() && s2[j] == x;
        let rest2 = s2.remove(j);
        assert(rest1.to_multiset() =~= s1.to_multiset().remove(x));
        assert(rest2.to_multiset() =~= s2.to_multiset().remove(x));
        lemma_map_keeps_multiset(rest1, rest2, g);
        assert(s1.map_values(g) =~= rest1.map_values(g).push(g(x)));
        assert(s2.map_values(g).remove(j) =~= rest2.map_values(g));
        let m2 = s2.map_values(g).to_multiset();
        assert(s2.map_values(g)[j] == g(x));
        assert(rest2.map_values(g).to_multiset() =~= m2.remove(g(x)));
        assert(m2.count(g(x)) > 0) by {
            assert(s2.map_values(g).contains(g(x)));
        }
        assert(m2.remove(g(x)).insert(g(x)) =~= m2);
    }
}

/// Where some files fail, the run fails with the message that counts
/// them exactly, and no fragment is handed on.
pub proof fn lemma_failures_counted(files: Seq<SourceFile>, outcomes: Seq<Result<String, String>>)
    requires
        files.len() == outcomes.len(),
        count_failures(outcomes) > 0,
    ensures
        batch_result(files, outcomes) == Err::<Seq<Seq<char>>, Seq<char>>(
            failure_message(count_failures(outcomes)),
        ),
        count_failures(outcomes) == 1 ==> batch_result(files, outcomes) == Err::<
            Seq<Seq<char>>,
            Seq<char>,
        >("1 file failed to compile!"@),
        count_failures(outcomes) > 1 ==> batch_result(files, outcomes) == Err::<
            Seq<Seq<char>>,
            Seq<char>,
        >(decimal(count_failures(outcomes)) + " files failed to compile!"@),
{
}

/// The failure count is the number of failed outcomes.
pub proof fn lemma_count_failures_exact(outcomes: Seq<Result<String, String>>)
    ensures
        count_failures(outcomes) == outcomes.filter(|o: Result<String, String>| o is Err).len(),
    decreases outcomes.len(),
{
    reveal(Seq::filter);
    if outcomes.len() > 0 {
        lemma_count_failures_exact(outcomes.drop_last());
    }
}

} // verus!
