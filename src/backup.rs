use vstd::prelude::*;

use crate::package_manager::{count_results, lemma_count_results_bound, BatchSummary};
use crate::text::{
    concat_str, has_flag, has_flag_marker, has_suffix, lines, lines_of, push_str, views, words,
    words_of,
};

verus! {

/// A formula as recorded in a backup: name, version and the flags it was installed with.
#[derive(Debug)]
pub struct FormulaBackup {
    pub name: String,
    pub version: String,
    pub options: Vec<String>,
}

/// A cask as recorded in a backup.
#[derive(Debug)]
pub struct CaskBackup {
    pub name: String,
    pub version: String,
}

/// A snapshot of the installed state: plain strings only, so that it can be written out,
/// copied to another machine and replayed there.
#[derive(Debug)]
pub struct BackupFile {
    pub created_at: String,
    pub formulas: Vec<FormulaBackup>,
    pub casks: Vec<CaskBackup>,
    pub taps: Vec<String>,
}

/// One installed package as a `list --versions` line shows it.
#[derive(Debug)]
pub struct ListedPackage {
    pub name: String,
    pub version: String,
}

/// A listing line that names a package.
pub open spec fn has_words(line: Seq<char>) -> bool {
    words_of(line).len() > 0
}

/// The name and the first version of a listing line.
pub open spec fn entry_of(line: Seq<char>) -> (Seq<char>, Seq<char>) {
    let w = words_of(line);
    (w[0], if w.len() > 1 {
        w[1]
    } else {
        Seq::<char>::empty()
    })
}

/// The packages of a listing: one per line that holds a word.
pub open spec fn listing_entries(s: Seq<char>) -> Seq<(Seq<char>, Seq<char>)> {
    lines_of(s).filter(|l: Seq<char>| has_words(l)).map_values(|l: Seq<char>| entry_of(l))
}

/// The name and version of each listed package.
pub open spec fn listed_views(v: Seq<ListedPackage>) -> Seq<(Seq<char>, Seq<char>)> {
    v.map_values(|p: ListedPackage| (p.name@, p.version@))
}

/// The name and version of each recorded cask.
pub open spec fn cask_views(v: Seq<CaskBackup>) -> Seq<(Seq<char>, Seq<char>)> {
    v.map_values(|c: CaskBackup| (c.name@, c.version@))
}

fn read_entry(line: &str) -> (r: Option<ListedPackage>)
    ensures
        r is None <==> !has_words(line@),
        r matches Some(p) ==> (p.name@, p.version@) == entry_of(line@),
{
    let w = words(line);
    if w.len() == 0 {
        return None;
    }
    proof {
        assert(views(w@)[0] == w@[0]@);
    }
    let version = if w.len() > 1 {
        assert(views(w@)[1] == w@[1]@);
        w[1].clone()
    } else {
        String::new()
    };
    Some(ListedPackage { name: w[0].clone(), version })
}

/// Reads a `list --versions` listing: each line that holds a word gives a package, its
/// first word the name and its second, if any, the version.
pub fn parse_listing(listing: &str) -> (r: Vec<ListedPackage>)
    ensures
        listed_views(r@) == listing_entries(listing@),
{
    let ls = lines(listing);
    let ghost all = lines_of(listing@);
    let mut r: Vec<ListedPackage> = Vec::new();
    let mut i: usize = 0;
    while i < ls.len()
        invariant
            views(ls@) == all,
            i <= ls@.len(),
            listed_views(r@) == all.subrange(0, i as int).filter(|l: Seq<char>| has_words(l)).map_values(
                |l: Seq<char>| entry_of(l),
            ),
        decreases ls@.len() - i,
    {
        proof {
            assert(all.subrange(0, i + 1) =~= all.subrange(0, i as int).push(all[i as int]));
            all.subrange(0, i as int).lemma_filter_push(all[i as int], |l: Seq<char>| has_words(l));
            assert(ls@[i as int]@ == all[i as int]);
        }
        let ghost before = all.subrange(0, i as int).filter(|l: Seq<char>| has_words(l));
        match read_entry(ls[i].as_str()) {
            Some(p) => {
                proof {
                    assert(listed_views(r@.push(p)) =~= listed_views(r@).push((p.name@, p.version@)));
                    assert(before.push(all[i as int]).map_values(|l: Seq<char>| entry_of(l))
                        =~= before.map_values(|l: Seq<char>| entry_of(l)).push(
                        entry_of(all[i as int]),
                    ));
                }
                r.push(p);
            },
            None => {},
        }
        i = i + 1;
    }
    assert(all.subrange(0, ls@.len() as int) =~= all);
    r
}

/// The install flags found by probing a formula's metadata: every line of a successful
/// probe that holds `--`; nothing when the probe failed.
pub open spec fn probed_options(probe_ok: bool, output: Seq<char>) -> Seq<Seq<char>> {
    if probe_ok {
        lines_of(output).filter(|l: Seq<char>| has_flag_marker(l))
    } else {
        Seq::empty()
    }
}

/// Best-effort probe of a formula's install flags; a failed probe gives none.
pub fn probe_options(probe_ok: bool, output: &str) -> (r: Vec<String>)
    ensures
        views(r@) == probed_options(probe_ok, output@),
{
    let mut r: Vec<String> = Vec::new();
    if !probe_ok {
        assert(views(r@) =~= Seq::<Seq<char>>::empty());
        return r;
    }
    let ls = lines(output);
    let ghost all = lines_of(output@);
    let mut i: usize = 0;
    while i < ls.len()
        invariant
            views(ls@) == all,
            i <= ls@.len(),
            views(r@) == all.subrange(0, i as int).filter(|l: Seq<char>| has_flag_marker(l)),
        decreases ls@.len() - i,
    {
        proof {
            assert(all.subrange(0, i + 1) =~= all.subrange(0, i as int).push(all[i as int]));
            all.subrange(0, i as int).lemma_filter_push(
                all[i as int],
                |l: Seq<char>| has_flag_marker(l),
            );
            assert(ls@[i as int]@ == all[i as int]);
        }
        if has_flag(ls[i].as_str()) {
            let l = ls[i].clone();
            proof {
                assert(views(r@.push(l)) =~= views(r@).push(l@));
            }
            r.push(l);
        }
        i = i + 1;
    }
    assert(all.subrange(0, ls@.len() as int) =~= all);
    r
}

/// The name, version and flags of each recorded formula.
pub open spec fn formula_views(v: Seq<FormulaBackup>) -> Seq<(Seq<char>, Seq<char>, Seq<Seq<char>>)> {
    v.map_values(|f: FormulaBackup| (f.name@, f.version@, views(f.options@)))
}

/// Pairs each listed formula with the install flags probed for it, in listing order.
pub fn formula_entries(listed: Vec<ListedPackage>, options: Vec<Vec<String>>) -> (r: Vec<
    FormulaBackup,
>)
    requires
        listed@.len() == options@.len(),
    ensures
        r@.len() == listed@.len(),
        forall|i: int|
            0 <= i < r@.len() ==> (#[trigger] r@[i]).name == listed@[i].name && r@[i].version
                == listed@[i].version && r@[i].options == options@[i],
{
    let mut r: Vec<FormulaBackup> = Vec::new();
    let mut listed = listed;
    let mut options = options;
    let ghost l0 = listed@;
    let ghost o0 = options@;
    while listed.len() > 0
        invariant
            listed@.len() == options@.len(),
            listed@.len() + r@.len() == l0.len(),
            l0.len() == o0.len(),
            forall|i: int| 0 <= i < listed@.len() ==> listed@[i] == l0[r@.len() + i],
            forall|i: int| 0 <= i < options@.len() ==> options@[i] == o0[r@.len() + i],
            forall|i: int|
                0 <= i < r@.len() ==> (#[trigger] r@[i]).name == l0[i].name && r@[i].version
                    == l0[i].version && r@[i].options == o0[i],
        decreases listed@.len(),
    {
        let p = listed.remove(0);
        let o = options.remove(0);
        r.push(FormulaBackup { name: p.name, version: p.version, options: o });
    }
    r
}

/// Assembles a snapshot from the tap listing, the probed formulas and the cask listing.
pub fn capture_backup(
    created_at: String,
    taps_output: &str,
    formulas: Vec<FormulaBackup>,
    cask_listing: &str,
) -> (r: BackupFile)
    ensures
        r.created_at == created_at,
        views(r.taps@) == lines_of(taps_output@),
        r.formulas == formulas,
        cask_views(r.casks@) == listing_entries(cask_listing@),
{
    let taps = lines(taps_output);
    let listed = parse_listing(cask_listing);
    let mut casks: Vec<CaskBackup> = Vec::new();
    let mut i: usize = 0;
    while i < listed.len()
        invariant
            i <= listed@.len(),
            cask_views(casks@) =~= listed_views(listed@).subrange(0, i as int),
        decreases listed@.len() - i,
    {
        let c = CaskBackup { name: listed[i].name.clone(), version: listed[i].version.clone() };
        proof {
            assert(cask_views(casks@.push(c)) =~= cask_views(casks@).push((c.name@, c.version@)));
        }
        casks.push(c);
        i = i + 1;
    }
    assert(listed_views(listed@).subrange(0, listed@.len() as int) =~= listed_views(listed@));
    BackupFile { created_at, formulas, casks, taps }
}

/// The three groups of a restore, in the order they are replayed.
#[derive(Clone, Copy, Debug, PartialEq, Eq, Structural)]
pub enum Category {
    Tap,
    Formula,
    Cask,
}

/// One backend call of a restore: its group, the item it restores and the arguments.
#[derive(Debug)]
pub struct RestoreStep {
    pub category: Category,
    pub label: String,
    pub args: Vec<String>,
}

/// A step as its group, label and arguments.
pub open spec fn step_view(s: RestoreStep) -> (Category, Seq<char>, Seq<Seq<char>>) {
    (s.category, s.label@, views(s.args@))
}

/// Each step as its group, label and arguments.
pub open spec fn step_views(v: Seq<RestoreStep>) -> Seq<(Category, Seq<char>, Seq<Seq<char>>)> {
    v.map_values(|s: RestoreStep| step_view(s))
}

/// A tap is registered again with `tap <name>`.
pub open spec fn tap_step(t: Seq<char>) -> (Category, Seq<char>, Seq<Seq<char>>) {
    (Category::Tap, t, seq!["tap"@, t])
}

/// A formula is reinstalled with every recorded flag passed as it stands.
pub open spec fn formula_step(f: FormulaBackup) -> (Category, Seq<char>, Seq<Seq<char>>) {
    (Category::Formula, f.name@, seq!["install"@, f.name@] + views(f.options@))
}

/// A cask is reinstalled with `install --cask <name>`.
pub open spec fn cask_step(c: CaskBackup) -> (Category, Seq<char>, Seq<Seq<char>>) {
    (Category::Cask, c.name@, seq!["install"@, "--cask"@, c.name@])
}

/// The calls that replay `b`: taps first, then formulas, then casks, each group in the
/// order the snapshot lists it.
pub open spec fn restore_steps(b: BackupFile) -> Seq<(Category, Seq<char>, Seq<Seq<char>>)> {
    b.taps@.map_values(|t: String| tap_step(t@)) + b.formulas@.map_values(
        |f: FormulaBackup| formula_step(f),
    ) + b.casks@.map_values(|c: CaskBackup| cask_step(c))
}

fn copy_strings(v: &Vec<String>) -> (r: Vec<String>)
    ensures
        views(r@) == views(v@),
{
    let mut r: Vec<String> = Vec::new();
    crate::text::extend_strings(&mut r, v);
    assert(views(r@) =~= views(v@));
    r
}

fn push_step(plan: &mut Vec<RestoreStep>, step: RestoreStep)
    ensures
        step_views(final(plan)@) == step_views(old(plan)@).push(step_view(step)),
{
    proof {
        assert(step_views(plan@.push(step)) =~= step_views(plan@).push(step_view(step)));
    }
    plan.push(step);
}

/// The calls that replay a snapshot, in replay order.
pub fn restore_plan(b: &BackupFile) -> (r: Vec<RestoreStep>)
    ensures
        step_views(r@) == restore_steps(*b),
{
    let mut plan: Vec<RestoreStep> = Vec::new();
    let ghost taps = b.taps@.map_values(|t: String| tap_step(t@));
    let ghost formulas = b.formulas@.map_values(|f: FormulaBackup| formula_step(f));
    let ghost casks = b.casks@.map_values(|c: CaskBackup| cask_step(c));
    let mut i: usize = 0;
    while i < b.taps.len()
        invariant
            i <= b.taps@.len(),
            taps == b.taps@.map_values(|t: String| tap_step(t@)),
            formulas == b.formulas@.map_values(|f: FormulaBackup| formula_step(f)),
            casks == b.casks@.map_values(|c: CaskBackup| cask_step(c)),
            step_views(plan@) =~= taps.subrange(0, i as int),
        decreases b.taps@.len() - i,
    {
        let mut args: Vec<String> = Vec::new();
        push_str(&mut args, "tap");
        push_str(&mut args, b.taps[i].as_str());
        assert(views(args@) =~= seq!["tap"@, b.taps@[i as int]@]);
        let step = RestoreStep { category: Category::Tap, label: b.taps[i].clone(), args };
        assert(step_view(step) == taps[i as int]);
        assert(taps.subrange(0, i + 1) =~= taps.subrange(0, i as int).push(taps[i as int]));
        push_step(&mut plan, step);
        i = i + 1;
    }
    assert(taps.subrange(0, i as int) =~= taps);
    let mut j: usize = 0;
    while j < b.formulas.len()
        invariant
            j <= b.formulas@.len(),
            taps == b.taps@.map_values(|t: String| tap_step(t@)),
            formulas == b.formulas@.map_values(|f: FormulaBackup| formula_step(f)),
            casks == b.casks@.map_values(|c: CaskBackup| cask_step(c)),
            step_views(plan@) =~= taps + formulas.subrange(0, j as int),
        decreases b.formulas@.len() - j,
    {
        let f = &b.formulas[j];
        let mut args: Vec<String> = Vec::new();
        push_str(&mut args, "install");
        push_str(&mut args, f.name.as_str());
        crate::text::extend_strings(&mut args, &f.options);
        assert(views(args@) =~= seq!["install"@, f.name@] + views(f.options@));
        let step = RestoreStep { category: Category::Formula, label: f.name.clone(), args };
        assert(step_view(step) == formulas[j as int]);
        assert(formulas.subrange(0, j + 1) =~= formulas.subrange(0, j as int).push(
            formulas[j as int],
        ));
        push_step(&mut plan, step);
        j = j + 1;
    }
    assert(formulas.subrange(0, j as int) =~= formulas);
    let mut k: usize = 0;
    while k < b.casks.len()
        invariant
            k <= b.casks@.len(),
            taps == b.taps@.map_values(|t: String| tap_step(t@)),
            formulas == b.formulas@.map_values(|f: FormulaBackup| formula_step(f)),
            casks == b.casks@.map_values(|c: CaskBackup| cask_step(c)),
            step_views(plan@) =~= taps + formulas + casks.subrange(0, k as int),
        decreases b.casks@.len() - k,
    {
        let c = &b.casks[k];
        let mut args: Vec<String> = Vec::new();
        push_str(&mut args, "install");
        push_str(&mut args, "--cask");
        push_str(&mut args, c.name.as_str());
        assert(views(args@) =~= seq!["install"@, "--cask"@, c.name@]);
        let step = RestoreStep { category: Category::Cask, label: c.name.clone(), args };
        assert(step_view(step) == casks[k as int]);
        assert(casks.subrange(0, k + 1) =~= casks.subrange(0, k as int).push(casks[k as int]));
        push_step(&mut plan, step);
        k = k + 1;
    }
    assert(casks.subrange(0, k as int) =~= casks);
    plan
}

/// The group of a step.
pub open spec fn cat_of(x: (Category, Seq<char>, Seq<Seq<char>>)) -> Category {
    let (c, _, _) = x;
    c
}

/// The item a step restores.
pub open spec fn label_of(x: (Category, Seq<char>, Seq<Seq<char>>)) -> Seq<char> {
    let (_, l, _) = x;
    l
}

/// The name of a listing entry.
pub open spec fn name_of(e: (Seq<char>, Seq<char>)) -> Seq<char> {
    let (n, _) = e;
    n
}

/// The results of the steps of group `c`, in order, among the first `results.len()` steps.
pub open spec fn results_of(cats: Seq<Category>, results: Seq<bool>, c: Category) -> Seq<bool>
    decreases results.len(),
{
    if results.len() == 0 {
        Seq::empty()
    } else {
        let n = results.len() - 1;
        let prev = results_of(cats, results.drop_last(), c);
        if cats[n] == c {
            prev.push(results[n])
        } else {
            prev
        }
    }
}

/// How many of `cats` are `c`.
pub open spec fn count_cat(cats: Seq<Category>, c: Category) -> nat
    decreases cats.len(),
{
    if cats.len() == 0 {
        0
    } else {
        count_cat(cats.drop_last(), c) + if cats.last() == c {
            1nat
        } else {
            0nat
        }
    }
}

/// The group of each step, in order.
pub open spec fn step_cats(v: Seq<(Category, Seq<char>, Seq<Seq<char>>)>) -> Seq<Category> {
    v.map_values(|x: (Category, Seq<char>, Seq<Seq<char>>)| cat_of(x))
}

/// A restore under way: its plan, and the exit status of each step run so far.
#[derive(Debug)]
pub struct RestoreRun {
    pub steps: Vec<RestoreStep>,
    pub results: Vec<bool>,
}

/// The pass and fail counts of each group of a restore.
#[derive(Clone, Copy, Debug, PartialEq, Eq, Structural)]
pub struct RestoreSummary {
    pub taps: BatchSummary,
    pub formulas: BatchSummary,
    pub casks: BatchSummary,
}

/// The tally of group `c` that a summary must show.
pub open spec fn tally_matches(s: BatchSummary, cats: Seq<Category>, results: Seq<bool>, c: Category) -> bool {
    &&& s.succeeded == count_results(results_of(cats, results, c), true)
    &&& s.failed == count_results(results_of(cats, results, c), false)
}

impl RestoreRun {
    /// No more results than steps.
    pub open spec fn wf(&self) -> bool {
        self.results@.len() <= self.steps@.len()
    }

    /// The group of each planned step.
    pub open spec fn spec_cats(&self) -> Seq<Category> {
        step_cats(step_views(self.steps@))
    }

    /// Starts the replay of `b`, with nothing run yet.
    pub fn new(b: &BackupFile) -> (r: RestoreRun)
        ensures
            r.wf(),
            step_views(r.steps@) == restore_steps(*b),
            r.results@.len() == 0,
    {
        RestoreRun { steps: restore_plan(b), results: Vec::new() }
    }

    /// Whether every step has been run.
    pub fn is_finished(&self) -> (r: bool)
        requires
            self.wf(),
        ensures
            r == (self.results@.len() == self.steps@.len()),
    {
        self.results.len() >= self.steps.len()
    }

    /// The next step to run: the first one without a result.
    pub fn next_step(&self) -> (r: Option<&RestoreStep>)
        requires
            self.wf(),
        ensures
            self.results@.len() < self.steps@.len() ==> r == Some(
                &self.steps@[self.results@.len() as int],
            ),
            self.results@.len() == self.steps@.len() ==> r is None,
    {
        if self.results.len() < self.steps.len() {
            Some(&self.steps[self.results.len()])
        } else {
            None
        }
    }

    /// Records the exit status of the next step; a failure does not stop the replay.
    pub fn record(&mut self, ok: bool)
        requires
            old(self).wf(),
            old(self).results@.len() < old(self).steps@.len(),
        ensures
            final(self).wf(),
            final(self).steps == old(self).steps,
            final(self).results@ == old(self).results@.push(ok),
    {
        self.results.push(ok);
    }

    /// The pass and fail counts of each group among the steps run so far.
    pub fn summary(&self) -> (r: RestoreSummary)
        requires
            self.wf(),
        ensures
            tally_matches(r.taps, self.spec_cats(), self.results@, Category::Tap),
            tally_matches(r.formulas, self.spec_cats(), self.results@, Category::Formula),
            tally_matches(r.casks, self.spec_cats(), self.results@, Category::Cask),
    {
        let ghost cats = self.spec_cats();
        let mut ts: usize = 0;
        let mut tf: usize = 0;
        let mut fs: usize = 0;
        let mut ff: usize = 0;
        let mut cs: usize = 0;
        let mut cf: usize = 0;
        let mut i: usize = 0;
        while i < self.results.len()
            invariant
                self.wf(),
                cats == self.spec_cats(),
                i <= self.results@.len(),
                ts + tf + fs + ff + cs + cf == i,
                tally_matches(
                    BatchSummary { succeeded: ts, failed: tf },
                    cats,
                    self.results@.subrange(0, i as int),
                    Category::Tap,
                ),
                tally_matches(
                    BatchSummary { succeeded: fs, failed: ff },
                    cats,
                    self.results@.subrange(0, i as int),
                    Category::Formula,
                ),
                tally_matches(
                    BatchSummary { succeeded: cs, failed: cf },
                    cats,
                    self.results@.subrange(0, i as int),
                    Category::Cask,
                ),
            decreases self.results@.len() - i,
        {
            proof {
                lemma_results_of_step(cats, self.results@, i as int, Category::Tap);
                lemma_results_of_step(cats, self.results@, i as int, Category::Formula);
                lemma_results_of_step(cats, self.results@, i as int, Category::Cask);
            }
            assert(cats[i as int] == self.steps@[i as int].category);
            let ok = self.results[i];
            match self.steps[i].category {
                Category::Tap => if ok {
                    ts = ts + 1;
                } else {
                    tf = tf + 1;
                },
                Category::Formula => if ok {
                    fs = fs + 1;
                } else {
                    ff = ff + 1;
                },
                Category::Cask => if ok {
                    cs = cs + 1;
                } else {
                    cf = cf + 1;
                },
            }
            i = i + 1;
        }
        assert(self.results@.subrange(0, i as int) =~= self.results@);
        RestoreSummary {
            taps: BatchSummary { succeeded: ts, failed: tf },
            formulas: BatchSummary { succeeded: fs, failed: ff },
            casks: BatchSummary { succeeded: cs, failed: cf },
        }
    }
}

proof fn lemma_results_of_step(cats: Seq<Category>, results: Seq<bool>, i: int, c: Category)
    requires
        0 <= i < results.len(),
    ensures
        ({
            let before = results_of(cats, results.subrange(0, i), c);
            let after = results_of(cats, results.subrange(0, i + 1), c);
            &&& cats[i] == c ==> after == before.push(results[i])
            &&& cats[i] == c ==> count_results(after, results[i]) == count_results(before, results[i]) + 1
            &&& cats[i] == c ==> count_results(after, !results[i]) == count_results(before, !results[i])
            &&& cats[i] != c ==> after == before
        }),
{
    assert(results.subrange(0, i + 1).drop_last() =~= results.subrange(0, i));
    let before = results_of(cats, results.subrange(0, i), c);
    assert(before.push(results[i]).drop_last() =~= before);
}

proof fn lemma_results_of_len(cats: Seq<Category>, results: Seq<bool>, c: Category)
    requires
        results.len() <= cats.len(),
    ensures
        results_of(cats, results, c).len() == count_cat(cats.subrange(0, results.len() as int), c),
    decreases results.len(),
{
    if results.len() > 0 {
        lemma_results_of_len(cats, results.drop_last(), c);
        assert(cats.subrange(0, results.len() as int).drop_last() =~= cats.subrange(
            0,
            results.len() - 1,
        ));
    }
}

proof fn lemma_count_cat_add(a: Seq<Category>, b: Seq<Category>, c: Category)
    ensures
        count_cat(a + b, c) == count_cat(a, c) + count_cat(b, c),
    decreases b.len(),
{
    if b.len() == 0 {
        assert(a + b =~= a);
    } else {
        lemma_count_cat_add(a, b.drop_last(), c);
        assert((a + b).drop_last() =~= a + b.drop_last());
    }
}

proof fn lemma_count_cat_uniform(s: Seq<Category>, d: Category, c: Category)
    requires
        forall|i: int| 0 <= i < s.len() ==> s[i] == d,
    ensures
        count_cat(s, c) == if c == d {
            s.len()
        } else {
            0
        },
    decreases s.len(),
{
    if s.len() > 0 {
        lemma_count_cat_uniform(s.drop_last(), d, c);
    }
}

proof fn lemma_plan_counts(b: BackupFile, c: Category)
    ensures
        count_cat(step_cats(restore_steps(b)), c) == if c == Category::Tap {
            b.taps@.len()
        } else if c == Category::Formula {
            b.formulas@.len()
        } else {
            b.casks@.len()
        },
{
    let t = step_cats(b.taps@.map_values(|x: String| tap_step(x@)));
    let f = step_cats(b.formulas@.map_values(|x: FormulaBackup| formula_step(x)));
    let k = step_cats(b.casks@.map_values(|x: CaskBackup| cask_step(x)));
    assert(step_cats(restore_steps(b)) =~= t + f + k);
    lemma_count_cat_add(t + f, k, c);
    lemma_count_cat_add(t, f, c);
    lemma_count_cat_uniform(t, Category::Tap, c);
    lemma_count_cat_uniform(f, Category::Formula, c);
    lemma_count_cat_uniform(k, Category::Cask, c);
}

/// Replaying a snapshot calls tap-add for every tap before any formula or cask install.
pub proof fn lemma_taps_replayed_first(b: BackupFile, i: int, j: int)
    requires
        0 <= i < restore_steps(b).len(),
        0 <= j < restore_steps(b).len(),
        cat_of(restore_steps(b)[i]) == Category::Tap,
        cat_of(restore_steps(b)[j]) != Category::Tap,
    ensures
        i < j,
        restore_steps(b)[i] == tap_step(b.taps@[i]@),
{
}

/// Once every step of a replay has run, whatever each returned, the tally of each group
/// accounts for every item of that group, and its failures are exactly the items whose
/// call failed.
pub proof fn lemma_every_item_attempted(b: BackupFile, results: Seq<bool>, c: Category)
    requires
        results.len() == restore_steps(b).len(),
    ensures
        results_of(step_cats(restore_steps(b)), results, c).len() == if c == Category::Tap {
            b.taps@.len()
        } else if c == Category::Formula {
            b.formulas@.len()
        } else {
            b.casks@.len()
        },
        count_results(results_of(step_cats(restore_steps(b)), results, c), true) + count_results(
            results_of(step_cats(restore_steps(b)), results, c),
            false,
        ) == results_of(step_cats(restore_steps(b)), results, c).len(),
{
    let cats = step_cats(restore_steps(b));
    lemma_results_of_len(cats, results, c);
    assert(cats.subrange(0, results.len() as int) =~= cats);
    lemma_plan_counts(b, c);
    lemma_count_results_bound(results_of(cats, results, c), true);
}

/// Replaying a snapshot taken from listings of taps, formulas and casks calls, group by
/// group and in listing order, exactly the items that were listed, each once, so that the
/// replayed counts equal the captured ones.
pub proof fn lemma_backup_round_trip(
    b: BackupFile,
    taps_output: Seq<char>,
    formula_listing: Seq<char>,
    cask_listing: Seq<char>,
)
    requires
        views(b.taps@) == lines_of(taps_output),
        b.formulas@.map_values(|f: FormulaBackup| f.name@) == listing_entries(
            formula_listing,
        ).map_values(|e: (Seq<char>, Seq<char>)| name_of(e)),
        cask_views(b.casks@) == listing_entries(cask_listing),
    ensures
        ({
            let s = restore_steps(b);
            let t = lines_of(taps_output).len();
            let f = listing_entries(formula_listing).len();
            let k = listing_entries(cask_listing).len();
            &&& s.len() == t + f + k
            &&& count_cat(step_cats(s), Category::Tap) == t
            &&& count_cat(step_cats(s), Category::Formula) == f
            &&& count_cat(step_cats(s), Category::Cask) == k
            &&& forall|i: int|
                0 <= i < t ==> #[trigger] s[i] == tap_step(lines_of(taps_output)[i])
            &&& forall|i: int|
                0 <= i < f ==> #[trigger] s[t + i] == formula_step(b.formulas@[i])
                    && label_of(s[t + i]) == name_of(listing_entries(formula_listing)[i])
            &&& forall|i: int|
                0 <= i < k ==> #[trigger] s[t + f + i] == cask_step(b.casks@[i])
                    && label_of(s[t + f + i]) == name_of(listing_entries(cask_listing)[i])
        }),
{
    let s = restore_steps(b);
    let t = lines_of(taps_output).len();
    let f = listing_entries(formula_listing).len();
    let k = listing_entries(cask_listing).len();
    assert(b.taps@.len() == t) by {
        assert(views(b.taps@).len() == b.taps@.len());
    }
    assert(b.formulas@.len() == f) by {
        assert(b.formulas@.map_values(|x: FormulaBackup| x.name@).len() == b.formulas@.len());
    }
    assert(b.casks@.len() == k) by {
        assert(cask_views(b.casks@).len() == b.casks@.len());
    }
    lemma_plan_counts(b, Category::Tap);
    lemma_plan_counts(b, Category::Formula);
    lemma_plan_counts(b, Category::Cask);
    assert forall|i: int| 0 <= i < t implies #[trigger] s[i] == tap_step(lines_of(taps_output)[i]) by {
        assert(views(b.taps@)[i] == b.taps@[i]@);
    }
    assert forall|i: int| 0 <= i < f implies #[trigger] s[t + i] == formula_step(b.formulas@[i])
        && label_of(s[t + i]) == name_of(listing_entries(formula_listing)[i]) by {
        assert(b.formulas@.map_values(|x: FormulaBackup| x.name@)[i] == b.formulas@[i].name@);
    }
    assert forall|i: int| 0 <= i < k implies #[trigger] s[t + f + i] == cask_step(b.casks@[i])
        && label_of(s[t + f + i]) == name_of(listing_entries(cask_listing)[i]) by {
        assert(cask_views(b.casks@)[i] == (b.casks@[i].name@, b.casks@[i].version@));
    }
}

/// The name of an automatic backup taken at `stamp`.
pub fn backup_file_name(stamp: &str) -> (r: String)
    ensures
        r@ == "bert_backup_"@ + stamp@ + ".json"@,
{
    let head = concat_str("bert_backup_", stamp);
    concat_str(head.as_str(), ".json")
}

/// A file of the backup directory, with its modification time.
#[derive(Debug)]
pub struct BackupCandidate {
    pub file_name: String,
    pub modified: u64,
}

/// A file that holds a snapshot: its name has a stem and the `json` extension.
pub open spec fn is_backup_file(name: Seq<char>) -> bool {
    name.len() > 5 && has_suffix(name, ".json"@)
}

/// The snapshot to restore when none is named: the most recently modified backup file,
/// the later-listed one among equals; none when there is no backup file.
pub fn latest_backup(entries: &Vec<BackupCandidate>) -> (r: Option<usize>)
    ensures
        r is None <==> forall|j: int|
            0 <= j < entries@.len() ==> !is_backup_file(#[trigger] entries@[j].file_name@),
        r matches Some(i) ==> ({
            &&& i < entries@.len()
            &&& is_backup_file(entries@[i as int].file_name@)
            &&& forall|j: int|
                0 <= j < entries@.len() && is_backup_file(#[trigger] entries@[j].file_name@)
                    ==> entries@[j].modified <= entries@[i as int].modified
            &&& forall|j: int|
                i < j < entries@.len() && is_backup_file(#[trigger] entries@[j].file_name@)
                    ==> entries@[j].modified < entries@[i as int].modified
        }),
{
    proof {
        reveal_strlit(".json");
    }
    let mut best: Option<usize> = None;
    let mut i: usize = 0;
    while i < entries.len()
        invariant
            i <= entries@.len(),
            best is None <==> forall|j: int|
                0 <= j < i ==> !is_backup_file(#[trigger] entries@[j].file_name@),
            best matches Some(b) ==> ({
                &&& b < i
                &&& is_backup_file(entries@[b as int].file_name@)
                &&& forall|j: int|
                    0 <= j < i && is_backup_file(#[trigger] entries@[j].file_name@)
                        ==> entries@[j].modified <= entries@[b as int].modified
                &&& forall|j: int|
                    b < j < i && is_backup_file(#[trigger] entries@[j].file_name@)
                        ==> entries@[j].modified < entries@[b as int].modified
            }),
        decreases entries@.len() - i,
    {
        let name = entries[i].file_name.as_str();
        let is_backup = name.unicode_len() > 5 && crate::text::ends_with(name, ".json");
        assert(is_backup == is_backup_file(entries@[i as int].file_name@));
        if is_backup {
            match best {
                None => {
                    best = Some(i);
                },
                Some(b) => {
                    if entries[i].modified >= entries[b].modified {
                        best = Some(i);
                    }
                },
            }
        }
        i = i + 1;
    }
    best
}

} // verus!
