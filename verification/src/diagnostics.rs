//! Collecting compilation diagnostics from a compilation database and handing them
//! to a reporter that ignores them, calls a callback with them, or appends them to a string.

use vstd::prelude::*;

verus! {

/// Compilation failed.
#[derive(Clone, Copy, Debug, PartialEq, Eq, Structural)]
pub struct DiagnosticsError;

/// Something that receives diagnostics, one string at a time.
pub trait DiagnosticCallback {
    /// The diagnostics handed to this receiver so far, in order.
    spec fn handed_out(&self) -> Seq<Seq<char>>;

    /// This receiver can be handed any diagnostic.
    spec fn ready(&self) -> bool;

    /// What holds once this receiver has been handed `diagnostic`.
    spec fn received(&self, diagnostic: String) -> bool;

    fn on_diagnostic(&mut self, diagnostic: String)
        requires
            old(self).ready(),
        ensures
            final(self).ready(),
            final(self).handed_out() == old(self).handed_out().push(diagnostic@),
            final(self).received(diagnostic),
            forall|s: String| #[trigger] final(self).received(s) == old(self).received(s),
    ;
}

/// A closure seen as a [`DiagnosticCallback`], with the diagnostics handed to it so far.
pub struct Func<F>(F, Ghost<Seq<Seq<char>>>);

impl<F: FnMut(String)> DiagnosticCallback for Func<F> {
    closed spec fn handed_out(&self) -> Seq<Seq<char>> {
        self.1@
    }

    /// The closure can be called with any string.
    closed spec fn ready(&self) -> bool {
        forall|s: String| call_requires(self.0, (s,))
    }

    /// The closure's postcondition for a call with `diagnostic` holds.
    closed spec fn received(&self, diagnostic: String) -> bool {
        call_ensures(self.0, (diagnostic,), ())
    }

    fn on_diagnostic(&mut self, diagnostic: String) {
        proof {
            self.1@ = self.1@.push(diagnostic@);
        }
        (self.0)(diagnostic)
    }
}

/// The callback type of reporters that have no callback: it keeps nothing.
pub struct NoCallback(Ghost<Seq<Seq<char>>>);

impl DiagnosticCallback for NoCallback {
    closed spec fn handed_out(&self) -> Seq<Seq<char>> {
        self.0@
    }

    closed spec fn ready(&self) -> bool {
        true
    }

    /// Nothing holds of a call, for there is nothing to call.
    closed spec fn received(&self, diagnostic: String) -> bool {
        true
    }

    fn on_diagnostic(&mut self, diagnostic: String) {
        proof {
            self.0@ = self.0@.push(diagnostic@);
        }
    }
}

/// Where a reporter sends the diagnostics it is given.
enum Sink<'a, C> {
    Ignore,
    Callback(C),
    Text(&'a mut String),
}

/// How a reporter presents diagnostics.
#[derive(Clone, Copy, Debug, PartialEq, Eq, Structural)]
pub enum ReporterMode {
    /// Diagnostics are neither printed nor collected.
    Ignoring,
    /// Each diagnostic is handed to a callback.
    Callback,
    /// Each diagnostic is appended to a string.
    Text,
}

/// Collects compilation diagnostics and presents them in preconfigured way.
pub struct DiagnosticsReporter<'a, C = NoCallback> {
    sink: Sink<'a, C>,
    reported: Ghost<Seq<Seq<char>>>,
}

/// The message reported for a crate whose main module file cannot be found.
pub open spec fn main_file_failure_message() -> Seq<char> {
    "Failed to get main module file"@
}

/// The message reported for a main module file on disk that has no content.
pub open spec fn not_found_message(path: Seq<char>) -> Seq<char> {
    path + " not found\n"@
}

/// The concatenation of a sequence of strings.
pub open spec fn concat(ds: Seq<Seq<char>>) -> Seq<char>
    decreases ds.len(),
{
    if ds.len() == 0 {
        Seq::empty()
    } else {
        concat(ds.drop_last()) + ds.last()
    }
}

/// Concatenation distributes over joining two sequences of strings.
pub proof fn lemma_concat_append(a: Seq<Seq<char>>, b: Seq<Seq<char>>)
    ensures
        concat(a + b) == concat(a) + concat(b),
    decreases b.len(),
{
    if b.len() == 0 {
        assert(a + b =~= a);
        assert(concat(a) + concat(b) =~= concat(a));
    } else {
        assert((a + b).drop_last() =~= a + b.drop_last());
        lemma_concat_append(a, b.drop_last());
        assert(concat(a + b) =~= concat(a) + concat(b));
    }
}

/// Concatenating one more string appends it.
proof fn lemma_concat_push(a: Seq<Seq<char>>, d: Seq<char>)
    ensures
        concat(a.push(d)) == concat(a) + d,
{
    assert(a.push(d).drop_last() =~= a);
}

/// The location of a file of the database.
#[derive(Clone, Debug, PartialEq, Eq)]
pub enum FileLongId {
    /// A file on disk, by the displayed form of its path.
    OnDisk(String),
    /// A virtual file, by its name.
    Virtual(String),
}

/// The diagnostics of one compilation stage for one file or module: how many there are,
/// and their formatted text.
#[derive(Clone, Debug, PartialEq, Eq)]
pub struct Diagnostics {
    pub count: usize,
    pub formatted: String,
}

/// The main module file of a crate.
#[derive(Clone, Debug, PartialEq, Eq)]
pub struct MainFile {
    pub file: FileLongId,
    /// Whether the database holds content for the file.
    pub has_content: bool,
}

/// What diagnostics collection reads of one module.
#[derive(Clone, Debug, PartialEq, Eq)]
pub struct ModuleSnapshot {
    /// The syntax diagnostics of each file of the module; `None` when the module's files
    /// cannot be computed.
    pub files: Option<Vec<Diagnostics>>,
    /// The semantic diagnostics of the module; `None` when they cannot be computed.
    pub semantic: Option<Diagnostics>,
    /// The lowering diagnostics of the module; `None` when they cannot be computed.
    pub lowering: Option<Diagnostics>,
}

/// What diagnostics collection reads of one crate.
#[derive(Clone, Debug, PartialEq, Eq)]
pub struct CrateSnapshot {
    /// The crate's main module file; `None` when it cannot be computed.
    pub main_file: Option<MainFile>,
    pub modules: Vec<ModuleSnapshot>,
}

/// The compilation database, as diagnostics collection reads it: its crates, in order.
#[derive(Clone, Debug, PartialEq, Eq)]
pub struct RootDatabase {
    pub crates: Vec<CrateSnapshot>,
}

/// What is reported for one set of diagnostics: its text, unless it is empty.
pub open spec fn stage_reports(d: Diagnostics) -> Seq<Seq<char>> {
    if d.count == 0 {
        Seq::empty()
    } else {
        seq![d.formatted@]
    }
}

/// What is reported for a set of diagnostics that may not have been computed.
pub open spec fn optional_stage_reports(d: Option<Diagnostics>) -> Seq<Seq<char>> {
    match d {
        Some(d) => stage_reports(d),
        None => Seq::empty(),
    }
}

/// What is reported for the syntax diagnostics of a module's files, in order.
pub open spec fn files_reports(files: Seq<Diagnostics>) -> Seq<Seq<char>>
    decreases files.len(),
{
    if files.len() == 0 {
        Seq::empty()
    } else {
        files_reports(files.drop_last()) + stage_reports(files.last())
    }
}

/// What is reported for one module: syntax diagnostics of each file, then the semantic,
/// then the lowering diagnostics.
pub open spec fn module_reports(m: ModuleSnapshot) -> Seq<Seq<char>> {
    let files = match m.files {
        Some(files) => files@,
        None => Seq::empty(),
    };
    files_reports(files) + optional_stage_reports(m.semantic) + optional_stage_reports(
        m.lowering,
    )
}

/// What is reported for a sequence of modules, in order.
pub open spec fn modules_reports(ms: Seq<ModuleSnapshot>) -> Seq<Seq<char>>
    decreases ms.len(),
{
    if ms.len() == 0 {
        Seq::empty()
    } else {
        modules_reports(ms.drop_last()) + module_reports(ms.last())
    }
}

/// What is reported for the main module file of a crate.
pub open spec fn main_file_reports(f: MainFile) -> Seq<Seq<char>> {
    if f.has_content {
        Seq::empty()
    } else {
        match f.file {
            FileLongId::OnDisk(path) => seq![not_found_message(path@)],
            FileLongId::Virtual(_) => Seq::empty(),
        }
    }
}

/// What is reported for one crate: a crate whose main module file cannot be computed is
/// reported once and not looked into further.
pub open spec fn crate_reports(c: CrateSnapshot) -> Seq<Seq<char>> {
    match c.main_file {
        None => seq![main_file_failure_message()],
        Some(f) => main_file_reports(f) + modules_reports(c.modules@),
    }
}

/// What is reported for a sequence of crates, in order.
pub open spec fn crates_reports(cs: Seq<CrateSnapshot>) -> Seq<Seq<char>>
    decreases cs.len(),
{
    if cs.len() == 0 {
        Seq::empty()
    } else {
        crates_reports(cs.drop_last()) + crate_reports(cs.last())
    }
}

/// Every diagnostic that checking the database reports, in order.
pub open spec fn db_reports(db: RootDatabase) -> Seq<Seq<char>> {
    crates_reports(db.crates@)
}

/// No crate's main module file is a virtual file without content (on such a database
/// checking panics).
pub open spec fn no_missing_virtual_main_file(db: RootDatabase) -> bool {
    forall|i: int|
        0 <= i < db.crates@.len() ==> match #[trigger] db.crates@[i].main_file {
            Some(f) => f.has_content || f.file is OnDisk,
            None => true,
        }
}


/// A set of diagnostics that may not have been computed holds some diagnostics.
pub open spec fn stage_has_diagnostics(d: Option<Diagnostics>) -> bool {
    d matches Some(d) && d.count != 0
}

/// A module has diagnostics: one of its files has syntax diagnostics, or it has semantic
/// or lowering diagnostics.
pub open spec fn module_has_diagnostics(m: ModuleSnapshot) -> bool {
    ||| (m.files matches Some(files) && exists|k: int|
        0 <= k < files@.len() && (#[trigger] files@[k]).count != 0)
    ||| stage_has_diagnostics(m.semantic)
    ||| stage_has_diagnostics(m.lowering)
}

/// A crate has diagnostics: its main module file cannot be computed, or is on disk without
/// content, or one of its modules has diagnostics.
pub open spec fn crate_has_diagnostics(c: CrateSnapshot) -> bool {
    match c.main_file {
        None => true,
        Some(f) => {
            ||| (!f.has_content && f.file is OnDisk)
            ||| exists|j: int| 0 <= j < c.modules@.len() && module_has_diagnostics(#[trigger] c.modules@[j])
        },
    }
}

/// The database has diagnostics: one of its crates has.
pub open spec fn db_has_diagnostics(db: RootDatabase) -> bool {
    exists|i: int| 0 <= i < db.crates@.len() && crate_has_diagnostics(#[trigger] db.crates@[i])
}

proof fn lemma_files_found(files: Seq<Diagnostics>)
    ensures
        files_reports(files).len() > 0 <==> exists|k: int| 0 <= k < files.len() && (#[trigger] files[k]).count != 0,
    decreases files.len(),
{
    if files.len() > 0 {
        lemma_files_found(files.drop_last());
        if exists|k: int| 0 <= k < files.len() && (#[trigger] files[k]).count != 0 {
            let k = choose|k: int| 0 <= k < files.len() && (#[trigger] files[k]).count != 0;
            if k < files.len() - 1 {
                assert(files.drop_last()[k] == files[k]);
            }
        }
        if exists|k: int| 0 <= k < files.len() - 1 && (#[trigger] files.drop_last()[k]).count != 0 {
            let k = choose|k: int| 0 <= k < files.len() - 1 && (#[trigger] files.drop_last()[k]).count != 0;
            assert(files[k] == files.drop_last()[k]);
        }
    }
}

proof fn lemma_module_found(m: ModuleSnapshot)
    ensures
        module_reports(m).len() > 0 <==> module_has_diagnostics(m),
{
    match m.files {
        Some(files) => lemma_files_found(files@),
        None => {},
    }
}

proof fn lemma_modules_found(ms: Seq<ModuleSnapshot>)
    ensures
        modules_reports(ms).len() > 0 <==> exists|j: int| 0 <= j < ms.len() && module_has_diagnostics(#[trigger] ms[j]),
    decreases ms.len(),
{
    if ms.len() > 0 {
        lemma_modules_found(ms.drop_last());
        lemma_module_found(ms.last());
        if exists|j: int| 0 <= j < ms.len() && module_has_diagnostics(#[trigger] ms[j]) {
            let j = choose|j: int| 0 <= j < ms.len() && module_has_diagnostics(#[trigger] ms[j]);
            if j < ms.len() - 1 {
                assert(ms.drop_last()[j] == ms[j]);
            }
        }
        if exists|j: int| 0 <= j < ms.len() - 1 && module_has_diagnostics(#[trigger] ms.drop_last()[j]) {
            let j = choose|j: int| 0 <= j < ms.len() - 1 && module_has_diagnostics(#[trigger] ms.drop_last()[j]);
            assert(ms[j] == ms.drop_last()[j]);
        }
    }
}

proof fn lemma_crate_found(c: CrateSnapshot)
    requires
        match c.main_file {
            Some(f) => f.has_content || f.file is OnDisk,
            None => true,
        },
    ensures
        crate_reports(c).len() > 0 <==> crate_has_diagnostics(c),
{
    lemma_modules_found(c.modules@);
}

proof fn lemma_crates_found(cs: Seq<CrateSnapshot>)
    requires
        forall|i: int|
            0 <= i < cs.len() ==> match #[trigger] cs[i].main_file {
                Some(f) => f.has_content || f.file is OnDisk,
                None => true,
            },
    ensures
        crates_reports(cs).len() > 0 <==> exists|i: int| 0 <= i < cs.len() && crate_has_diagnostics(#[trigger] cs[i]),
    decreases cs.len(),
{
    if cs.len() > 0 {
        assert forall|i: int| 0 <= i < cs.len() - 1 implies match #[trigger] cs.drop_last()[i].main_file {
            Some(f) => f.has_content || f.file is OnDisk,
            None => true,
        } by {
            assert(cs.drop_last()[i] == cs[i]);
        }
        lemma_crates_found(cs.drop_last());
        let last = cs.last();
        assert(match cs[cs.len() - 1].main_file {
            Some(f) => f.has_content || f.file is OnDisk,
            None => true,
        });
        lemma_crate_found(last);
        if exists|i: int| 0 <= i < cs.len() && crate_has_diagnostics(#[trigger] cs[i]) {
            let i = choose|i: int| 0 <= i < cs.len() && crate_has_diagnostics(#[trigger] cs[i]);
            if i < cs.len() - 1 {
                assert(cs.drop_last()[i] == cs[i]);
            }
        }
        if exists|i: int| 0 <= i < cs.len() - 1 && crate_has_diagnostics(#[trigger] cs.drop_last()[i]) {
            let i = choose|i: int| 0 <= i < cs.len() - 1 && crate_has_diagnostics(#[trigger] cs.drop_last()[i]);
            assert(cs[i] == cs.drop_last()[i]);
        }
    }
}

/// Checking finds diagnostics exactly when the database has some: a crate whose main
/// module file cannot be computed or is missing on disk, or a module with syntax,
/// semantic or lowering diagnostics.
pub proof fn lemma_found_iff_db_has_diagnostics(db: RootDatabase)
    requires
        no_missing_virtual_main_file(db),
    ensures
        db_reports(db).len() > 0 <==> db_has_diagnostics(db),
{
    lemma_crates_found(db.crates@);
}

/// A string held by either part of a join of two sequences of strings is held by the join.
proof fn lemma_contains_join(a: Seq<Seq<char>>, b: Seq<Seq<char>>, x: Seq<char>)
    ensures
        a.contains(x) || b.contains(x) ==> (a + b).contains(x),
{
    if a.contains(x) {
        let k = choose|k: int| 0 <= k < a.len() && a[k] == x;
        assert((a + b)[k] == x);
    } else if b.contains(x) {
        let k = choose|k: int| 0 <= k < b.len() && b[k] == x;
        assert((a + b)[a.len() + k] == x);
    }
}

/// One more module adds its own reports after those of the modules before it, whatever
/// those held.
pub proof fn lemma_modules_reports_push(ms: Seq<ModuleSnapshot>, m: ModuleSnapshot)
    ensures
        modules_reports(ms.push(m)) == modules_reports(ms) + module_reports(m),
{
    assert(ms.push(m).drop_last() =~= ms);
}

/// The reports of modules given one after the other are those of the first modules
/// followed by those of the next ones.
pub proof fn lemma_modules_reports_append(a: Seq<ModuleSnapshot>, b: Seq<ModuleSnapshot>)
    ensures
        modules_reports(a + b) == modules_reports(a) + modules_reports(b),
    decreases b.len(),
{
    if b.len() == 0 {
        assert(a + b =~= a);
        assert(modules_reports(a) + modules_reports(b) =~= modules_reports(a));
    } else {
        assert(a + b =~= (a + b.drop_last()).push(b.last()));
        assert(b =~= b.drop_last().push(b.last()));
        lemma_modules_reports_push(a + b.drop_last(), b.last());
        lemma_modules_reports_push(b.drop_last(), b.last());
        lemma_modules_reports_append(a, b.drop_last());
        assert(modules_reports(a + b) =~= modules_reports(a) + modules_reports(b));
    }
}

/// The reports of a sequence of modules are the reports of each module, in order, one
/// after the other.
pub proof fn lemma_modules_reports_flatten(ms: Seq<ModuleSnapshot>)
    ensures
        modules_reports(ms) == ms.map_values(|m: ModuleSnapshot| module_reports(m)).flatten(),
    decreases ms.len(),
{
    if ms.len() > 0 {
        let per = ms.map_values(|m: ModuleSnapshot| module_reports(m));
        let init = ms.drop_last().map_values(|m: ModuleSnapshot| module_reports(m));
        lemma_modules_reports_flatten(ms.drop_last());
        assert(per =~= init.push(module_reports(ms.last())));
        init.lemma_flatten_push(module_reports(ms.last()));
    } else {
        assert(ms.map_values(|m: ModuleSnapshot| module_reports(m)) =~= Seq::<Seq<Seq<char>>>::empty());
    }
}

/// One more crate adds its own reports after those of the crates before it, whatever
/// those held.
pub proof fn lemma_crates_reports_push(cs: Seq<CrateSnapshot>, c: CrateSnapshot)
    ensures
        crates_reports(cs.push(c)) == crates_reports(cs) + crate_reports(c),
{
    assert(cs.push(c).drop_last() =~= cs);
}

/// A crate whose main module file cannot be computed is reported by one failure message
/// alone; one whose main module file is on disk without content is reported missing before
/// its modules; otherwise only its modules are reported.
pub proof fn lemma_crate_reports_by_main_file(c: CrateSnapshot)
    ensures
        c.main_file is None ==> crate_reports(c) == seq!["Failed to get main module file"@],
        c.main_file is Some && c.main_file.unwrap().has_content ==> crate_reports(c)
            == modules_reports(c.modules@),
        c.main_file is Some && !c.main_file.unwrap().has_content
            && c.main_file.unwrap().file is OnDisk ==> crate_reports(c) == seq![
            c.main_file.unwrap().file->OnDisk_0@ + " not found\n"@,
        ] + modules_reports(c.modules@),
{
    if c.main_file is Some && c.main_file.unwrap().has_content {
        assert(main_file_reports(c.main_file.unwrap()) + modules_reports(c.modules@)
            =~= modules_reports(c.modules@));
    }
}

/// Each file's syntax diagnostics, when not empty, are among the reports of the files.
proof fn lemma_files_reports_contains(files: Seq<Diagnostics>, k: int)
    requires
        0 <= k < files.len(),
        files[k].count != 0,
    ensures
        files_reports(files).contains(files[k].formatted@),
    decreases files.len(),
{
    let x = files[k].formatted@;
    if k == files.len() - 1 {
        assert(stage_reports(files.last())[0] == x);
        lemma_contains_join(files_reports(files.drop_last()), stage_reports(files.last()), x);
    } else {
        assert(files.drop_last()[k] == files[k]);
        lemma_files_reports_contains(files.drop_last(), k);
        lemma_contains_join(files_reports(files.drop_last()), stage_reports(files.last()), x);
    }
}

/// What one module reports is among what a sequence of modules holding it reports.
proof fn lemma_modules_reports_contains(ms: Seq<ModuleSnapshot>, j: int, x: Seq<char>)
    requires
        0 <= j < ms.len(),
        module_reports(ms[j]).contains(x),
    ensures
        modules_reports(ms).contains(x),
    decreases ms.len(),
{
    if j < ms.len() - 1 {
        assert(ms.drop_last()[j] == ms[j]);
        lemma_modules_reports_contains(ms.drop_last(), j, x);
    }
    lemma_contains_join(modules_reports(ms.drop_last()), module_reports(ms.last()), x);
}

/// What one crate reports is among what a sequence of crates holding it reports.
proof fn lemma_crates_reports_contains(cs: Seq<CrateSnapshot>, i: int, x: Seq<char>)
    requires
        0 <= i < cs.len(),
        crate_reports(cs[i]).contains(x),
    ensures
        crates_reports(cs).contains(x),
    decreases cs.len(),
{
    if i < cs.len() - 1 {
        assert(cs.drop_last()[i] == cs[i]);
        lemma_crates_reports_contains(cs.drop_last(), i, x);
    }
    lemma_contains_join(crates_reports(cs.drop_last()), crate_reports(cs.last()), x);
}

/// Every module of a crate whose main module file is found is reported in full, whatever
/// the other modules and crates hold: the syntax diagnostics of each of its files, its
/// semantic and its lowering diagnostics, when not empty, are each among what checking
/// the database reports.
pub proof fn lemma_module_diagnostics_reported(db: RootDatabase, i: int, j: int)
    requires
        0 <= i < db.crates@.len(),
        db.crates@[i].main_file is Some,
        0 <= j < db.crates@[i].modules@.len(),
    ensures
        ({
            let m = db.crates@[i].modules@[j];
            &&& m.semantic is Some && m.semantic.unwrap().count != 0 ==> db_reports(db).contains(
                m.semantic.unwrap().formatted@,
            )
            &&& m.lowering is Some && m.lowering.unwrap().count != 0 ==> db_reports(db).contains(
                m.lowering.unwrap().formatted@,
            )
            &&& m.files is Some ==> forall|k: int|
                0 <= k < m.files.unwrap()@.len() && m.files.unwrap()@[k].count != 0
                    ==> db_reports(db).contains(#[trigger] m.files.unwrap()@[k].formatted@)
        }),
{
    let c = db.crates@[i];
    let m = c.modules@[j];
    let files = match m.files {
        Some(files) => files@,
        None => Seq::empty(),
    };
    let fr = files_reports(files);
    let sr = optional_stage_reports(m.semantic);
    let lr = optional_stage_reports(m.lowering);
    assert(module_reports(m) == fr + sr + lr);
    // Whatever the module reports, the database reports.
    assert forall|x: Seq<char>| module_reports(m).contains(x) implies #[trigger] db_reports(db).contains(x) by {
        lemma_modules_reports_contains(c.modules@, j, x);
        lemma_contains_join(main_file_reports(c.main_file.unwrap()), modules_reports(c.modules@), x);
        lemma_crates_reports_contains(db.crates@, i, x);
    }
    if m.semantic is Some && m.semantic.unwrap().count != 0 {
        let x = m.semantic.unwrap().formatted@;
        assert(sr[0] == x);
        lemma_contains_join(fr, sr, x);
        lemma_contains_join(fr + sr, lr, x);
    }
    if m.lowering is Some && m.lowering.unwrap().count != 0 {
        let x = m.lowering.unwrap().formatted@;
        assert(lr[0] == x);
        lemma_contains_join(fr + sr, lr, x);
    }
    if m.files is Some {
        assert forall|k: int|
            0 <= k < m.files.unwrap()@.len() && m.files.unwrap()@[k].count != 0
                implies db_reports(db).contains(#[trigger] m.files.unwrap()@[k].formatted@) by {
            let x = m.files.unwrap()@[k].formatted@;
            lemma_files_reports_contains(files, k);
            lemma_contains_join(fr, sr, x);
            lemma_contains_join(fr + sr, lr, x);
        }
    }
}

/// Each reported string stands, whole and in one piece, in the concatenation of the
/// reports: the text that checking into a string produces holds every diagnostic.
pub proof fn lemma_concat_holds_each(ds: Seq<Seq<char>>, k: int) -> (start: int)
    requires
        0 <= k < ds.len(),
    ensures
        0 <= start,
        start + ds[k].len() <= concat(ds).len(),
        concat(ds).subrange(start, start + ds[k].len()) == ds[k],
    decreases ds.len(),
{
    let init = concat(ds.drop_last());
    let n: int = init.len() as int;
    if k == ds.len() - 1 {
        assert(concat(ds).subrange(n, n + ds[k].len()) =~= ds[k]);
        n
    } else {
        assert(ds.drop_last()[k] == ds[k]);
        let p = lemma_concat_holds_each(ds.drop_last(), k);
        assert(concat(ds).subrange(p, p + ds[k].len()) =~= init.subrange(p, p + ds[k].len()));
        p
    }
}

impl<'a, C: DiagnosticCallback> DiagnosticsReporter<'a, C> {
    /// The diagnostics this reporter was given since it was made, in order.
    pub closed spec fn reported(&self) -> Seq<Seq<char>> {
        self.reported@
    }

    /// How this reporter presents diagnostics.
    pub closed spec fn mode(&self) -> ReporterMode {
        match self.sink {
            Sink::Ignore => ReporterMode::Ignoring,
            Sink::Callback(_) => ReporterMode::Callback,
            Sink::Text(_) => ReporterMode::Text,
        }
    }

    /// The string that a reporter in text mode appends to.
    pub closed spec fn target(&self) -> Option<&'a mut String> {
        match self.sink {
            Sink::Text(t) => Some(t),
            _ => None,
        }
    }

    /// The current content of the string that a reporter in text mode appends to.
    pub closed spec fn text(&self) -> Seq<char> {
        match self.sink {
            Sink::Text(t) => (*t)@,
            _ => Seq::empty(),
        }
    }

    /// The reporter is consistent: a callback can be handed any diagnostic, and has been
    /// handed exactly the diagnostics this reporter was given.
    pub closed spec fn wf(&self) -> bool {
        match self.sink {
            Sink::Callback(callback) => callback.ready() && callback.handed_out() == self.reported@,
            _ => true,
        }
    }

    /// In callback mode: what holds of the callback once it has been called with
    /// `diagnostic` (the postcondition of such a call); never, in the other modes.
    pub closed spec fn callback_received(&self, diagnostic: String) -> bool {
        match self.sink {
            Sink::Callback(callback) => callback.received(diagnostic),
            _ => false,
        }
    }

    /// In callback mode: the diagnostics handed to the callback so far, in order.
    pub closed spec fn handed_to_callback(&self) -> Seq<Seq<char>> {
        match self.sink {
            Sink::Callback(callback) => callback.handed_out(),
            _ => Seq::empty(),
        }
    }

    /// The callback has been called with a string whose text is `text`.
    pub open spec fn callback_received_text(&self, text: Seq<char>) -> bool {
        exists|d: String| d@ == text && #[trigger] self.callback_received(d)
    }

    /// The callback has been called with each of `texts`.
    pub open spec fn callback_received_all(&self, texts: Seq<Seq<char>>) -> bool {
        forall|i: int| 0 <= i < texts.len() ==> self.callback_received_text(#[trigger] texts[i])
    }

    /// Two reporters hold the same callback.
    pub open spec fn same_callback(&self, other: Self) -> bool {
        forall|s: String| #[trigger] self.callback_received(s) == other.callback_received(s)
    }

    /// Once a reporter in text mode is done with, the string it appended to holds what the
    /// reporter last held.
    pub broadcast proof fn lemma_resolved_text(reporter: DiagnosticsReporter<'a, C>)
        requires
            #[trigger] has_resolved(reporter),
            reporter.mode() == ReporterMode::Text,
        ensures
            reporter.target() is Some,
            (*final(reporter.target().unwrap()))@ == reporter.text(),
    {
    }

    /// Create a reporter which calls [`DiagnosticCallback::on_diagnostic`].
    fn new(callback: C) -> (reporter: Self)
        requires
            callback.ready(),
            callback.handed_out() == Seq::<Seq<char>>::empty(),
        ensures
            reporter.wf(),
            reporter.mode() == ReporterMode::Callback,
            reporter.reported() == Seq::<Seq<char>>::empty(),
            reporter.handed_to_callback() == Seq::<Seq<char>>::empty(),
            forall|s: String| #[trigger] reporter.callback_received(s) == callback.received(s),
    {
        DiagnosticsReporter { sink: Sink::Callback(callback), reported: Ghost(Seq::empty()) }
    }

    /// Hands one diagnostic to the sink.
    fn on_diagnostic(&mut self, diagnostic: String)
        requires
            old(self).wf(),
        ensures
            final(self).reported() == old(self).reported().push(diagnostic@),
            final(self).wf(),
            old(self).same_callback(*final(self)),
            old(self).mode() == ReporterMode::Callback ==> final(self).callback_received_all(seq![diagnostic@]),
            final(self).mode() == old(self).mode(),
            final(self).text() == if old(self).mode() == ReporterMode::Text {
                old(self).text() + diagnostic@
            } else {
                old(self).text()
            },
            old(self).target() is Some ==> *final(final(self).target().unwrap())
                == *final(old(self).target().unwrap()),
    {
        let ghost given = diagnostic;
        proof {
            self.reported@ = self.reported@.push(diagnostic@);
        }
        match &mut self.sink {
            Sink::Ignore => {},
            Sink::Callback(callback) => callback.on_diagnostic(diagnostic),
            Sink::Text(string) => string.append(diagnostic.as_str()),
        }
        proof {
            if old(self).mode() == ReporterMode::Callback {
                assert(self.callback_received(given));
                assert(self.callback_received_text(seq![given@][0]));
            }
        }
    }
}

impl<'a, C: DiagnosticCallback> DiagnosticsReporter<'a, C> {
    /// Reports one set of diagnostics if it is not empty; returns whether it reported.
    fn report_stage(&mut self, diagnostics: &Diagnostics) -> (found: bool)
        requires
            old(self).wf(),
        ensures
            final(self).reported() == old(self).reported() + stage_reports(*diagnostics),
            final(self).wf(),
            old(self).same_callback(*final(self)),
            old(self).mode() == ReporterMode::Callback ==> final(self).callback_received_all(stage_reports(*diagnostics)),
            found == (stage_reports(*diagnostics).len() > 0),
            final(self).mode() == old(self).mode(),
            final(self).text() == if old(self).mode() == ReporterMode::Text {
                old(self).text() + concat(stage_reports(*diagnostics))
            } else {
                old(self).text()
            },
            old(self).target() is Some ==> *final(final(self).target().unwrap())
                == *final(old(self).target().unwrap()),
    {
        if diagnostics.count != 0 {
            self.on_diagnostic(diagnostics.formatted.clone());
            proof {
                lemma_concat_push(Seq::empty(), diagnostics.formatted@);
                assert(concat(Seq::<Seq<char>>::empty()) =~= Seq::<char>::empty());
                assert(seq![diagnostics.formatted@] =~= Seq::<Seq<char>>::empty().push(diagnostics.formatted@));
            }
            true
        } else {
            proof {
                assert(old(self).reported() + stage_reports(*diagnostics) =~= old(self).reported());
            }
            false
        }
    }

    /// Reports a set of diagnostics that may not have been computed.
    fn report_optional_stage(&mut self, diagnostics: &Option<Diagnostics>) -> (found: bool)
        requires
            old(self).wf(),
        ensures
            final(self).reported() == old(self).reported() + optional_stage_reports(*diagnostics),
            final(self).wf(),
            old(self).same_callback(*final(self)),
            old(self).mode() == ReporterMode::Callback ==> final(self).callback_received_all(optional_stage_reports(*diagnostics)),
            found == (optional_stage_reports(*diagnostics).len() > 0),
            final(self).mode() == old(self).mode(),
            final(self).text() == if old(self).mode() == ReporterMode::Text {
                old(self).text() + concat(optional_stage_reports(*diagnostics))
            } else {
                old(self).text()
            },
            old(self).target() is Some ==> *final(final(self).target().unwrap())
                == *final(old(self).target().unwrap()),
    {
        match diagnostics {
            Some(d) => self.report_stage(d),
            None => {
                proof {
                    assert(old(self).reported() + optional_stage_reports(*diagnostics) =~= old(self).reported());
                    assert(old(self).text() + concat(optional_stage_reports(*diagnostics)) =~= old(self).text());
                }
                false
            },
        }
    }

    /// Reports the diagnostics of one module.
    fn report_module(&mut self, module: &ModuleSnapshot) -> (found: bool)
        requires
            old(self).wf(),
        ensures
            final(self).reported() == old(self).reported() + module_reports(*module),
            final(self).wf(),
            old(self).same_callback(*final(self)),
            old(self).mode() == ReporterMode::Callback ==> final(self).callback_received_all(module_reports(*module)),
            found == (module_reports(*module).len() > 0),
            final(self).mode() == old(self).mode(),
            final(self).text() == if old(self).mode() == ReporterMode::Text {
                old(self).text() + concat(module_reports(*module))
            } else {
                old(self).text()
            },
            old(self).target() is Some ==> *final(final(self).target().unwrap())
                == *final(old(self).target().unwrap()),
    {
        let ghost start = *self;
        let mut found = false;
        let empty: Vec<Diagnostics> = Vec::new();
        let files = match &module.files {
            Some(files) => files,
            None => &empty,
        };
        let mut i: usize = 0;
        while i < files.len()
            invariant
                0 <= i <= files@.len(),
                files@ == match module.files {
                    Some(f) => f@,
                    None => Seq::empty(),
                },
                self.reported() == start.reported() + files_reports(files@.take(i as int)),
                self.wf(),
                start.same_callback(*self),
                start.mode() == ReporterMode::Callback ==> self.callback_received_all(files_reports(files@.take(i as int))),
                found == (files_reports(files@.take(i as int)).len() > 0),
                self.mode() == start.mode(),
                self.text() == if start.mode() == ReporterMode::Text {
                    start.text() + concat(files_reports(files@.take(i as int)))
                } else {
                    start.text()
                },
                start.target() is Some ==> *final(self.target().unwrap()) == *final(
                    start.target().unwrap()),
            decreases files@.len() - i,
        {
            let ghost before = *self;
            let f = self.report_stage(&files[i]);
            found = found || f;
            proof {
                let prev = files@.take(i as int);
                let next = files@.take(i + 1);
                assert(next.drop_last() =~= prev);
                assert(files_reports(next) == files_reports(prev) + stage_reports(files@[i as int]));
                assert(self.reported() =~= start.reported() + files_reports(next));
                lemma_concat_append(files_reports(prev), stage_reports(files@[i as int]));
                if start.mode() == ReporterMode::Text {
                    assert(self.text() =~= start.text() + concat(files_reports(next)));
                }
            }
            i = i + 1;
        }
        proof {
            assert(files@.take(i as int) =~= files@);
        }
        let ghost after_files = *self;
        let s = self.report_optional_stage(&module.semantic);
        let l = self.report_optional_stage(&module.lowering);
        proof {
            let fr = files_reports(files@);
            let sr = optional_stage_reports(module.semantic);
            let lr = optional_stage_reports(module.lowering);
            assert(module_reports(*module) == fr + sr + lr);
            assert(self.reported() =~= start.reported() + (fr + sr + lr));
            lemma_concat_append(fr, sr);
            lemma_concat_append(fr + sr, lr);
            if start.mode() == ReporterMode::Text {
                assert(self.text() =~= start.text() + concat(fr + sr + lr));
            }
        }
        found || s || l
    }
}

impl<'a, C: DiagnosticCallback> DiagnosticsReporter<'a, C> {
    /// Reports the diagnostics of a crate's modules, in order.
    fn report_modules(&mut self, modules: &Vec<ModuleSnapshot>) -> (found: bool)
        requires
            old(self).wf(),
        ensures
            final(self).reported() == old(self).reported() + modules_reports(modules@),
            final(self).wf(),
            old(self).same_callback(*final(self)),
            old(self).mode() == ReporterMode::Callback ==> final(self).callback_received_all(modules_reports(modules@)),
            found == (modules_reports(modules@).len() > 0),
            final(self).mode() == old(self).mode(),
            final(self).text() == if old(self).mode() == ReporterMode::Text {
                old(self).text() + concat(modules_reports(modules@))
            } else {
                old(self).text()
            },
            old(self).target() is Some ==> *final(final(self).target().unwrap())
                == *final(old(self).target().unwrap()),
    {
        let ghost start = *self;
        let mut found = false;
        let mut i: usize = 0;
        while i < modules.len()
            invariant
                0 <= i <= modules@.len(),
                self.reported() == start.reported() + modules_reports(modules@.take(i as int)),
                self.wf(),
                start.same_callback(*self),
                start.mode() == ReporterMode::Callback ==> self.callback_received_all(modules_reports(modules@.take(i as int))),
                found == (modules_reports(modules@.take(i as int)).len() > 0),
                self.mode() == start.mode(),
                self.text() == if start.mode() == ReporterMode::Text {
                    start.text() + concat(modules_reports(modules@.take(i as int)))
                } else {
                    start.text()
                },
                start.target() is Some ==> *final(self.target().unwrap()) == *final(
                    start.target().unwrap()),
            decreases modules@.len() - i,
        {
            let f = self.report_module(&modules[i]);
            found = found || f;
            proof {
                let prev = modules@.take(i as int);
                let next = modules@.take(i + 1);
                assert(next.drop_last() =~= prev);
                assert(modules_reports(next) == modules_reports(prev) + module_reports(modules@[i as int]));
                assert(self.reported() =~= start.reported() + modules_reports(next));
                lemma_concat_append(modules_reports(prev), module_reports(modules@[i as int]));
                if start.mode() == ReporterMode::Text {
                    assert(self.text() =~= start.text() + concat(modules_reports(next)));
                }
            }
            i = i + 1;
        }
        proof {
            assert(modules@.take(i as int) =~= modules@);
        }
        found
    }

    /// Reports the diagnostics of one crate.
    fn report_crate(&mut self, krate: &CrateSnapshot) -> (found: bool)
        requires
            old(self).wf(),
            match krate.main_file {
                Some(f) => f.has_content || f.file is OnDisk,
                None => true,
            },
        ensures
            final(self).reported() == old(self).reported() + crate_reports(*krate),
            final(self).wf(),
            old(self).same_callback(*final(self)),
            old(self).mode() == ReporterMode::Callback ==> final(self).callback_received_all(crate_reports(*krate)),
            found == (crate_reports(*krate).len() > 0),
            final(self).mode() == old(self).mode(),
            final(self).text() == if old(self).mode() == ReporterMode::Text {
                old(self).text() + concat(crate_reports(*krate))
            } else {
                old(self).text()
            },
            old(self).target() is Some ==> *final(final(self).target().unwrap())
                == *final(old(self).target().unwrap()),
    {
        let ghost start = *self;
        match &krate.main_file {
            None => {
                let message = String::from_str("Failed to get main module file");
                self.on_diagnostic(message);
                proof {
                    lemma_concat_push(Seq::empty(), main_file_failure_message());
                    assert(seq![main_file_failure_message()] =~= Seq::<Seq<char>>::empty().push(main_file_failure_message()));
                    if start.mode() == ReporterMode::Text {
                        assert(self.text() =~= start.text() + concat(crate_reports(*krate)));
                    }
                }
                true
            },
            Some(main_file) => {
                let mut found = false;
                if !main_file.has_content {
                    match &main_file.file {
                        FileLongId::OnDisk(path) => {
                            let mut message = path.clone();
                            message.append(" not found\n");
                            self.on_diagnostic(message);
                            proof {
                                lemma_concat_push(Seq::empty(), not_found_message(path@));
                                assert(seq![not_found_message(path@)] =~= Seq::<Seq<char>>::empty().push(not_found_message(path@)));
                            }
                        },
                        FileLongId::Virtual(_) => {
                            proof {
                                assert(false);
                            }
                        },
                    }
                    found = true;
                } else {
                    proof {
                        assert(main_file_reports(*main_file) =~= Seq::<Seq<char>>::empty());
                    }
                }
                let ghost mid = *self;
                proof {
                    assert(mid.reported() =~= start.reported() + main_file_reports(*main_file));
                    if start.mode() == ReporterMode::Text {
                        assert(mid.text() =~= start.text() + concat(main_file_reports(*main_file)));
                    }
                }
                let m = self.report_modules(&krate.modules);
                proof {
                    let fr = main_file_reports(*main_file);
                    let mr = modules_reports(krate.modules@);
                    assert(self.reported() =~= start.reported() + (fr + mr));
                    lemma_concat_append(fr, mr);
                    if start.mode() == ReporterMode::Text {
                        assert(self.text() =~= start.text() + concat(fr + mr));
                    }
                }
                found || m
            },
        }
    }

    /// Checks if there are diagnostics and reports them to the provided callback as strings.
    /// Returns `true` if diagnostics were found.
    pub fn check(&mut self, db: &RootDatabase) -> (found: bool)
        requires
            old(self).wf(),
            no_missing_virtual_main_file(*db),
        ensures
            final(self).reported() == old(self).reported() + db_reports(*db),
            final(self).wf(),
            old(self).same_callback(*final(self)),
            old(self).mode() == ReporterMode::Callback ==> final(self).callback_received_all(db_reports(*db)),
            old(self).mode() == ReporterMode::Callback ==> final(self).handed_to_callback()
                == old(self).handed_to_callback() + db_reports(*db),
            found == (db_reports(*db).len() > 0),
            final(self).mode() == old(self).mode(),
            final(self).text() == if old(self).mode() == ReporterMode::Text {
                old(self).text() + concat(db_reports(*db))
            } else {
                old(self).text()
            },
            old(self).target() is Some ==> *final(final(self).target().unwrap())
                == *final(old(self).target().unwrap()),
    {
        let ghost start = *self;
        let mut found_diagnostics = false;
        let mut i: usize = 0;
        while i < db.crates.len()
            invariant
                0 <= i <= db.crates@.len(),
                no_missing_virtual_main_file(*db),
                self.reported() == start.reported() + crates_reports(db.crates@.take(i as int)),
                self.wf(),
                start.same_callback(*self),
                start.mode() == ReporterMode::Callback ==> self.callback_received_all(crates_reports(db.crates@.take(i as int))),
                found_diagnostics == (crates_reports(db.crates@.take(i as int)).len() > 0),
                self.mode() == start.mode(),
                self.text() == if start.mode() == ReporterMode::Text {
                    start.text() + concat(crates_reports(db.crates@.take(i as int)))
                } else {
                    start.text()
                },
                start.target() is Some ==> *final(self.target().unwrap()) == *final(
                    start.target().unwrap()),
            decreases db.crates@.len() - i,
        {
            proof {
                let c = db.crates@[i as int];
                assert(match c.main_file {
                    Some(f) => f.has_content || f.file is OnDisk,
                    None => true,
                });
            }
            let f = self.report_crate(&db.crates[i]);
            found_diagnostics = found_diagnostics || f;
            proof {
                let prev = db.crates@.take(i as int);
                let next = db.crates@.take(i + 1);
                assert(next.drop_last() =~= prev);
                assert(crates_reports(next) == crates_reports(prev) + crate_reports(db.crates@[i as int]));
                assert(self.reported() =~= start.reported() + crates_reports(next));
                lemma_concat_append(crates_reports(prev), crate_reports(db.crates@[i as int]));
                if start.mode() == ReporterMode::Text {
                    assert(self.text() =~= start.text() + concat(crates_reports(next)));
                }
            }
            i = i + 1;
        }
        proof {
            assert(db.crates@.take(i as int) =~= db.crates@);
        }
        found_diagnostics
    }

    /// Checks if there are diagnostics and reports them to the provided callback as strings.
    /// Returns `Err` if diagnostics were found.
    pub fn ensure(&mut self, db: &RootDatabase) -> (result: Result<(), DiagnosticsError>)
        requires
            old(self).wf(),
            no_missing_virtual_main_file(*db),
        ensures
            final(self).reported() == old(self).reported() + db_reports(*db),
            final(self).wf(),
            old(self).same_callback(*final(self)),
            old(self).mode() == ReporterMode::Callback ==> final(self).callback_received_all(db_reports(*db)),
            old(self).mode() == ReporterMode::Callback ==> final(self).handed_to_callback()
                == old(self).handed_to_callback() + db_reports(*db),
            result is Err <==> db_reports(*db).len() > 0,
            final(self).mode() == old(self).mode(),
            final(self).text() == if old(self).mode() == ReporterMode::Text {
                old(self).text() + concat(db_reports(*db))
            } else {
                old(self).text()
            },
            old(self).target() is Some ==> *final(final(self).target().unwrap())
                == *final(old(self).target().unwrap()),
    {
        if self.check(db) {
            Err(DiagnosticsError)
        } else {
            Ok(())
        }
    }
}

/// Returns a string with all the diagnostics in the db.
///
/// This is a shortcut for `DiagnosticsReporter::write_to_string(&mut string).check(db)`.
pub fn get_diagnostics_as_string(db: &mut RootDatabase) -> (diagnostics: String)
    requires
        no_missing_virtual_main_file(*old(db)),
    ensures
        diagnostics@ == concat(db_reports(*old(db))),
        *final(db) == *old(db),
{
    let mut diagnostics = String::new();
    DiagnosticsReporter::write_to_string(&mut diagnostics).check(db);
    diagnostics
}


/// What a reporter's callback received before, a reporter holding the same callback has
/// received too; joined with what it received since.
proof fn lemma_received_join<'a, C: DiagnosticCallback>(
    before: DiagnosticsReporter<'a, C>,
    after: DiagnosticsReporter<'a, C>,
    a: Seq<Seq<char>>,
    b: Seq<Seq<char>>,
)
    requires
        before.same_callback(after),
        before.callback_received_all(a),
        after.callback_received_all(b),
    ensures
        after.callback_received_all(a + b),
{
    assert forall|i: int| 0 <= i < (a + b).len() implies after.callback_received_text(
        #[trigger] (a + b)[i],
    ) by {
        if i < a.len() {
            assert((a + b)[i] == a[i]);
            assert(before.callback_received_text(a[i]));
            let d = choose|d: String| d@ == a[i] && #[trigger] before.callback_received(d);
            assert(after.callback_received(d));
        } else {
            assert((a + b)[i] == b[i - a.len()]);
        }
    }
}

impl<'a> DiagnosticsReporter<'a> {
    /// Create a reporter which appends all diagnostics to provided string.
    pub fn write_to_string(string: &'a mut String) -> (reporter: Self)
        ensures
            reporter.wf(),
            reporter.mode() == ReporterMode::Text,
            reporter.reported() == Seq::<Seq<char>>::empty(),
            reporter.text() == old(string)@,
            reporter.target() is Some,
            *final(reporter.target().unwrap()) == *final(string),
    {
        DiagnosticsReporter { sink: Sink::Text(string), reported: Ghost(Seq::empty()) }
    }

}

impl<'a, F: FnMut(String) + 'a> DiagnosticsReporter<'a, Func<F>> {
    /// Create a reporter which calls `callback` for each diagnostic.
    ///
    /// The callback must accept any string. The reporter hands it each diagnostic it is
    /// given, once and in order: `handed_to_callback` grows with what `check` reports, and
    /// `callback_received` holds for each such string exactly when the postcondition of
    /// calling `callback` with it holds.
    pub fn callback(callback: F) -> (reporter: Self)
        requires
            forall|s: String| call_requires(callback, (s,)),
        ensures
            reporter.wf(),
            reporter.mode() == ReporterMode::Callback,
            reporter.reported() == Seq::<Seq<char>>::empty(),
            reporter.handed_to_callback() == Seq::<Seq<char>>::empty(),
            forall|s: String| #[trigger] reporter.callback_received(s) == call_ensures(callback, (s,), ()),
    {
        let func = Func(callback, Ghost(Seq::empty()));
        proof {
            assert forall|s: String| #[trigger] func.received(s) == call_ensures(callback, (s,), ()) by {}
        }
        Self::new(func)
    }

}

impl DiagnosticsReporter<'static> {
    /// Create a reporter which does not print or collect diagnostics at all.
    pub fn ignoring() -> (reporter: Self)
        ensures
            reporter.wf(),
            reporter.mode() == ReporterMode::Ignoring,
            reporter.reported() == Seq::<Seq<char>>::empty(),
    {
        DiagnosticsReporter { sink: Sink::Ignore, reported: Ghost(Seq::empty()) }
    }
}

} // verus!
