//! Pyright's diagnostics as the editor uses them: their severities, the tags that
//! mark them in a text view, the summary line, and their grouping by file.
use vstd::prelude::*;

use crate::text::{i64_text, int_text, join_texts, join_with, string_views};

verus! {

/// How serious a diagnostic is.
#[derive(Debug, Clone, Copy, PartialEq, Eq, Structural)]
pub enum Sev {
    Error,
    Warning,
    Information,
}

/// The rank of a severity; the absence of a diagnostic ranks 0.
pub open spec fn importance_of(s: Sev) -> nat {
    match s {
        Sev::Error => 3,
        Sev::Warning => 2,
        Sev::Information => 1,
    }
}

/// The rank of an optional severity: 0 when there is none.
pub open spec fn optional_importance_of(s: Option<Sev>) -> nat {
    match s {
        Some(s) => importance_of(s),
        None => 0,
    }
}

impl Sev {
    /// The rank of this severity: errors above warnings above information.
    pub fn importance(&self) -> (r: u8)
        ensures
            r == importance_of(*self),
    {
        match self {
            Sev::Error => 3,
            Sev::Warning => 2,
            Sev::Information => 1,
        }
    }

    /// The name of the text tag that underlines a range of this severity.
    pub fn tag_name(&self) -> (s: &'static str)
        ensures
            s@ == tag_name_of(*self),
    {
        match self {
            Sev::Error => "pyright_error",
            Sev::Warning => "pyright_warning",
            Sev::Information => "pyright_information",
        }
    }
}

/// The tag name of each severity.
pub open spec fn tag_name_of(s: Sev) -> Seq<char> {
    match s {
        Sev::Error => "pyright_error"@,
        Sev::Warning => "pyright_warning"@,
        Sev::Information => "pyright_information"@,
    }
}

/// The rank of an optional severity: 0 when there is none.
pub fn optional_importance(s: &Option<Sev>) -> (r: u8)
    ensures
        r == optional_importance_of(*s),
{
    match s {
        Some(s) => s.importance(),
        None => 0,
    }
}

/// A place in a text: a line and a character within it, both from 0.
#[derive(Debug, Clone, Copy, PartialEq, Eq, Structural)]
pub struct Pos {
    pub line: u64,
    pub character: u64,
}

/// A range of a text, from `start` to `end`.
#[derive(Debug, Clone, Copy, PartialEq, Eq, Structural)]
pub struct Rng {
    pub start: Pos,
    pub end: Pos,
}

impl Rng {
    /// The key under which the text view finds the message of a range: its four
    /// coordinates cut to 32 bits, as the view counts lines and offsets.
    pub fn key(&self) -> (k: (i32, i32, i32, i32))
        ensures
            k == (self.start.line as i32, self.start.character as i32, self.end.line as i32,
                self.end.character as i32),
    {
        (
            #[verifier::truncate]
            (self.start.line as i32),
            #[verifier::truncate]
            (self.start.character as i32),
            #[verifier::truncate]
            (self.end.line as i32),
            #[verifier::truncate]
            (self.end.character as i32),
        )
    }
}

/// A diagnostic as reported for a file; the file's path is given as the list of its
/// components, each as text.
#[derive(Debug, Clone)]
pub struct FileDiagnostic {
    pub file: Vec<String>,
    pub severity: Sev,
    pub rule: Option<String>,
    pub message: String,
    pub range: Rng,
}

/// A diagnostic without its file, once it is filed under that file.
#[derive(Debug, Clone)]
pub struct AlmostDiagnostic {
    pub severity: Sev,
    pub rule: Option<String>,
    pub message: String,
    pub range: Rng,
}

/// The file of a diagnostic, as a sequence of component names.
pub open spec fn file_of(d: FileDiagnostic) -> Seq<Seq<char>> {
    string_views(d.file@)
}


/// The summary part for one kind of diagnostic: the kind's sign and the count,
/// or nothing when the count is 0.
pub open spec fn summary_part(sign: Seq<char>, count: i64) -> Seq<Seq<char>> {
    if count != 0 {
        seq![sign + int_text(count as int)]
    } else {
        Seq::empty()
    }
}

/// The parts of the summary line: errors, warnings, information, each when present.
pub open spec fn summary_parts(errors: i64, warnings: i64, information: i64) -> Seq<Seq<char>> {
    summary_part("❌ "@, errors) + summary_part("⚠️ "@, warnings) + summary_part("ℹ️ "@, information)
}

/// The summary line of a pyright run: the non-zero counts with their signs, two
/// spaces apart, or "Ok" when every count is 0.
pub open spec fn summary_text_of(errors: i64, warnings: i64, information: i64) -> Seq<char> {
    let parts = summary_parts(errors, warnings, information);
    if parts.len() == 0 {
        "Ok"@
    } else {
        join_with(parts, "  "@)
    }
}

fn push_part(parts: &mut Vec<String>, sign: &str, count: i64)
    ensures
        string_views(final(parts)@) == string_views(old(parts)@) + summary_part(sign@, count),
{
    let ghost before = string_views(parts@);
    if count != 0 {
        let mut part = String::from_str(sign);
        let digits = i64_text(count);
        part.append(digits.as_str());
        parts.push(part);
        assert(string_views(parts@) =~= before + summary_part(sign@, count));
    } else {
        assert(string_views(parts@) =~= before + summary_part(sign@, count));
    }
}

/// The summary line that the pyright panel shows after a run.
pub fn summary_text(errors: i64, warnings: i64, information: i64) -> (s: String)
    ensures
        s@ == summary_text_of(errors, warnings, information),
{
    let mut parts: Vec<String> = Vec::new();
    push_part(&mut parts, "❌ ", errors);
    push_part(&mut parts, "⚠️ ", warnings);
    push_part(&mut parts, "ℹ️ ", information);
    assert(string_views(parts@) =~= summary_parts(errors, warnings, information));
    if parts.len() == 0 {
        String::from_str("Ok")
    } else {
        join_texts(&parts, "  ")
    }
}

/// "Ok" stands exactly when every count is 0.
pub proof fn lemma_summary_ok(errors: i64, warnings: i64, information: i64)
    ensures
        (summary_parts(errors, warnings, information).len() == 0) <==> (errors == 0 && warnings == 0
            && information == 0),
{
}


/// How the summary line is built, count by count: "Ok" for a run without
/// diagnostics; a single non-zero count as its sign and its number; and each
/// further non-zero count, in the order errors, warnings, information, appended
/// after two spaces, whatever the other counts are.
pub proof fn lemma_summary_line(errors: i64, warnings: i64, information: i64)
    ensures
        summary_text_of(0, 0, 0) == "Ok"@,
        errors != 0 ==> summary_text_of(errors, 0, 0) == "❌ "@ + int_text(errors as int),
        warnings != 0 ==> summary_text_of(0, warnings, 0) == "⚠️ "@ + int_text(warnings as int),
        information != 0 ==> summary_text_of(0, 0, information) == "ℹ️ "@ + int_text(
            information as int,
        ),
        errors != 0 && warnings != 0 ==> summary_text_of(errors, warnings, 0) == summary_text_of(
            errors,
            0,
            0,
        ) + "  "@ + "⚠️ "@ + int_text(warnings as int),
        information != 0 && (errors != 0 || warnings != 0) ==> summary_text_of(
            errors,
            warnings,
            information,
        ) == summary_text_of(errors, warnings, 0) + "  "@ + "ℹ️ "@ + int_text(information as int),
{
    let e = summary_part("❌ "@, errors);
    let w = summary_part("⚠️ "@, warnings);
    let i = summary_part("ℹ️ "@, information);
    let none = Seq::<Seq<char>>::empty();
    assert(summary_parts(0, 0, 0) =~= none);
    assert(summary_parts(errors, 0, 0) =~= e);
    assert(summary_parts(0, warnings, 0) =~= w);
    assert(summary_parts(0, 0, information) =~= i);
    assert(summary_parts(errors, warnings, 0) =~= e + w);
    if errors != 0 && warnings != 0 {
        assert((e + w).drop_last() =~= e);
    }
    if information != 0 && (errors != 0 || warnings != 0) {
        assert(summary_parts(errors, warnings, information) =~= (e + w).push(i[0]));
        assert((e + w).push(i[0]).drop_last() =~= e + w);
    }
}

/// A diagnostic without its file.
pub open spec fn almost_of(d: FileDiagnostic) -> AlmostDiagnostic {
    AlmostDiagnostic { severity: d.severity, rule: d.rule, message: d.message, range: d.range }
}

fn clone_rule(rule: &Option<String>) -> (r: Option<String>)
    ensures
        r == *rule,
{
    match rule {
        Some(text) => Some(text.clone()),
        None => None,
    }
}

impl AlmostDiagnostic {
    /// The diagnostic without its file.
    pub fn from_diagnostic(d: &FileDiagnostic) -> (a: AlmostDiagnostic)
        ensures
            a == almost_of(*d),
    {
        AlmostDiagnostic {
            severity: d.severity,
            rule: clone_rule(&d.rule),
            message: d.message.clone(),
            range: d.range,
        }
    }
}

/// The diagnostics of `diags` that concern the file `k`, in order, without their file.
pub open spec fn diagnostics_for(diags: Seq<FileDiagnostic>, k: Seq<Seq<char>>) -> Seq<AlmostDiagnostic>
    decreases diags.len(),
{
    if diags.len() == 0 {
        Seq::empty()
    } else {
        let before = diagnostics_for(diags.drop_last(), k);
        if file_of(diags.last()) == k {
            before.push(almost_of(diags.last()))
        } else {
            before
        }
    }
}

/// Some diagnostic of `diags` concerns the file `k`.
pub open spec fn has_file(diags: Seq<FileDiagnostic>, k: Seq<Seq<char>>) -> bool {
    exists|i: int| 0 <= i < diags.len() && file_of(#[trigger] diags[i]) == k
}

/// The diagnostics that concern the file `k` are those of `diags` whose file is `k`,
/// in order, without their file; each of them comes from such a diagnostic.
proof fn lemma_diagnostics_for_filter(diags: Seq<FileDiagnostic>, k: Seq<Seq<char>>)
    ensures
        diagnostics_for(diags, k) == diags.filter(|d: FileDiagnostic| file_of(d) == k).map_values(
            |d: FileDiagnostic| almost_of(d),
        ),
        forall|j: int|
            0 <= j < diagnostics_for(diags, k).len() ==> exists|i: int|
                0 <= i < diags.len() && file_of(diags[i]) == k && almost_of(diags[i])
                    == #[trigger] diagnostics_for(diags, k)[j],
    decreases diags.len(),
{
    reveal(Seq::filter);
    if diags.len() > 0 {
        let init = diags.drop_last();
        lemma_diagnostics_for_filter(init, k);
        let p = |d: FileDiagnostic| file_of(d) == k;
        let f = |d: FileDiagnostic| almost_of(d);
        assert(diags.filter(p) == if p(diags.last()) {
            init.filter(p).push(diags.last())
        } else {
            init.filter(p)
        });
        if p(diags.last()) {
            assert(init.filter(p).push(diags.last()).map_values(f) =~= init.filter(p).map_values(f).push(
                almost_of(diags.last()),
            ));
        }
        assert forall|j: int| 0 <= j < diagnostics_for(diags, k).len() implies exists|i: int|
            0 <= i < diags.len() && file_of(diags[i]) == k && almost_of(diags[i])
                == #[trigger] diagnostics_for(diags, k)[j] by {
            if j < diagnostics_for(init, k).len() {
                let i = choose|i: int|
                    0 <= i < init.len() && file_of(init[i]) == k && almost_of(init[i])
                        == #[trigger] diagnostics_for(init, k)[j];
                assert(diags[i] == init[i]);
            } else {
                assert(diags[diags.len() - 1] == diags.last());
            }
        }
    }
}

/// Diagnostics are filed under their whole path: a path has a group exactly when
/// some diagnostic's file is that path, and its group holds exactly the diagnostics
/// whose file is that path, in their order, each without its file; so no diagnostic
/// is filed under another file, however alike their names.
pub proof fn lemma_grouped_by_whole_path(diags: Seq<FileDiagnostic>, k: Seq<Seq<char>>)
    ensures
        grouped(diags).contains_key(k) <==> exists|i: int| 0 <= i < diags.len() && file_of(diags[i]) == k,
        grouped(diags).contains_key(k) ==> grouped(diags)[k] == diags.filter(
            |d: FileDiagnostic| file_of(d) == k,
        ).map_values(|d: FileDiagnostic| almost_of(d)),
        grouped(diags).contains_key(k) ==> forall|j: int|
            0 <= j < grouped(diags)[k].len() ==> exists|i: int|
                0 <= i < diags.len() && file_of(diags[i]) == k && almost_of(diags[i])
                    == #[trigger] grouped(diags)[k][j],
{
    lemma_diagnostics_for_filter(diags, k);
}

/// The diagnostics filed under their files.
pub open spec fn grouped(diags: Seq<FileDiagnostic>) -> Map<Seq<Seq<char>>, Seq<AlmostDiagnostic>> {
    Map::new(|k: Seq<Seq<char>>| has_file(diags, k), |k: Seq<Seq<char>>| diagnostics_for(diags, k))
}

/// Diagnostics filed under the files they concern.
pub struct DiagnosticGroups {
    groups: Vec<(Vec<String>, Vec<AlmostDiagnostic>)>,
    filed: Ghost<Map<Seq<Seq<char>>, Seq<AlmostDiagnostic>>>,
}

impl View for DiagnosticGroups {
    type V = Map<Seq<Seq<char>>, Seq<AlmostDiagnostic>>;

    closed spec fn view(&self) -> Map<Seq<Seq<char>>, Seq<AlmostDiagnostic>> {
        self.filed@
    }
}

/// The groups list each file of the map once, with its diagnostics.
spec fn groups_match(
    gs: Seq<(Vec<String>, Vec<AlmostDiagnostic>)>,
    m: Map<Seq<Seq<char>>, Seq<AlmostDiagnostic>>,
) -> bool {
    &&& forall|i: int, j: int|
        0 <= i < gs.len() && 0 <= j < gs.len() && i != j ==> string_views(#[trigger] gs[i].0@)
            != string_views(#[trigger] gs[j].0@)
    &&& forall|i: int|
        0 <= i < gs.len() ==> m.contains_key(string_views(#[trigger] gs[i].0@)) && m[string_views(
            gs[i].0@,
        )] == gs[i].1@
    &&& forall|k: Seq<Seq<char>>|
        m.contains_key(k) ==> exists|i: int| 0 <= i < gs.len() && string_views(#[trigger] gs[i].0@) == k
}

fn same_path(a: &Vec<String>, b: &Vec<String>) -> (r: bool)
    ensures
        r == (string_views(a@) == string_views(b@)),
{
    if a.len() != b.len() {
        assert(string_views(a@).len() != string_views(b@).len());
        return false;
    }
    let mut j: usize = 0;
    while j < a.len()
        invariant
            a.len() == b.len(),
            j <= a.len(),
            forall|q: int| 0 <= q < j ==> a@[q]@ == b@[q]@,
        decreases a.len() - j,
    {
        if a[j] != b[j] {
            assert(string_views(a@)[j as int] != string_views(b@)[j as int]);
            return false;
        }
        j = j + 1;
    }
    assert(string_views(a@) =~= string_views(b@));
    true
}

impl DiagnosticGroups {
    #[verifier::type_invariant]
    closed spec fn wf(self) -> bool {
        groups_match(self.groups@, self.filed@)
    }

    /// The diagnostics of a file, when it has any.
    pub fn get(&self, path: &Vec<String>) -> (r: Option<&Vec<AlmostDiagnostic>>)
        ensures
            match r {
                Some(list) => self@.contains_key(string_views(path@)) && list@ == self@[string_views(
                    path@,
                )],
                None => !self@.contains_key(string_views(path@)),
            },
    {
        proof {
            use_type_invariant(self);
        }
        let mut i: usize = 0;
        while i < self.groups.len()
            invariant
                groups_match(self.groups@, self.filed@),
                i <= self.groups.len(),
                forall|q: int| 0 <= q < i ==> string_views(#[trigger] self.groups@[q].0@) != string_views(path@),
            decreases self.groups.len() - i,
        {
            if same_path(&self.groups[i].0, path) {
                return Some(&self.groups[i].1);
            }
            i = i + 1;
        }
        None
    }
}

/// Files the diagnostics under the files they concern, each file's diagnostics in
/// the order in which they come.
pub fn group_by_file(diags: &Vec<FileDiagnostic>) -> (g: DiagnosticGroups)
    ensures
        g@ == grouped(diags@),
{
    // the files, each once, in the order of their first diagnostic
    let mut files: Vec<Vec<String>> = Vec::new();
    let mut i: usize = 0;
    while i < diags.len()
        invariant
            i <= diags.len(),
            forall|a: int, b: int|
                0 <= a < files.len() && 0 <= b < files.len() && a != b ==> string_views(
                    #[trigger] files@[a]@,
                ) != string_views(#[trigger] files@[b]@),
            forall|a: int| 0 <= a < files.len() ==> has_file(diags@, string_views(#[trigger] files@[a]@)),
            forall|q: int|
                #![trigger diags@[q]]
                0 <= q < i ==> exists|a: int|
                    0 <= a < files.len() && string_views(#[trigger] files@[a]@) == file_of(diags@[q]),
        decreases diags.len() - i,
    {
        let mut found = false;
        let mut j: usize = 0;
        while j < files.len()
            invariant
                i < diags.len(),
                j <= files.len(),
                found ==> exists|a: int|
                    0 <= a < files.len() && string_views(#[trigger] files@[a]@) == file_of(diags@[i as int]),
                !found ==> forall|a: int|
                    0 <= a < j ==> string_views(#[trigger] files@[a]@) != file_of(diags@[i as int]),
            decreases files.len() - j,
        {
            if same_path(&files[j], &diags[i].file) {
                found = true;
            }
            j = j + 1;
        }
        if !found {
            let ghost before = files@;
            let mut copy: Vec<String> = Vec::new();
            let mut q: usize = 0;
            while q < diags[i].file.len()
                invariant
                    i < diags.len(),
                    q <= diags@[i as int].file.len(),
                    copy.len() == q,
                    forall|r: int| 0 <= r < q ==> copy@[r]@ == diags@[i as int].file@[r]@,
                decreases diags@[i as int].file.len() - q,
            {
                copy.push(diags[i].file[q].clone());
                q = q + 1;
            }
            assert(string_views(copy@) =~= file_of(diags@[i as int]));
            files.push(copy);
            assert forall|a: int| 0 <= a < files.len() implies has_file(
                diags@,
                string_views(#[trigger] files@[a]@),
            ) by {
                if a < before.len() {
                    assert(files@[a] == before[a]);
                }
            }
            assert forall|p: int|
                #![trigger diags@[p]]
                0 <= p < i + 1 implies exists|a: int|
                0 <= a < files.len() && string_views(#[trigger] files@[a]@) == file_of(diags@[p]) by {
                if p < i {
                    let a = choose|a: int|
                        0 <= a < before.len() && string_views(#[trigger] before[a]@) == file_of(diags@[p]);
                    assert(files@[a] == before[a]);
                } else {
                    assert(string_views(files@[before.len() as int]@) == file_of(diags@[p]));
                }
            }
        }
        i = i + 1;
    }
    // each file with its diagnostics
    let mut groups: Vec<(Vec<String>, Vec<AlmostDiagnostic>)> = Vec::new();
    let mut a: usize = 0;
    while a < files.len()
        invariant
            a <= files.len(),
            groups.len() == a,
            forall|x: int, y: int|
                0 <= x < files.len() && 0 <= y < files.len() && x != y ==> string_views(
                    #[trigger] files@[x]@,
                ) != string_views(#[trigger] files@[y]@),
            forall|x: int|
                0 <= x < a ==> string_views(#[trigger] groups@[x].0@) == string_views(files@[x]@)
                    && groups@[x].1@ == diagnostics_for(diags@, string_views(files@[x]@)),
        decreases files.len() - a,
    {
        let ghost key = string_views(files@[a as int]@);
        let mut list: Vec<AlmostDiagnostic> = Vec::new();
        let mut k: usize = 0;
        while k < diags.len()
            invariant
                a < files.len(),
                key == string_views(files@[a as int]@),
                k <= diags.len(),
                list@ == diagnostics_for(diags@.take(k as int), key),
            decreases diags.len() - k,
        {
            assert(diags@.take(k + 1).drop_last() =~= diags@.take(k as int));
            if same_path(&diags[k].file, &files[a]) {
                list.push(AlmostDiagnostic::from_diagnostic(&diags[k]));
            }
            k = k + 1;
        }
        assert(diags@.take(k as int) =~= diags@);
        let file = files[a].clone();
        groups.push((file, list));
        a = a + 1;
    }
    let ghost filed = grouped(diags@);
    assert(groups_match(groups@, filed)) by {
        assert forall|k: Seq<Seq<char>>| filed.contains_key(k) implies exists|x: int|
            0 <= x < groups.len() && string_views(#[trigger] groups@[x].0@) == k by {
            let q = choose|q: int| 0 <= q < diags.len() && file_of(#[trigger] diags@[q]) == k;
            let x = choose|x: int|
                0 <= x < files.len() && string_views(#[trigger] files@[x]@) == file_of(diags@[q]);
            assert(string_views(groups@[x].0@) == k);
        }
    }
    DiagnosticGroups { groups, filed: Ghost(filed) }
}

} // verus!
