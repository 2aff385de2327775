//! Which files and directories of the project tree carry a diagnostic mark, and
//! which one: the most serious diagnostic found in the file or below the directory.
use vstd::prelude::*;

use crate::diagnostics::{file_of, importance_of, FileDiagnostic};
use crate::text::{chars_of, string_views};

verus! {

/// Character order of two names: lexicographic by code point, a proper prefix first.
/// For UTF-8 names this is the byte order in which paths compare their names.
pub open spec fn name_lt(a: Seq<char>, b: Seq<char>) -> bool
    decreases a.len(),
{
    if b.len() == 0 {
        false
    } else if a.len() == 0 {
        true
    } else if a[0] != b[0] {
        (a[0] as int) < (b[0] as int)
    } else {
        name_lt(a.drop_first(), b.drop_first())
    }
}

/// The component that stands for the root directory.
pub open spec fn is_root_component(c: Seq<char>) -> bool {
    c == seq!['/']
}

/// A path names the root directory at most as its first component, as every path
/// split into its components does.
pub open spec fn root_only_first(f: Seq<Seq<char>>) -> bool {
    forall|m: int| 0 < m < f.len() ==> !is_root_component(#[trigger] f[m])
}

/// The kind of a component, in the order in which paths sort them: the root
/// directory, then ".", then "..", then names.
pub open spec fn component_rank(c: Seq<char>) -> nat {
    if c == seq!['/'] {
        1
    } else if c == seq!['.'] {
        2
    } else if c == seq!['.', '.'] {
        3
    } else {
        4
    }
}

/// Order of two components: by kind, two names by `name_lt`.
pub open spec fn component_lt(a: Seq<char>, b: Seq<char>) -> bool {
    if component_rank(a) != component_rank(b) {
        component_rank(a) < component_rank(b)
    } else {
        name_lt(a, b)
    }
}

/// Order of two paths given as lists of components, compared component by
/// component, a proper prefix first.
pub open spec fn path_lt(a: Seq<Seq<char>>, b: Seq<Seq<char>>) -> bool
    decreases a.len(),
{
    if b.len() == 0 {
        false
    } else if a.len() == 0 {
        true
    } else if a[0] != b[0] {
        component_lt(a[0], b[0])
    } else {
        path_lt(a.drop_first(), b.drop_first())
    }
}

/// Walking up from the file `f`, the ancestor with `len` components gets the file's
/// mark. A path has a parent unless it ends in the root directory; the walk marks
/// the parent of `f`, and goes on from a marked ancestor to its parent only while
/// that one sorts after `root`.
pub open spec fn walk_reaches(f: Seq<Seq<char>>, len: nat, root: Seq<Seq<char>>) -> bool
    decreases f.len() - len,
{
    if len + 1 == f.len() {
        !is_root_component(f[len as int])
    } else if len + 1 < f.len() {
        walk_reaches(f, len + 1, root) && !is_root_component(f[len as int]) && path_lt(
            root,
            f.take(len as int),
        )
    } else {
        false
    }
}

/// The path `k` gets the mark of diagnostic `d`: it is the file of `d`, or an ancestor
/// of it that the walk up from the file reaches.
pub open spec fn touches(d: FileDiagnostic, root: Seq<Seq<char>>, k: Seq<Seq<char>>) -> bool {
    let f = file_of(d);
    ||| k == f
    ||| k.len() < f.len() && f.take(k.len() as int) == k && walk_reaches(f, k.len(), root)
}

/// Some diagnostic of `diags` marks `k`.
pub open spec fn touched_by_any(diags: Seq<FileDiagnostic>, root: Seq<Seq<char>>, k: Seq<Seq<char>>) -> bool
    decreases diags.len(),
{
    if diags.len() == 0 {
        false
    } else {
        touched_by_any(diags.drop_last(), root, k) || touches(diags.last(), root, k)
    }
}

/// The mark of `k`: the highest importance among the diagnostics that mark it.
pub open spec fn status_value(diags: Seq<FileDiagnostic>, root: Seq<Seq<char>>, k: Seq<Seq<char>>) -> nat
    decreases diags.len(),
{
    if diags.len() == 0 {
        0
    } else {
        let before = status_value(diags.drop_last(), root, k);
        let here: nat = if touches(diags.last(), root, k) {
            importance_of(diags.last().severity)
        } else {
            0
        };
        if before >= here {
            before
        } else {
            here
        }
    }
}

/// The marked paths, each with its mark.
pub open spec fn status_map(diags: Seq<FileDiagnostic>, root: Seq<Seq<char>>) -> Map<
    Seq<Seq<char>>,
    nat,
> {
    Map::new(|k: Seq<Seq<char>>| touched_by_any(diags, root, k), |k: Seq<Seq<char>>| status_value(diags, root, k))
}

/// How many components a file lies below the root; 0 for a file outside it.
pub open spec fn depth_below(root: Seq<Seq<char>>, f: Seq<Seq<char>>) -> nat {
    if root.len() <= f.len() && f.take(root.len() as int) == root {
        (f.len() - root.len()) as nat
    } else {
        0
    }
}

/// The deepest level below the root that a diagnosed file lies at.
pub open spec fn max_depth_of(diags: Seq<FileDiagnostic>, root: Seq<Seq<char>>) -> nat
    decreases diags.len(),
{
    if diags.len() == 0 {
        0
    } else {
        let before = max_depth_of(diags.drop_last(), root);
        let here = depth_below(root, file_of(diags.last()));
        if before >= here {
            before
        } else {
            here
        }
    }
}

/// The path that an entry stands for.
spec fn key_of(e: (Vec<String>, u8)) -> Seq<Seq<char>> {
    string_views(e.0@)
}

/// The entries list each path of the map once, with its value.
spec fn entries_match(es: Seq<(Vec<String>, u8)>, m: Map<Seq<Seq<char>>, nat>) -> bool {
    &&& forall|i: int, j: int|
        0 <= i < es.len() && 0 <= j < es.len() && i != j ==> key_of(#[trigger] es[i]) != key_of(
            #[trigger] es[j],
        )
    &&& forall|i: int|
        0 <= i < es.len() ==> m.contains_key(key_of(#[trigger] es[i])) && m[key_of(es[i])]
            == es[i].1 as nat
    &&& forall|k: Seq<Seq<char>>|
        m.contains_key(k) ==> exists|i: int| 0 <= i < es.len() && key_of(#[trigger] es[i]) == k
}

/// The map with the value at `k` raised to at least `v`.
spec fn raise(m: Map<Seq<Seq<char>>, nat>, k: Seq<Seq<char>>, v: nat) -> Map<
    Seq<Seq<char>>,
    nat,
> {
    let old_v: nat = if m.contains_key(k) {
        m[k]
    } else {
        0
    };
    m.insert(k, if old_v >= v { old_v } else { v })
}

/// The marks of the files and directories of a project tree.
pub struct DiagnosticStatus {
    entries: Vec<(Vec<String>, u8)>,
    max_depth: usize,
    marks: Ghost<Map<Seq<Seq<char>>, nat>>,
}

impl View for DiagnosticStatus {
    type V = Map<Seq<Seq<char>>, nat>;

    closed spec fn view(&self) -> Map<Seq<Seq<char>>, nat> {
        self.marks@
    }
}

impl DiagnosticStatus {
    #[verifier::type_invariant]
    closed spec fn wf(self) -> bool {
        entries_match(self.entries@, self.marks@)
    }

    /// How deep below the root the walk over the tree has to go.
    pub closed spec fn depth(&self) -> nat {
        self.max_depth as nat
    }

    /// The deepest level below the root that a diagnosed file lies at.
    pub fn max_depth(&self) -> (d: usize)
        ensures
            d == self.depth(),
    {
        self.max_depth
    }

    /// The mark of a path: 0 when nothing marks it.
    pub fn importance_at(&self, path: &Vec<String>) -> (r: u8)
        ensures
            r == (if self@.contains_key(string_views(path@)) {
                self@[string_views(path@)]
            } else {
                0
            }),
    {
        proof {
            use_type_invariant(self);
            assert(string_views(path@).take(path.len() as int) =~= string_views(path@));
        }
        match find_prefix(&self.entries, path, path.len()) {
            Some(i) => self.entries[i].1,
            None => 0,
        }
    }
}

/// Component names compared as `name_lt` says.
fn name_less(a: &String, b: &String) -> (r: bool)
    ensures
        r == name_lt(a@, b@),
{
    let ac = chars_of(a.as_str());
    let bc = chars_of(b.as_str());
    let mut j: usize = 0;
    assert(a@.skip(0) =~= a@);
    assert(b@.skip(0) =~= b@);
    while j < bc.len()
        invariant
            ac@ == a@,
            bc@ == b@,
            j <= bc.len(),
            j <= ac.len(),
            ac@.take(j as int) == bc@.take(j as int),
            name_lt(a@, b@) == name_lt(a@.skip(j as int), b@.skip(j as int)),
        decreases bc.len() - j,
    {
        let ghost sa = a@.skip(j as int);
        let ghost sb = b@.skip(j as int);
        if j == ac.len() {
            return true;
        }
        if ac[j] != bc[j] {
            return ac[j] < bc[j];
        }
        assert(sa.drop_first() =~= a@.skip(j + 1));
        assert(sb.drop_first() =~= b@.skip(j + 1));
        assert(ac@.take(j + 1) =~= ac@.take(j as int).push(ac@[j as int]));
        assert(bc@.take(j + 1) =~= bc@.take(j as int).push(bc@[j as int]));
        j = j + 1;
    }
    false
}

/// The kind of a component, as `component_rank` numbers it.
fn component_rank_of(c: &String) -> (r: u8)
    ensures
        r == component_rank(c@),
{
    let cs = chars_of(c.as_str());
    if cs.len() == 1 && cs[0] == '/' {
        assert(c@ =~= seq!['/']);
        1
    } else if cs.len() == 1 && cs[0] == '.' {
        assert(c@ =~= seq!['.']);
        2
    } else if cs.len() == 2 && cs[0] == '.' && cs[1] == '.' {
        assert(c@ =~= seq!['.', '.']);
        3
    } else {
        assert(c@ != seq!['/']) by {
            if c@ == seq!['/'] {
                assert(seq!['/'][0] == '/');
            }
        }
        assert(c@ != seq!['.']) by {
            if c@ == seq!['.'] {
                assert(seq!['.'][0] == '.');
            }
        }
        assert(c@ != seq!['.', '.']) by {
            if c@ == seq!['.', '.'] {
                assert(seq!['.', '.'][0] == '.');
                assert(seq!['.', '.'][1] == '.');
            }
        }
        4
    }
}

/// Components compared as `component_lt` says.
fn component_less(a: &String, b: &String) -> (r: bool)
    ensures
        r == component_lt(a@, b@),
{
    let ra = component_rank_of(a);
    let rb = component_rank_of(b);
    if ra != rb {
        ra < rb
    } else {
        name_less(a, b)
    }
}

/// Whether `path_lt(a, b.take(blen))` holds.
fn path_less_than_prefix(a: &Vec<String>, b: &Vec<String>, blen: usize) -> (r: bool)
    requires
        blen <= b.len(),
    ensures
        r == path_lt(string_views(a@), string_views(b@).take(blen as int)),
{
    let ghost av = string_views(a@);
    let ghost bv = string_views(b@).take(blen as int);
    let mut j: usize = 0;
    assert(av.skip(0) =~= av);
    assert(bv.skip(0) =~= bv);
    while j < blen
        invariant
            blen <= b.len(),
            av == string_views(a@),
            bv == string_views(b@).take(blen as int),
            j <= blen,
            j <= a.len(),
            path_lt(av, bv) == path_lt(av.skip(j as int), bv.skip(j as int)),
        decreases blen - j,
    {
        let ghost sa = av.skip(j as int);
        let ghost sb = bv.skip(j as int);
        if j == a.len() {
            return true;
        }
        assert(sa[0] == a@[j as int]@);
        assert(sb[0] == b@[j as int]@);
        if a[j] != b[j] {
            return component_less(&a[j], &b[j]);
        }
        assert(sa.drop_first() =~= av.skip(j + 1));
        assert(sb.drop_first() =~= bv.skip(j + 1));
        j = j + 1;
    }
    false
}

/// The index of the entry whose path is the first `len` components of `path`.
fn find_prefix(entries: &Vec<(Vec<String>, u8)>, path: &Vec<String>, len: usize) -> (r: Option<
    usize,
>)
    requires
        len <= path.len(),
    ensures
        match r {
            Some(i) => i < entries.len() && key_of(entries@[i as int]) == string_views(path@).take(
                len as int,
            ),
            None => forall|i: int|
                0 <= i < entries.len() ==> key_of(#[trigger] entries@[i]) != string_views(
                    path@,
                ).take(len as int),
        },
{
    let ghost want = string_views(path@).take(len as int);
    let mut i: usize = 0;
    while i < entries.len()
        invariant
            len <= path.len(),
            want == string_views(path@).take(len as int),
            i <= entries.len(),
            forall|m: int| 0 <= m < i ==> key_of(#[trigger] entries@[m]) != want,
        decreases entries.len() - i,
    {
        let key = &entries[i].0;
        if key.len() == len {
            let mut j: usize = 0;
            let mut same = true;
            while j < len
                invariant
                    len <= path.len(),
                    key.len() == len,
                    j <= len,
                    same ==> forall|q: int| 0 <= q < j ==> key@[q]@ == path@[q]@,
                    !same ==> exists|q: int| 0 <= q < len && key@[q]@ != path@[q]@,
                decreases len - j,
            {
                if key[j] != path[j] {
                    same = false;
                }
                j = j + 1;
            }
            if same {
                assert(key_of(entries@[i as int]) =~= want);
                return Some(i);
            }
            proof {
                let q = choose|q: int| 0 <= q < len && key@[q]@ != path@[q]@;
                assert(key_of(entries@[i as int])[q] != want[q]);
            }
        } else {
            assert(key_of(entries@[i as int]).len() != want.len());
        }
        i = i + 1;
    }
    None
}

/// The first `len` components of `path`, as a vector of its own.
fn prefix_of(path: &Vec<String>, len: usize) -> (p: Vec<String>)
    requires
        len <= path.len(),
    ensures
        string_views(p@) == string_views(path@).take(len as int),
{
    let mut p: Vec<String> = Vec::new();
    let mut j: usize = 0;
    while j < len
        invariant
            len <= path.len(),
            j <= len,
            p.len() == j,
            forall|q: int| 0 <= q < j ==> p@[q]@ == path@[q]@,
        decreases len - j,
    {
        p.push(path[j].clone());
        j = j + 1;
    }
    assert(string_views(p@) =~= string_views(path@).take(len as int));
    p
}

/// Raises the value stored for the first `len` components of `path` to at least `v`,
/// adding the path when it is missing.
fn raise_entry(
    entries: &mut Vec<(Vec<String>, u8)>,
    path: &Vec<String>,
    len: usize,
    v: u8,
    Ghost(m): Ghost<Map<Seq<Seq<char>>, nat>>,
) -> (m2: Ghost<Map<Seq<Seq<char>>, nat>>)
    requires
        len <= path.len(),
        entries_match(old(entries)@, m),
    ensures
        entries_match(final(entries)@, m2@),
        m2@ == raise(m, string_views(path@).take(len as int), v as nat),
{
    let ghost k = string_views(path@).take(len as int);
    let ghost m_new = raise(m, k, v as nat);
    match find_prefix(entries, path, len) {
        Some(i) => {
            let old_v = entries[i].1;
            let new_v = if old_v >= v { old_v } else { v };
            let key = prefix_of(path, len);
            let ghost before = entries@;
            entries.set(i, (key, new_v));
            assert forall|a: int, b: int|
                0 <= a < entries@.len() && 0 <= b < entries@.len() && a != b implies key_of(
                #[trigger] entries@[a],
            ) != key_of(#[trigger] entries@[b]) by {
                if a != i && b != i {
                    assert(key_of(entries@[a]) == key_of(before[a]));
                    assert(key_of(entries@[b]) == key_of(before[b]));
                } else if a == i {
                    assert(key_of(before[b]) != key_of(before[a]));
                } else {
                    assert(key_of(before[a]) != key_of(before[b]));
                }
            }
            assert forall|a: int| 0 <= a < entries@.len() implies m_new.contains_key(
                key_of(#[trigger] entries@[a]),
            ) && m_new[key_of(entries@[a])] == entries@[a].1 as nat by {
                if a != i {
                    assert(key_of(before[a]) != key_of(before[i as int]));
                }
            }
            assert forall|q: Seq<Seq<char>>| m_new.contains_key(q) implies exists|a: int|
                0 <= a < entries@.len() && key_of(#[trigger] entries@[a]) == q by {
                if q == k {
                    assert(key_of(entries@[i as int]) == q);
                } else {
                    let a = choose|a: int| 0 <= a < before.len() && key_of(#[trigger] before[a]) == q;
                    assert(key_of(entries@[a]) == q);
                }
            }
        },
        None => {
            let key = prefix_of(path, len);
            let ghost before = entries@;
            entries.push((key, v));
            assert(!m.contains_key(k));
            assert forall|a: int, b: int|
                0 <= a < entries@.len() && 0 <= b < entries@.len() && a != b implies key_of(
                #[trigger] entries@[a],
            ) != key_of(#[trigger] entries@[b]) by {
                if a < before.len() && b < before.len() {
                    assert(entries@[a] == before[a]);
                    assert(entries@[b] == before[b]);
                } else if a < before.len() {
                    assert(entries@[a] == before[a]);
                } else {
                    assert(entries@[b] == before[b]);
                }
            }
            assert forall|a: int| 0 <= a < entries@.len() implies m_new.contains_key(
                key_of(#[trigger] entries@[a]),
            ) && m_new[key_of(entries@[a])] == entries@[a].1 as nat by {
                if a < before.len() {
                    assert(entries@[a] == before[a]);
                }
            }
            assert forall|q: Seq<Seq<char>>| m_new.contains_key(q) implies exists|a: int|
                0 <= a < entries@.len() && key_of(#[trigger] entries@[a]) == q by {
                if q == k {
                    assert(key_of(entries@[before.len() as int]) == q);
                } else {
                    let a = choose|a: int| 0 <= a < before.len() && key_of(#[trigger] before[a]) == q;
                    assert(entries@[a] == before[a]);
                }
            }
        },
    }
    Ghost(m_new)
}


/// `k` gets the mark of `d` from the file itself, or from the part of the walk up
/// that has reached no ancestor shorter than `lo` components.
spec fn walk_touches(d: FileDiagnostic, root: Seq<Seq<char>>, k: Seq<Seq<char>>, lo: nat) -> bool {
    let f = file_of(d);
    ||| k == f
    ||| lo <= k.len() && k.len() < f.len() && f.take(k.len() as int) == k && walk_reaches(
        f,
        k.len(),
        root,
    )
}

/// The marks `m` with the mark of `d` added where `walk_touches` says.
spec fn raise_where(m: Map<Seq<Seq<char>>, nat>, d: FileDiagnostic, root: Seq<Seq<char>>, lo: nat) -> Map<
    Seq<Seq<char>>,
    nat,
> {
    Map::new(
        |k: Seq<Seq<char>>| m.contains_key(k) || walk_touches(d, root, k, lo),
        |k: Seq<Seq<char>>|
            if walk_touches(d, root, k, lo) {
                let old_v: nat = if m.contains_key(k) {
                    m[k]
                } else {
                    0
                };
                if old_v >= importance_of(d.severity) {
                    old_v
                } else {
                    importance_of(d.severity)
                }
            } else {
                m[k]
            },
    )
}

/// Once the walk meets a path that ends in the root directory, or an ancestor that
/// sorts at or before the root, it reaches nothing above.
proof fn lemma_walk_stops(f: Seq<Seq<char>>, root: Seq<Seq<char>>, stop: nat, n: nat)
    requires
        stop < f.len(),
        is_root_component(f[stop as int]) || (stop + 1 < f.len() && !path_lt(
            root,
            f.take(stop as int),
        )),
        n <= stop,
    ensures
        !walk_reaches(f, n, root),
    decreases stop - n,
{
    if n < stop {
        lemma_walk_stops(f, root, stop, n + 1);
    }
}

/// A path that no diagnostic marks has the mark 0.
proof fn lemma_unmarked_is_zero(diags: Seq<FileDiagnostic>, root: Seq<Seq<char>>, k: Seq<Seq<char>>)
    requires
        !touched_by_any(diags, root, k),
    ensures
        status_value(diags, root, k) == 0,
    decreases diags.len(),
{
    if diags.len() > 0 {
        lemma_unmarked_is_zero(diags.drop_last(), root, k);
    }
}

/// Adding one more diagnostic raises the marks of the paths that it marks.
proof fn lemma_status_step(diags: Seq<FileDiagnostic>, root: Seq<Seq<char>>, n: int)
    requires
        0 <= n < diags.len(),
    ensures
        status_map(diags.take(n + 1), root) == raise_where(status_map(diags.take(n), root), diags[n], root, 0),
{
    let before = diags.take(n);
    let after = diags.take(n + 1);
    assert(after.drop_last() =~= before);
    assert forall|k: Seq<Seq<char>>| !touched_by_any(before, root, k) implies status_value(before, root, k) == 0 by {
        lemma_unmarked_is_zero(before, root, k);
    }
    assert(status_map(after, root) =~= raise_where(status_map(before, root), diags[n], root, 0));
}

/// Whether the path `f` starts with the components of `root`.
fn starts_with(f: &Vec<String>, root: &Vec<String>) -> (b: bool)
    ensures
        b == (root.len() <= f.len() && string_views(f@).take(root.len() as int) == string_views(
            root@,
        )),
{
    if root.len() > f.len() {
        return false;
    }
    let mut j: usize = 0;
    while j < root.len()
        invariant
            root.len() <= f.len(),
            j <= root.len(),
            forall|q: int| 0 <= q < j ==> f@[q]@ == root@[q]@,
        decreases root.len() - j,
    {
        if f[j] != root[j] {
            assert(string_views(f@).take(root.len() as int)[j as int] != string_views(root@)[j as int]);
            return false;
        }
        j = j + 1;
    }
    assert(string_views(f@).take(root.len() as int) =~= string_views(root@));
    true
}

/// The marks that pyright's diagnostics give to the project tree below `root`, and
/// how deep the tree has to be walked to show them. Each diagnosed file is marked,
/// and so is each directory that the walk up from the file reaches (see
/// `walk_reaches`); the mark of a path is the highest importance among the
/// diagnostics that mark it.
pub fn diagnostic_status(diags: &Vec<FileDiagnostic>, root: &Vec<String>) -> (s: DiagnosticStatus)
    ensures
        s@ == status_map(diags@, string_views(root@)),
        s.depth() == max_depth_of(diags@, string_views(root@)),
{
    let ghost rootv = string_views(root@);
    let mut entries: Vec<(Vec<String>, u8)> = Vec::new();
    let mut marks: Ghost<Map<Seq<Seq<char>>, nat>> = Ghost(Map::empty());
    let mut max_depth: usize = 0;
    let mut i: usize = 0;
    assert(status_map(diags@.take(0), rootv) =~= Map::empty());
    while i < diags.len()
        invariant
            i <= diags.len(),
            rootv == string_views(root@),
            entries_match(entries@, marks@),
            marks@ == status_map(diags@.take(i as int), rootv),
            max_depth == max_depth_of(diags@.take(i as int), rootv),
        decreases diags.len() - i,
    {
        let d = &diags[i];
        let f = &d.file;
        let v = d.severity.importance();
        let ghost m0 = marks@;
        let ghost fv = string_views(f@);
        assert(fv.take(f.len() as int) =~= fv);
        marks = raise_entry(&mut entries, f, f.len(), v, marks);
        assert(marks@ =~= raise_where(m0, *d, rootv, f.len() as nat));
        // a path has a parent unless it is empty or ends in the root directory
        if f.len() > 0 && component_rank_of(&f[f.len() - 1]) != 1 {
            let mut level: usize = f.len() - 1;
            marks = raise_entry(&mut entries, f, level, v, marks);
            assert(marks@ =~= raise_where(m0, *d, rootv, level as nat));
            while level > 0
                invariant
                    entries_match(entries@, marks@),
                    fv == string_views(f@),
                    fv == file_of(*d),
                    rootv == string_views(root@),
                    v == importance_of(d.severity),
                    level < f.len(),
                    walk_reaches(fv, level as nat, rootv),
                    marks@ == raise_where(m0, *d, rootv, level as nat),
                ensures
                    entries_match(entries@, marks@),
                    marks@ == raise_where(m0, *d, rootv, 0),
                decreases level,
            {
                // stop where the ancestor has no parent, or where its parent sorts
                // at or before the root
                if component_rank_of(&f[level - 1]) == 1 || !path_less_than_prefix(root, f, level - 1) {
                    proof {
                        assert forall|n: nat| n < level implies !walk_reaches(fv, n, rootv) by {
                            lemma_walk_stops(fv, rootv, (level - 1) as nat, n);
                        }
                        assert(raise_where(m0, *d, rootv, level as nat) =~= raise_where(m0, *d, rootv, 0));
                    }
                    break;
                }
                marks = raise_entry(&mut entries, f, level - 1, v, marks);
                level = level - 1;
                assert(walk_reaches(fv, level as nat, rootv));
                assert(marks@ =~= raise_where(m0, *d, rootv, level as nat));
                if level == 0 {
                    assert(marks@ =~= raise_where(m0, *d, rootv, 0));
                }
            }
        } else {
            proof {
                if f.len() > 0 {
                    assert forall|n: nat| n < f.len() implies !walk_reaches(fv, n, rootv) by {
                        lemma_walk_stops(fv, rootv, (f.len() - 1) as nat, n);
                    }
                }
            }
            assert(marks@ =~= raise_where(m0, *d, rootv, 0));
        }
        proof {
            lemma_status_step(diags@, rootv, i as int);
        }
        let here: usize = if starts_with(f, root) { f.len() - root.len() } else { 0 };
        assert(diags@.take(i + 1).drop_last() =~= diags@.take(i as int));
        if here > max_depth {
            max_depth = here;
        }
        i = i + 1;
    }
    assert(diags@.take(i as int) =~= diags@);
    DiagnosticStatus { entries, max_depth, marks }
}


/// A path sorts before every path that it is a proper prefix of.
proof fn lemma_prefix_sorts_first(a: Seq<Seq<char>>, b: Seq<Seq<char>>)
    requires
        a.len() < b.len(),
        b.take(a.len() as int) == a,
    ensures
        path_lt(a, b),
    decreases a.len(),
{
    if a.len() > 0 {
        assert(a[0] == b[0]);
        assert(b.drop_first().take(a.drop_first().len() as int) =~= a.drop_first());
        lemma_prefix_sorts_first(a.drop_first(), b.drop_first());
    }
}

/// No path sorts before one of its prefixes.
proof fn lemma_prefix_not_after(a: Seq<Seq<char>>, b: Seq<Seq<char>>)
    requires
        a.len() <= b.len(),
        b.take(a.len() as int) == a,
    ensures
        !path_lt(b, a),
    decreases a.len(),
{
    if a.len() > 0 {
        assert(a[0] == b[0]);
        assert(b.drop_first().take(a.drop_first().len() as int) =~= a.drop_first());
        lemma_prefix_not_after(a.drop_first(), b.drop_first());
    }
}

/// For a file inside the project `root`, the walk up marks exactly the directories
/// that lie below the root, and the root itself only when the file lies directly in
/// it; it never marks a directory above the root.
pub proof fn lemma_marks_inside_project(f: Seq<Seq<char>>, root: Seq<Seq<char>>, n: nat)
    requires
        0 < root.len() < f.len(),
        root_only_first(f),
        f.take(root.len() as int) == root,
        n < f.len(),
    ensures
        walk_reaches(f, n, root) <==> (root.len() < n || n + 1 == f.len()),
    decreases f.len() - n,
{
    if n + 1 < f.len() {
        lemma_marks_inside_project(f, root, n + 1);
        if root.len() < n {
            assert(f.take(n as int).take(root.len() as int) =~= root);
            lemma_prefix_sorts_first(root, f.take(n as int));
        } else {
            assert(root.take(n as int) =~= f.take(n as int));
            lemma_prefix_not_after(f.take(n as int), root);
        }
    }
}

/// Every diagnosed file is marked at least as seriously as each of its diagnostics,
/// and so is the directory that holds it, where it has one.
pub proof fn lemma_files_and_folders_marked(diags: Seq<FileDiagnostic>, root: Seq<Seq<char>>, i: int)
    requires
        0 <= i < diags.len(),
    ensures
        status_map(diags, root).contains_key(file_of(diags[i])),
        status_map(diags, root)[file_of(diags[i])] >= importance_of(diags[i].severity),
        file_of(diags[i]).len() > 0 && !is_root_component(file_of(diags[i]).last()) ==> {
            let parent = file_of(diags[i]).drop_last();
            &&& status_map(diags, root).contains_key(parent)
            &&& status_map(diags, root)[parent] >= importance_of(diags[i].severity)
        },
    decreases diags.len(),
{
    let f = file_of(diags[i]);
    if f.len() > 0 {
        assert(f.take(f.drop_last().len() as int) =~= f.drop_last());
    }
    if i == diags.len() - 1 {
        assert(diags.drop_last().len() + 1 == diags.len());
    } else {
        lemma_files_and_folders_marked(diags.drop_last(), root, i);
        assert(diags.drop_last()[i] == diags[i]);
    }
}

/// Every mark is that of some diagnostic: 1, 2 or 3.
pub proof fn lemma_marks_in_range(diags: Seq<FileDiagnostic>, root: Seq<Seq<char>>, k: Seq<Seq<char>>)
    requires
        status_map(diags, root).contains_key(k),
    ensures
        1 <= status_map(diags, root)[k] <= 3,
    decreases diags.len(),
{
    lemma_value_bounds(diags, root, k);
}

proof fn lemma_value_bounds(diags: Seq<FileDiagnostic>, root: Seq<Seq<char>>, k: Seq<Seq<char>>)
    ensures
        status_value(diags, root, k) <= 3,
        touched_by_any(diags, root, k) ==> status_value(diags, root, k) >= 1,
    decreases diags.len(),
{
    if diags.len() > 0 {
        lemma_value_bounds(diags.drop_last(), root, k);
    }
}


proof fn lemma_name_lt_transitive(a: Seq<char>, b: Seq<char>, c: Seq<char>)
    requires
        name_lt(a, b),
        name_lt(b, c),
    ensures
        name_lt(a, c),
    decreases a.len(),
{
    if a.len() > 0 && b.len() > 0 && c.len() > 0 && a[0] == b[0] && b[0] == c[0] {
        lemma_name_lt_transitive(a.drop_first(), b.drop_first(), c.drop_first());
    }
}

proof fn lemma_path_lt_transitive(a: Seq<Seq<char>>, b: Seq<Seq<char>>, c: Seq<Seq<char>>)
    requires
        path_lt(a, b),
        path_lt(b, c),
    ensures
        path_lt(a, c),
    decreases a.len(),
{
    if a.len() > 0 && b.len() > 0 && c.len() > 0 {
        if a[0] == b[0] && b[0] == c[0] {
            lemma_path_lt_transitive(a.drop_first(), b.drop_first(), c.drop_first());
        } else if a[0] != b[0] && b[0] != c[0] {
            lemma_component_lt_transitive(a[0], b[0], c[0]);
            if a[0] == c[0] {
                lemma_component_lt_asymmetric(a[0], b[0]);
            }
        }
    }
}

proof fn lemma_component_lt_transitive(a: Seq<char>, b: Seq<char>, c: Seq<char>)
    requires
        component_lt(a, b),
        component_lt(b, c),
    ensures
        component_lt(a, c),
{
    if component_rank(a) == component_rank(b) && component_rank(b) == component_rank(c) {
        lemma_name_lt_transitive(a, b, c);
    }
}

proof fn lemma_component_lt_asymmetric(a: Seq<char>, b: Seq<char>)
    requires
        component_lt(a, b),
    ensures
        !component_lt(b, a),
{
    if component_rank(a) == component_rank(b) {
        lemma_name_lt_asymmetric(a, b);
    }
}

proof fn lemma_name_lt_asymmetric(a: Seq<char>, b: Seq<char>)
    requires
        name_lt(a, b),
    ensures
        !name_lt(b, a),
    decreases a.len(),
{
    if a.len() > 0 && b.len() > 0 && a[0] == b[0] {
        lemma_name_lt_asymmetric(a.drop_first(), b.drop_first());
    }
}

/// The walk up from a file marks its parent, where it has one, and, above it,
/// exactly the ancestors that sort after the root: ancestors only sort lower the
/// higher they are, so the walk stops at the first one that does not.
pub proof fn lemma_walk_marks_ancestors_after_root(f: Seq<Seq<char>>, root: Seq<Seq<char>>, n: nat)
    requires
        n < f.len(),
        root_only_first(f),
    ensures
        walk_reaches(f, n, root) <==> ((n + 1 == f.len() && !is_root_component(f[n as int])) || (
        n + 1 < f.len() && path_lt(root, f.take(n as int)))),
    decreases f.len() - n,
{
    if n + 1 < f.len() {
        lemma_walk_marks_ancestors_after_root(f, root, n + 1);
        if path_lt(root, f.take(n as int)) {
            assert(n > 0);
            assert(!is_root_component(f[n as int + 1]));
        }
        if path_lt(root, f.take(n as int)) && n + 2 < f.len() {
            assert(f.take(n as int + 1).take(n as int) =~= f.take(n as int));
            lemma_prefix_sorts_first(f.take(n as int), f.take(n as int + 1));
            lemma_path_lt_transitive(root, f.take(n as int), f.take(n as int + 1));
        }
    }
}

/// Each entry of `a` occurs in `b`.
spec fn entries_within(a: Seq<FileDiagnostic>, b: Seq<FileDiagnostic>) -> bool {
    forall|i: int| 0 <= i < a.len() ==> b.contains(#[trigger] a[i])
}

/// The mark of `k` is the highest importance among the diagnostics that mark it,
/// and `k` is marked exactly when some diagnostic marks it.
proof fn lemma_status_value_is_max(diags: Seq<FileDiagnostic>, root: Seq<Seq<char>>, k: Seq<Seq<char>>)
    ensures
        forall|i: int|
            0 <= i < diags.len() && #[trigger] touches(diags[i], root, k) ==> importance_of(
                diags[i].severity,
            ) <= status_value(diags, root, k),
        touched_by_any(diags, root, k) <==> exists|i: int|
            0 <= i < diags.len() && #[trigger] touches(diags[i], root, k),
        status_value(diags, root, k) == 0 || exists|i: int|
            0 <= i < diags.len() && #[trigger] touches(diags[i], root, k) && importance_of(
                diags[i].severity,
            ) == status_value(diags, root, k),
    decreases diags.len(),
{
    if diags.len() > 0 {
        let init = diags.drop_last();
        let last = diags.len() - 1;
        lemma_status_value_is_max(init, root, k);
        assert forall|i: int| 0 <= i < diags.len() && #[trigger] touches(diags[i], root, k) implies importance_of(
            diags[i].severity,
        ) <= status_value(diags, root, k) by {
            if i < last {
                assert(init[i] == diags[i]);
            }
        }
        if touched_by_any(init, root, k) {
            let i = choose|i: int| 0 <= i < init.len() && #[trigger] touches(init[i], root, k);
            assert(init[i] == diags[i]);
        }
        if exists|i: int| 0 <= i < diags.len() && #[trigger] touches(diags[i], root, k) {
            let i = choose|i: int| 0 <= i < diags.len() && #[trigger] touches(diags[i], root, k);
            if i < last {
                assert(init[i] == diags[i]);
            }
        }
        if status_value(init, root, k) != 0 {
            let i = choose|i: int|
                0 <= i < init.len() && #[trigger] touches(init[i], root, k) && importance_of(init[i].severity)
                    == status_value(init, root, k);
            assert(init[i] == diags[i]);
        }
        assert(touches(diags[last], root, k) ==> touches(diags.last(), root, k));
    }
}

/// Where every entry of `a` occurs in `b`, whatever `a` marks `b` marks at least as
/// high.
proof fn lemma_marks_grow(a: Seq<FileDiagnostic>, b: Seq<FileDiagnostic>, root: Seq<Seq<char>>, k: Seq<Seq<char>>)
    requires
        entries_within(a, b),
    ensures
        touched_by_any(a, root, k) ==> touched_by_any(b, root, k),
        status_value(a, root, k) <= status_value(b, root, k),
{
    lemma_status_value_is_max(a, root, k);
    lemma_status_value_is_max(b, root, k);
    if touched_by_any(a, root, k) {
        let i = choose|i: int| 0 <= i < a.len() && #[trigger] touches(a[i], root, k);
        assert(b.contains(a[i]));
        let j = choose|j: int| 0 <= j < b.len() && b[j] == a[i];
        assert(touches(b[j], root, k));
    }
    if status_value(a, root, k) != 0 {
        let i = choose|i: int|
            0 <= i < a.len() && #[trigger] touches(a[i], root, k) && importance_of(a[i].severity)
                == status_value(a, root, k);
        assert(b.contains(a[i]));
        let j = choose|j: int| 0 <= j < b.len() && b[j] == a[i];
        assert(touches(b[j], root, k));
    }
}

/// The depth is the deepest level that a diagnosed file lies at.
proof fn lemma_depth_is_max(diags: Seq<FileDiagnostic>, root: Seq<Seq<char>>)
    ensures
        forall|i: int|
            0 <= i < diags.len() ==> depth_below(root, file_of(#[trigger] diags[i])) <= max_depth_of(
                diags,
                root,
            ),
        max_depth_of(diags, root) == 0 || exists|i: int|
            0 <= i < diags.len() && depth_below(root, file_of(#[trigger] diags[i])) == max_depth_of(
                diags,
                root,
            ),
    decreases diags.len(),
{
    if diags.len() > 0 {
        let init = diags.drop_last();
        lemma_depth_is_max(init, root);
        assert forall|i: int| 0 <= i < diags.len() implies depth_below(root, file_of(#[trigger] diags[i]))
            <= max_depth_of(diags, root) by {
            if i < diags.len() - 1 {
                assert(init[i] == diags[i]);
            }
        }
        if max_depth_of(init, root) != 0 {
            let i = choose|i: int|
                0 <= i < init.len() && depth_below(root, file_of(#[trigger] init[i])) == max_depth_of(
                    init,
                    root,
                );
            assert(init[i] == diags[i]);
        }
        assert(diags[diags.len() - 1] == diags.last());
    }
}

/// Where every entry of `a` occurs in `b`, `b` lies at least as deep.
proof fn lemma_depth_grows(a: Seq<FileDiagnostic>, b: Seq<FileDiagnostic>, root: Seq<Seq<char>>)
    requires
        entries_within(a, b),
    ensures
        max_depth_of(a, root) <= max_depth_of(b, root),
{
    lemma_depth_is_max(a, root);
    lemma_depth_is_max(b, root);
    if max_depth_of(a, root) != 0 {
        let i = choose|i: int|
            0 <= i < a.len() && depth_below(root, file_of(#[trigger] a[i])) == max_depth_of(a, root);
        assert(b.contains(a[i]));
        let j = choose|j: int| 0 <= j < b.len() && b[j] == a[i];
        assert(depth_below(root, file_of(b[j])) <= max_depth_of(b, root));
    }
}

/// Each entry of `a` occurs in every list with the same entries, each as often.
proof fn lemma_same_entries(a: Seq<FileDiagnostic>, b: Seq<FileDiagnostic>)
    requires
        a.to_multiset() == b.to_multiset(),
    ensures
        entries_within(a, b),
{
    a.to_multiset_ensures();
    b.to_multiset_ensures();
    assert forall|i: int| 0 <= i < a.len() implies b.contains(#[trigger] a[i]) by {
        assert(a.contains(a[i]));
        assert(a.to_multiset().count(a[i]) > 0);
        assert(b.to_multiset().count(a[i]) > 0);
    }
}

/// The order of the diagnostics does not matter: two lists that hold the same
/// diagnostics, each as often, give the same marks and the same depth.
pub proof fn lemma_marks_ignore_order(d1: Seq<FileDiagnostic>, d2: Seq<FileDiagnostic>, root: Seq<Seq<char>>)
    requires
        d1.to_multiset() == d2.to_multiset(),
    ensures
        status_map(d1, root) == status_map(d2, root),
        max_depth_of(d1, root) == max_depth_of(d2, root),
{
    lemma_same_entries(d1, d2);
    lemma_same_entries(d2, d1);
    assert forall|k: Seq<Seq<char>>|
        touched_by_any(d1, root, k) == touched_by_any(d2, root, k) && status_value(d1, root, k)
            == status_value(d2, root, k) by {
        lemma_marks_grow(d1, d2, root, k);
        lemma_marks_grow(d2, d1, root, k);
    }
    assert(status_map(d1, root) =~= status_map(d2, root));
    lemma_depth_grows(d1, d2, root);
    lemma_depth_grows(d2, d1, root);
}

} // verus!
