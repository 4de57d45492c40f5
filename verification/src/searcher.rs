use vstd::prelude::*;
use crate::gitio::{ancestors_newest_first, fetch_bytes, head_commit_id, tree_entries,
    tree_id_of_commit};
use crate::grepio::{build_printer, build_searcher, compile_matcher, run_search};
use crate::oid::{copy_bytes, label_for, Oid};
use crate::paths::{component_ok, lemma_pop_at_last_sep, lemma_pop_no_sep, lemma_pop_restores_push,
    name_ok, pop_elem_spec, push_elem_spec};
use crate::registry::{registry_view, DedupRegistry};

verus! {

/// The saturating step of a counter: counts up until the machine word is
/// exhausted, then stays put.
pub open spec fn sat_inc(n: int) -> int {
    if n < usize::MAX as int {
        n + 1
    } else {
        n
    }
}

/// A count clamped to what a machine word can hold.
pub open spec fn capped(n: int) -> int {
    if n > usize::MAX as int {
        usize::MAX as int
    } else {
        n
    }
}

/// The counters of one search run: how many content objects were actually
/// searched, how many were skipped because another visit had already claimed
/// them, and how many failed to be read or searched.
pub struct RunCounters {
    pub searched: usize,
    pub skipped: usize,
    pub failures: usize,
}

impl RunCounters {
    pub fn new() -> (r: RunCounters)
        ensures
            r.searched == 0,
            r.skipped == 0,
            r.failures == 0,
    {
        RunCounters { searched: 0, skipped: 0, failures: 0 }
    }

    pub fn bump_searched(&mut self)
        ensures
            final(self).searched as int == sat_inc(old(self).searched as int),
            final(self).skipped == old(self).skipped,
            final(self).failures == old(self).failures,
    {
        if self.searched < usize::MAX {
            self.searched = self.searched + 1;
        }
    }

    pub fn bump_skipped(&mut self)
        ensures
            final(self).skipped as int == sat_inc(old(self).skipped as int),
            final(self).searched == old(self).searched,
            final(self).failures == old(self).failures,
    {
        if self.skipped < usize::MAX {
            self.skipped = self.skipped + 1;
        }
    }

    pub fn bump_failures(&mut self)
        ensures
            final(self).failures as int == sat_inc(old(self).failures as int),
            final(self).searched == old(self).searched,
            final(self).skipped == old(self).skipped,
    {
        if self.failures < usize::MAX {
            self.failures = self.failures + 1;
        }
    }
}

/// Why a search run, or one commit of it, could not proceed.
#[derive(Clone, Copy, PartialEq, Eq, Structural, Debug)]
pub enum SearchError {
    /// The pattern is not a valid regular expression.
    Pattern,
    /// The head of the repository could not be resolved to a commit.
    Head,
    /// The ancestors of the start commit could not be enumerated.
    Ancestors,
    /// The commit's root tree could not be read.
    Tree,
}

/// What the walker tells the traversal to do after a visit.
#[derive(Clone, Copy, PartialEq, Eq, Structural, Debug)]
pub enum VisitAction {
    Continue,
    Skip,
}

/// One entry of a tree: a file name, the identifier of its object, and the
/// raw git mode bits that tell a nested tree from a content entry.
pub struct TreeEntry {
    pub name: Vec<u8>,
    pub oid: Oid,
    pub mode: u16,
}

impl TreeEntry {
    pub open spec fn wf(&self) -> bool {
        self.oid.wf()
    }

    /// Whether this entry is a nested tree: git stores trees with mode 40000
    /// octal, and nothing else.
    pub open spec fn is_tree_spec(&self) -> bool {
        self.mode == 0o40000u16
    }

    pub fn is_tree(&self) -> (r: bool)
        ensures
            r == self.is_tree_spec(),
    {
        self.mode == 0o40000
    }
}

impl Clone for TreeEntry {
    fn clone(&self) -> (r: Self)
        ensures
            r.name@ == self.name@,
            r.oid@ == self.oid@,
            r.mode == self.mode,
    {
        TreeEntry { name: copy_bytes(&self.name), oid: self.oid.clone(), mode: self.mode }
    }
}

/// Turns the raw entry triples of one tree into walker entries.
pub fn parse_entries(raw: Vec<(Vec<u8>, Vec<u8>, u16)>) -> (r: Vec<TreeEntry>)
    requires
        forall|i: int| 0 <= i < raw@.len() ==> (#[trigger] raw@[i]).1@.len() == 20,
    ensures
        r@.len() == raw@.len(),
        forall|i: int|
            0 <= i < r@.len() ==> (#[trigger] r@[i]).wf() && r@[i].name@ == raw@[i].0@
                && r@[i].oid@ == raw@[i].1@ && r@[i].mode == raw@[i].2,
{
    let mut out: Vec<TreeEntry> = Vec::new();
    let mut i: usize = 0;
    while i < raw.len()
        invariant
            i <= raw@.len(),
            forall|k: int| 0 <= k < raw@.len() ==> (#[trigger] raw@[k]).1@.len() == 20,
            out@.len() == i,
            forall|k: int|
                0 <= k < i ==> (#[trigger] out@[k]).wf() && out@[k].name@ == raw@[k].0@
                    && out@[k].oid@ == raw@[k].1@ && out@[k].mode == raw@[k].2,
        decreases raw@.len() - i,
    {
        let name = copy_bytes(&raw[i].0);
        let oid_bytes = copy_bytes(&raw[i].1);
        let mode = raw[i].2;
        let oid = Oid::from_bytes(oid_bytes).unwrap();
        out.push(TreeEntry { name, oid, mode });
        i = i + 1;
    }
    out
}

/// One suspended directory of the traversal: its entries, how many of them
/// were already handled, whether a path component was entered for it, that
/// component, and the path that was current in its parent.
pub struct Frame {
    pub entries: Vec<TreeEntry>,
    pub next: usize,
    pub has_component: bool,
    pub name: Vec<u8>,
    pub restore: Ghost<Seq<u8>>,
}

/// Every entry a frame still carries is well formed.
pub open spec fn frame_wf(f: Frame) -> bool {
    forall|j: int| 0 <= j < f.entries@.len() ==> (#[trigger] f.entries@[j]).wf()
}

/// The path that is current while a frame is the innermost open directory.
pub open spec fn frame_active(f: Frame) -> Seq<u8> {
    if f.has_component {
        push_elem_spec(f.restore@, f.name@)
    } else {
        f.restore@
    }
}

/// The frames of one walk fit together: every entry still to visit is well
/// formed, every entered component is usable, the outermost frame restores
/// the path the walk started from, and each inner frame restores the path
/// that was current in its parent.
pub open spec fn stack_wf(stack: Seq<Frame>, p0: Seq<u8>) -> bool {
    &&& forall|k: int| 0 <= k < stack.len() ==> frame_wf(#[trigger] stack[k])
    &&& forall|k: int|
        0 <= k < stack.len() && stack[k].has_component ==> component_ok(
            (#[trigger] stack[k]).name@,
        )
    &&& stack.len() > 0 ==> stack[0].restore@ == p0 && !stack[0].has_component
    &&& forall|k: int|
        1 <= k < stack.len() ==> (#[trigger] stack[k]).restore@ == frame_active(stack[k - 1])
}

/// What became of one content visit. `Searched` and `SearchFailed` both ran
/// the matcher over the object's bytes and claimed the identifier, so the
/// matcher never runs over one identifier twice; `SearchFailed` additionally
/// records that the search did not report its results in full. `FetchFailed`
/// claims nothing: the bytes were never obtained, and a later visit may try
/// again.
#[derive(Clone, Copy, PartialEq, Eq, Structural, Debug)]
pub enum VisitOutcome {
    /// The identifier was unclaimed; its bytes were searched and it is now
    /// claimed.
    Searched,
    /// The identifier was already claimed; its bytes were not fetched.
    Skipped,
    /// The identifier was unclaimed; the search ran but failed to report in
    /// full, and the identifier is claimed all the same.
    SearchFailed,
    /// The identifier was unclaimed but its bytes could not be obtained;
    /// nothing was claimed.
    FetchFailed,
}

/// How one content visit relates the registry and the counters before it to
/// those after it, exactly, for each outcome.
pub open spec fn visit_step(
    v0: Set<Seq<u8>>,
    v1: Set<Seq<u8>>,
    c0: RunCounters,
    c1: RunCounters,
    oid: Seq<u8>,
    o: VisitOutcome,
) -> bool {
    match o {
        VisitOutcome::Searched => v1 == v0.insert(oid) && c1.searched as int == sat_inc(
            c0.searched as int,
        ) && c1.skipped == c0.skipped && c1.failures == c0.failures,
        VisitOutcome::Skipped => v1 == v0 && c1.skipped as int == sat_inc(c0.skipped as int)
            && c1.searched == c0.searched && c1.failures == c0.failures,
        VisitOutcome::SearchFailed => v1 == v0.insert(oid) && c1.searched as int == sat_inc(
            c0.searched as int,
        ) && c1.failures as int == sat_inc(c0.failures as int) && c1.skipped == c0.skipped,
        VisitOutcome::FetchFailed => v1 == v0 && c1.failures as int == sat_inc(
            c0.failures as int,
        ) && c1.searched == c0.searched && c1.skipped == c0.skipped,
    }
}

/// The walk's duty toward the first `n` entries of a tree: either at least
/// one failure has been recorded since the walk began (`fail0` is the count
/// at that moment; the comparison is against its saturating step, so a
/// counter already exhausted stays settled), or every content entry among
/// those `n` has its identifier claimed.
pub open spec fn entries_settled(
    v: Set<Seq<u8>>,
    fail0: int,
    fail_now: int,
    entries: Seq<TreeEntry>,
    n: int,
) -> bool {
    fail_now >= sat_inc(fail0) || forall|j: int|
        0 <= j < n && !(#[trigger] entries[j]).is_tree_spec() ==> v.contains(entries[j].oid@)
}

/// The walker of one commit's tree: it keeps the current path, the snapshot
/// queue that traversal strategies with announced paths need, and the
/// compiled matcher, searcher and printer that search one object's bytes.
pub struct GitSearcher {
    path: Vec<u8>,
    path_deque: Vec<Vec<u8>>,
    matcher: grep::regex::RegexMatcher,
    searcher: grep::searcher::Searcher,
    printer: grep::printer::Standard<grep::cli::StandardStream>,
}

impl GitSearcher {
    /// The current path, as bytes.
    pub closed spec fn path_spec(&self) -> Seq<u8> {
        self.path@
    }

    /// The queue of snapshotted paths.
    pub closed spec fn deque_spec(&self) -> Seq<Seq<u8>> {
        self.path_deque@.map_values(|v: Vec<u8>| v@)
    }

    /// Builds a walker for one pattern. Fails exactly when the pattern does
    /// not compile; the decision lies with the pattern engine.
    pub fn new(regex: &str, color: bool) -> (r: Result<GitSearcher, SearchError>)
        ensures
            r matches Ok(gs) ==> gs.path_spec().len() == 0 && gs.deque_spec().len() == 0,
            r matches Err(e) ==> e == SearchError::Pattern,
    {
        let matcher = match compile_matcher(regex) {
            Ok(m) => m,
            Err(_) => {
                return Err(SearchError::Pattern);
            },
        };
        let searcher = build_searcher();
        let printer = build_printer(color);
        Ok(
            GitSearcher {
                path: Vec::new(),
                path_deque: Vec::new(),
                matcher,
                searcher,
                printer,
            },
        )
    }

    /// A read-only view of the current path.
    pub fn current_path(&self) -> (r: &Vec<u8>)
        ensures
            r@ == self.path_spec(),
    {
        &self.path
    }

    /// How many snapshots the path queue holds.
    pub fn tracked_paths(&self) -> (r: usize)
        ensures
            r == self.deque_spec().len(),
    {
        self.path_deque.len()
    }

    /// Appends one component to the current path: an empty component is
    /// never appended, and every component after the first is preceded by
    /// one separator.
    pub fn push_element(&mut self, name: &Vec<u8>)
        ensures
            final(self).path_spec() == push_elem_spec(old(self).path_spec(), name@),
            final(self).deque_spec() == old(self).deque_spec(),
    {
        if name.len() == 0 {
            return ;
        }
        if self.path.len() != 0 {
            self.path.push(47);
        }
        let ghost base: Seq<u8> = self.path@;
        let mut i: usize = 0;
        while i < name.len()
            invariant
                i <= name@.len(),
                self.path@ == base + name@.take(i as int),
                self.path_deque@ == old(self).path_deque@,
            decreases name@.len() - i,
        {
            self.path.push(name[i]);
            proof {
                assert(self.path@ =~= base + name@.take(i as int + 1));
            }
            i = i + 1;
        }
        proof {
            assert(name@.take(name@.len() as int) =~= name@);
            assert(self.path@ =~= push_elem_spec(old(self).path_spec(), name@));
        }
    }

    /// Removes the last component of the current path: the path is cut at
    /// its last separator, or cleared when none is left.
    pub fn pop_element(&mut self)
        ensures
            final(self).path_spec() == pop_elem_spec(old(self).path_spec()),
            final(self).deque_spec() == old(self).deque_spec(),
    {
        let mut j: usize = self.path.len();
        let mut found: bool = false;
        while !found && j > 0
            invariant
                j <= self.path@.len(),
                self.path@ == old(self).path_spec(),
                self.path_deque@ == old(self).path_deque@,
                !found ==> forall|k: int| j <= k < self.path@.len() ==> self.path@[k] != 47u8,
                found ==> 1 <= j && self.path@[j - 1] == 47u8 && forall|k: int|
                    j <= k < self.path@.len() ==> self.path@[k] != 47u8,
            decreases j + if found {
                0int
            } else {
                1int
            },
        {
            if self.path[j - 1] == 47 {
                found = true;
            } else {
                j = j - 1;
            }
        }
        if found {
            proof {
                lemma_pop_at_last_sep(self.path@, j - 1);
            }
            self.path.truncate(j - 1);
        } else {
            proof {
                lemma_pop_no_sep(self.path@);
            }
            self.path.clear();
            proof {
                assert(self.path@ =~= pop_elem_spec(old(self).path_spec()));
            }
        }
    }

    /// Appends a component and snapshots the resulting path onto the queue,
    /// for traversal strategies that announce a path before entering it.
    pub fn push_back_tracked_path_component(&mut self, component: &Vec<u8>)
        ensures
            final(self).path_spec() == push_elem_spec(old(self).path_spec(), component@),
            final(self).deque_spec() == old(self).deque_spec().push(final(self).path_spec()),
    {
        self.push_element(component);
        let snapshot = copy_bytes(&self.path);
        self.path_deque.push(snapshot);
        proof {
            assert(self.deque_spec() =~= old(self).deque_spec().push(self.path@));
        }
    }

    /// Restores the most recently snapshotted path, or the empty path when
    /// no snapshot is left.
    pub fn pop_back_tracked_path_and_set_current(&mut self)
        ensures
            old(self).deque_spec().len() == 0 ==> final(self).path_spec().len() == 0
                && final(self).deque_spec().len() == 0,
            old(self).deque_spec().len() > 0 ==> final(self).path_spec()
                == old(self).deque_spec().last()
                && final(self).deque_spec() == old(self).deque_spec().drop_last(),
    {
        match self.path_deque.pop() {
            Some(p) => {
                self.path = p;
            },
            None => {
                self.path = Vec::new();
            },
        }
        proof {
            if old(self).deque_spec().len() > 0 {
                assert(self.deque_spec() =~= old(self).deque_spec().drop_last());
            }
        }
    }

    /// Restores the oldest snapshotted path; every call is matched with an
    /// earlier snapshot.
    pub fn pop_front_tracked_path_and_set_current(&mut self)
        requires
            old(self).deque_spec().len() > 0,
        ensures
            final(self).path_spec() == old(self).deque_spec()[0],
            final(self).deque_spec() == old(self).deque_spec().drop_first(),
    {
        let p = self.path_deque.remove(0);
        self.path = p;
        proof {
            assert(self.deque_spec() =~= old(self).deque_spec().drop_first());
        }
    }

    /// Appends one component to the current path.
    pub fn push_path_component(&mut self, component: &Vec<u8>)
        ensures
            final(self).path_spec() == push_elem_spec(old(self).path_spec(), component@),
            final(self).deque_spec() == old(self).deque_spec(),
    {
        self.push_element(component);
    }

    /// Removes the last component of the current path.
    pub fn pop_path_component(&mut self)
        ensures
            final(self).path_spec() == pop_elem_spec(old(self).path_spec()),
            final(self).deque_spec() == old(self).deque_spec(),
    {
        self.pop_element();
    }

    /// Directories hold no content: visiting one never searches, the
    /// traversal just descends.
    pub fn visit_tree(&self, _entry: &TreeEntry) -> (a: VisitAction)
        ensures
            a == VisitAction::Continue,
    {
        VisitAction::Continue
    }

    /// Applies the outcome of fetching one content object and says which of
    /// the four outcomes happened: a claimed identifier is skipped; with no
    /// bytes one failure is recorded against that object alone and nothing
    /// is claimed; with bytes the object is searched under its label and
    /// claimed, and a search that fails to report in full additionally
    /// records one failure, so the matcher never runs over one identifier
    /// twice.
    pub fn apply_fetch_outcome(
        &mut self,
        reg: &mut DedupRegistry,
        oid: &Oid,
        fetched: Option<Vec<u8>>,
        counters: &mut RunCounters,
    ) -> (o: VisitOutcome)
        requires
            oid.wf(),
            registry_view(*old(reg)).finite(),
        ensures
            final(self).path_spec() == old(self).path_spec(),
            final(self).deque_spec() == old(self).deque_spec(),
            registry_view(*final(reg)).finite(),
            visit_step(
                registry_view(*old(reg)),
                registry_view(*final(reg)),
                *old(counters),
                *final(counters),
                oid@,
                o,
            ),
            (o == VisitOutcome::Skipped) == registry_view(*old(reg)).contains(oid@),
            (o == VisitOutcome::FetchFailed) == (fetched is None && !registry_view(
                *old(reg),
            ).contains(oid@)),
    {
        if reg.contains(oid) {
            counters.bump_skipped();
            return VisitOutcome::Skipped;
        }
        match fetched {
            None => {
                counters.bump_failures();
                VisitOutcome::FetchFailed
            },
            Some(data) => {
                let label = label_for(oid, &self.path);
                let searched = run_search(
                    &mut self.searcher,
                    &self.matcher,
                    &mut self.printer,
                    &data,
                    &label,
                );
                let _newly = reg.insert(oid);
                counters.bump_searched();
                match searched {
                    Err(_) => {
                        counters.bump_failures();
                        VisitOutcome::SearchFailed
                    },
                    Ok(_) => VisitOutcome::Searched,
                }
            },
        }
    }

    /// Visits one content entry and says which outcome happened: a claimed
    /// identifier is skipped without fetching its bytes; an unclaimed one is
    /// fetched, searched under the current path's label, and claimed, with a
    /// per-object failure recorded when fetching or searching fails, and no
    /// claim at all when the bytes could not be obtained.
    pub fn visit_nontree(
        &mut self,
        reg: &mut DedupRegistry,
        repo: &gix::Repository,
        entry: &TreeEntry,
        counters: &mut RunCounters,
    ) -> (o: VisitOutcome)
        requires
            entry.wf(),
            registry_view(*old(reg)).finite(),
        ensures
            final(self).path_spec() == old(self).path_spec(),
            final(self).deque_spec() == old(self).deque_spec(),
            registry_view(*final(reg)).finite(),
            (o == VisitOutcome::Skipped) == registry_view(*old(reg)).contains(entry.oid@),
            visit_step(
                registry_view(*old(reg)),
                registry_view(*final(reg)),
                *old(counters),
                *final(counters),
                entry.oid@,
                o,
            ),
    {
        if reg.contains(&entry.oid) {
            counters.bump_skipped();
            return VisitOutcome::Skipped;
        }
        let fetched = match fetch_bytes(repo, &entry.oid) {
            Ok(data) => Some(data),
            Err(_) => None,
        };
        self.apply_fetch_outcome(reg, &entry.oid, fetched, counters)
    }

    /// Walks one tree depth first, visiting every content entry under the
    /// path built from the components on the way to it, and descending into
    /// every nested tree. A subtree that cannot be read is recorded as one
    /// failure and the walk goes on. On return the path stands exactly as it
    /// did before the walk, the registry has only grown, the searched
    /// counter has grown by exactly the number of identifiers newly claimed,
    /// as far as the counter can count, and the root entries are settled:
    /// every content entry among them is claimed, unless a failure was
    /// recorded along the way.
    pub fn walk_tree(
        &mut self,
        reg: &mut DedupRegistry,
        repo: &gix::Repository,
        root_entries: Vec<TreeEntry>,
        counters: &mut RunCounters,
    )
        requires
            registry_view(*old(reg)).finite(),
            forall|j: int| 0 <= j < root_entries@.len() ==> (#[trigger] root_entries@[j]).wf(),
        ensures
            final(self).path_spec() == old(self).path_spec(),
            final(self).deque_spec() == old(self).deque_spec(),
            registry_view(*final(reg)).finite(),
            registry_view(*old(reg)).subset_of(registry_view(*final(reg))),
            final(counters).searched as int == capped(
                old(counters).searched as int + registry_view(*final(reg)).len()
                    - registry_view(*old(reg)).len(),
            ),
            final(counters).skipped >= old(counters).skipped,
            final(counters).failures >= old(counters).failures,
            entries_settled(
                registry_view(*final(reg)),
                old(counters).failures as int,
                final(counters).failures as int,
                root_entries@,
                root_entries@.len() as int,
            ),
    {
        let ghost p0: Seq<u8> = self.path@;
        let mut stack: Vec<Frame> = Vec::new();
        stack.push(
            Frame {
                entries: root_entries,
                next: 0,
                has_component: false,
                name: Vec::new(),
                restore: Ghost(p0),
            },
        );
        // A well-formed object graph is acyclic, so the traversal ends on its
        // own; the bound makes that termination explicit to the verifier and
        // cuts a malformed graph off instead of looping forever.
        let mut budget: u64 = u64::MAX;
        while stack.len() > 0 && budget > 0
            invariant
                p0 == old(self).path_spec(),
                registry_view(*reg).finite(),
                registry_view(*old(reg)).subset_of(registry_view(*reg)),
                counters.searched as int == capped(
                    old(counters).searched as int + registry_view(*reg).len()
                        - registry_view(*old(reg)).len(),
                ),
                counters.skipped >= old(counters).skipped,
                counters.failures >= old(counters).failures,
                stack_wf(stack@, p0),
                stack@.len() > 0 ==> self.path_spec() == frame_active(stack@.last()),
                stack@.len() == 0 ==> self.path_spec() == p0,
                self.deque_spec() == old(self).deque_spec(),
                stack@.len() > 0 ==> stack@[0].entries@ == root_entries@ && stack@[0].next
                    <= stack@[0].entries@.len(),
                stack@.len() > 0 ==> entries_settled(
                    registry_view(*reg),
                    old(counters).failures as int,
                    counters.failures as int,
                    root_entries@,
                    stack@[0].next as int,
                ),
                stack@.len() == 0 ==> entries_settled(
                    registry_view(*reg),
                    old(counters).failures as int,
                    counters.failures as int,
                    root_entries@,
                    root_entries@.len() as int,
                ),
            decreases budget,
        {
            budget = budget - 1;
            proof {
                vstd::set_lib::lemma_len_subset(registry_view(*old(reg)), registry_view(*reg));
            }
            let mut frame = stack.pop().unwrap();
            if frame.next >= frame.entries.len() {
                if frame.has_component {
                    self.pop_path_component();
                    proof {
                        lemma_pop_restores_push(frame.restore@, frame.name@);
                    }
                }
            } else {
                let entry = frame.entries[frame.next].clone();
                proof {
                    assert(frame_wf(frame));
                    assert(frame.entries@[frame.next as int].wf());
                }
                frame.next = frame.next + 1;
                stack.push(frame);
                if entry.is_tree() {
                    let _a = self.visit_tree(&entry);
                    // A component that could not stand in a path (empty, or
                    // holding a separator; git writes neither) does not
                    // extend it; the subtree is still walked.
                    let ok = name_ok(&entry.name);
                    let ghost cur: Seq<u8> = self.path@;
                    if ok {
                        self.push_path_component(&entry.name);
                    }
                    match tree_entries(repo, &entry.oid) {
                        Ok(raw) => {
                            let sub = parse_entries(raw);
                            stack.push(
                                Frame {
                                    entries: sub,
                                    next: 0,
                                    has_component: ok,
                                    name: entry.name,
                                    restore: Ghost(cur),
                                },
                            );
                        },
                        Err(_) => {
                            counters.bump_failures();
                            if ok {
                                self.pop_path_component();
                                proof {
                                    lemma_pop_restores_push(cur, entry.name@);
                                }
                            }
                        },
                    }
                } else {
                    let ok = name_ok(&entry.name);
                    let ghost cur: Seq<u8> = self.path@;
                    if ok {
                        self.push_path_component(&entry.name);
                    }
                    let _a = self.visit_nontree(reg, repo, &entry, counters);
                    if ok {
                        self.pop_path_component();
                        proof {
                            lemma_pop_restores_push(cur, entry.name@);
                        }
                    }
                }
            }
        }
        // Drains what is left when the step bound ran out, so that the path
        // always stands as it did before the walk.
        while stack.len() > 0
            invariant
                p0 == old(self).path_spec(),
                registry_view(*reg).finite(),
                registry_view(*old(reg)).subset_of(registry_view(*reg)),
                counters.searched as int == capped(
                    old(counters).searched as int + registry_view(*reg).len()
                        - registry_view(*old(reg)).len(),
                ),
                counters.skipped >= old(counters).skipped,
                counters.failures >= old(counters).failures,
                stack_wf(stack@, p0),
                stack@.len() > 0 ==> self.path_spec() == frame_active(stack@.last()),
                stack@.len() == 0 ==> self.path_spec() == p0,
                self.deque_spec() == old(self).deque_spec(),
                stack@.len() > 0 ==> stack@[0].entries@ == root_entries@ && stack@[0].next
                    <= stack@[0].entries@.len(),
                stack@.len() > 0 ==> entries_settled(
                    registry_view(*reg),
                    old(counters).failures as int,
                    counters.failures as int,
                    root_entries@,
                    stack@[0].next as int,
                ),
                stack@.len() == 0 ==> entries_settled(
                    registry_view(*reg),
                    old(counters).failures as int,
                    counters.failures as int,
                    root_entries@,
                    root_entries@.len() as int,
                ),
            decreases stack@.len(),
        {
            let frame = stack.pop().unwrap();
            if frame.next < frame.entries.len() {
                // The frame was abandoned with entries still unvisited: that
                // is recorded as a failure, so no entry is dropped silently.
                counters.bump_failures();
            }
            if frame.has_component {
                self.pop_path_component();
                proof {
                    lemma_pop_restores_push(frame.restore@, frame.name@);
                }
            }
        }
        proof {
            vstd::set_lib::lemma_len_subset(registry_view(*old(reg)), registry_view(*reg));
        }
    }
}

/// Searches one commit: compiles the pattern, reads the commit's root tree,
/// and walks it against the shared registry. A setup failure leaves the
/// registry and the counters exactly as they were; a finished walk has only
/// grown the registry, with the searched counter grown by the number of
/// newly claimed identifiers.
pub fn search_commit(
    repo: &gix::Repository,
    commit_id: &Oid,
    regex: &str,
    color: bool,
    reg: &mut DedupRegistry,
    counters: &mut RunCounters,
) -> (r: Result<(), SearchError>)
    requires
        commit_id.wf(),
        registry_view(*old(reg)).finite(),
    ensures
        registry_view(*final(reg)).finite(),
        registry_view(*old(reg)).subset_of(registry_view(*final(reg))),
        final(counters).searched as int == capped(
            old(counters).searched as int + registry_view(*final(reg)).len()
                - registry_view(*old(reg)).len(),
        ),
        final(counters).skipped >= old(counters).skipped,
        final(counters).failures >= old(counters).failures,
        r matches Err(e) ==> registry_view(*final(reg)) == registry_view(*old(reg))
            && *final(counters) == *old(counters)
            && (e == SearchError::Pattern || e == SearchError::Tree),
{
    let mut gs = match GitSearcher::new(regex, color) {
        Ok(g) => g,
        Err(e) => {
            return Err(e);
        },
    };
    let tree_bytes = match tree_id_of_commit(repo, commit_id) {
        Ok(v) => v,
        Err(_) => {
            return Err(SearchError::Tree);
        },
    };
    let tree = Oid::from_bytes(tree_bytes).unwrap();
    let raw = match tree_entries(repo, &tree) {
        Ok(v) => v,
        Err(_) => {
            return Err(SearchError::Tree);
        },
    };
    let entries = parse_entries(raw);
    gs.walk_tree(reg, repo, entries, counters);
    Ok(())
}

/// Searches the whole history: the head commit first, then every ancestor,
/// newest first, all against one registry created for this run. A commit
/// whose tree cannot be read is recorded as a failure and the run goes on;
/// only a setup failure (no head, bad pattern, no ancestor walk) aborts the
/// run before any further work. On success the searched counter equals the
/// number of distinct content objects claimed, as far as it can count.
pub fn search_repo(repo: &gix::Repository, regex: &str, color: bool) -> (r: Result<
    (RunCounters, DedupRegistry),
    SearchError,
>)
    ensures
        r matches Ok(out) ==> registry_view(out.1).finite() && out.0.searched as int == capped(
            registry_view(out.1).len() as int,
        ),
{
    let mut counters = RunCounters::new();
    let mut reg = DedupRegistry::new();
    let head_bytes = match head_commit_id(repo) {
        Ok(v) => v,
        Err(_) => {
            return Err(SearchError::Head);
        },
    };
    let head = Oid::from_bytes(head_bytes).unwrap();
    match search_commit(repo, &head, regex, color, &mut reg, &mut counters) {
        Ok(_) => {},
        Err(e) => {
            return Err(e);
        },
    }
    let ancestors = match ancestors_newest_first(repo, &head) {
        Ok(v) => v,
        Err(_) => {
            return Err(SearchError::Ancestors);
        },
    };
    let mut i: usize = 0;
    while i < ancestors.len()
        invariant
            i <= ancestors@.len(),
            forall|k: int| 0 <= k < ancestors@.len() ==> (#[trigger] ancestors@[k])@.len() == 20,
            registry_view(reg).finite(),
            counters.searched as int == capped(registry_view(reg).len() as int),
        decreases ancestors@.len() - i,
    {
        let cid = Oid::from_bytes(copy_bytes(&ancestors[i])).unwrap();
        let ghost pre = registry_view(reg);
        let outcome = search_commit(repo, &cid, regex, color, &mut reg, &mut counters);
        proof {
            vstd::set_lib::lemma_len_subset(pre, registry_view(reg));
        }
        match outcome {
            Ok(_) => {},
            Err(_) => {
                counters.bump_failures();
            },
        }
        i = i + 1;
    }
    Ok((counters, reg))
}

} // verus!
