//! Putting the CUPTI runtime that the injected library needs next to it.
//!
//! The library looks for `libcupti.so.<major>` in its own directory first. A
//! runtime with that SONAME is looked for among the vendored ones, copied into the
//! target under a name of its own, and renamed into place. The final name is never
//! copied onto: a runtime that was staged earlier may still be mapped in the
//! target, and rewriting it would kill the target on its next page-in. A rename
//! leaves the mapped inode as it is.

use crate::constants::{CUPTI_FILE_PREFIX, CUPTI_STAGING_PREFIX};
use crate::failures::{fault, fault_from, outcome, Failure, FailureKind, Fault};
use crate::numbers::{
    dec, decimal, hex, lemma_decimal_injective, lemma_numeral, lemma_numeral_injective, push_dec,
    push_decimal, push_hex,
};
use crate::releases::{
    candidate_less, law_pick_ignores_listing_order, law_the_pick_is_the_best,
    law_there_is_a_pick, pick_cupti_candidate, picks, version, CuptiPreference, Preference,
};
use crate::text::{begins_with, maybe, same_text, texts, told};
use crate::unix_handler::{root_of, UnixSocketHandler};
use vstd::prelude::*;

verus! {

// ---- Names ----

/// The name that a runtime is copied under for `target_pid` by the agent
/// `agent_pid`.
pub open spec fn staging_name(agent_pid: u32, unique: u128, target_pid: i32) -> Seq<char> {
    CUPTI_STAGING_PREFIX@ + dec(agent_pid as nat) + "-"@ + hex(unique as nat) + "-"@ + decimal(
        target_pid as int,
    )
}

/// A file in the `/tmp` of a process, as seen from outside its container.
pub open spec fn in_tmp(pid: i32, name: Seq<char>) -> Seq<char> {
    root_of(pid) + "/tmp/"@ + name
}

/// A copy that was left behind is never taken for a runtime: its name does not
/// begin as theirs do.
pub proof fn law_staged_copies_are_no_candidates(agent_pid: u32, unique: u128, target_pid: i32)
    ensures
        !CUPTI_FILE_PREFIX@.is_prefix_of(staging_name(agent_pid, unique, target_pid)),
{
    reveal_strlit(".cupti-staging-");
    reveal_strlit("libcupti.so.");
    let name = staging_name(agent_pid, unique, target_pid);
    assert(name[0] == CUPTI_STAGING_PREFIX@[0]);
    if CUPTI_FILE_PREFIX@.is_prefix_of(name) {
        assert(CUPTI_FILE_PREFIX@[0] == name.subrange(0, CUPTI_FILE_PREFIX@.len() as int)[0]);
    }
}

proof fn lemma_split_at_dash(a: Seq<char>, r: Seq<char>, b: Seq<char>, s: Seq<char>)
    requires
        !a.contains('-'),
        !b.contains('-'),
        a + "-"@ + r == b + "-"@ + s,
    ensures
        a == b,
        r == s,
{
    reveal_strlit("-");
    assert("-"@ =~= seq!['-']);
    let x = a + "-"@ + r;
    let y = b + "-"@ + s;
    assert(x[a.len() as int] == '-');
    assert(y[b.len() as int] == '-');
    if a.len() < b.len() {
        assert(b[a.len() as int] == y[a.len() as int]);
        assert(b.contains(b[a.len() as int]));
    }
    if b.len() < a.len() {
        assert(a[b.len() as int] == x[b.len() as int]);
        assert(a.contains(a[b.len() as int]));
    }
    assert(a =~= x.take(a.len() as int));
    assert(b =~= y.take(b.len() as int));
    assert(r =~= x.skip(a.len() as int + 1));
    assert(s =~= y.skip(b.len() as int + 1));
}

proof fn lemma_numeral_has_no_dash(n: nat, base: nat)
    requires
        base == 10 || base == 16,
    ensures
        !crate::numbers::numeral(n, base).contains('-'),
{
    lemma_numeral(n, base);
    let s = crate::numbers::numeral(n, base);
    assert forall|i: int| 0 <= i < s.len() implies s[i] != '-' by {
        let c = s[i];
        assert(('0' <= c <= '9') || (base == 16 && 'a' <= c <= 'f'));
    }
}

/// Two copies collide only where the agent, the moment and the target are all the
/// same.
pub proof fn law_staging_names_are_unique(
    agent: u32,
    unique: u128,
    target: i32,
    other_agent: u32,
    other_unique: u128,
    other_target: i32,
)
    requires
        staging_name(agent, unique, target) == staging_name(
            other_agent,
            other_unique,
            other_target,
        ),
    ensures
        agent == other_agent,
        unique == other_unique,
        target == other_target,
{
    let n = CUPTI_STAGING_PREFIX@.len() as int;
    let tail = hex(unique as nat) + "-"@ + decimal(target as int);
    let other_tail = hex(other_unique as nat) + "-"@ + decimal(other_target as int);
    assert(staging_name(agent, unique, target).skip(n) =~= dec(agent as nat) + "-"@ + tail);
    assert(staging_name(other_agent, other_unique, other_target).skip(n) =~= dec(
        other_agent as nat,
    ) + "-"@ + other_tail);
    lemma_numeral_has_no_dash(agent as nat, 10);
    lemma_numeral_has_no_dash(other_agent as nat, 10);
    lemma_numeral_has_no_dash(unique as nat, 16);
    lemma_numeral_has_no_dash(other_unique as nat, 16);
    lemma_split_at_dash(dec(agent as nat), tail, dec(other_agent as nat), other_tail);
    lemma_split_at_dash(
        hex(unique as nat),
        decimal(target as int),
        hex(other_unique as nat),
        decimal(other_target as int),
    );
    lemma_numeral_injective(agent as nat, other_agent as nat, 10);
    lemma_numeral_injective(unique as nat, other_unique as nat, 16);
    lemma_decimal_injective(target as int, other_target as int);
}

/// The copy is never made onto the final name, whatever runtime is staged.
pub proof fn law_the_final_name_is_not_copied_onto(
    agent_pid: u32,
    unique: u128,
    target_pid: i32,
    needed: Seq<char>,
)
    requires
        CUPTI_FILE_PREFIX@.is_prefix_of(needed),
    ensures
        in_tmp(target_pid, staging_name(agent_pid, unique, target_pid)) != in_tmp(
            target_pid,
            needed,
        ),
{
    let name = staging_name(agent_pid, unique, target_pid);
    law_staged_copies_are_no_candidates(agent_pid, unique, target_pid);
    let n = (root_of(target_pid) + "/tmp/"@).len() as int;
    assert(in_tmp(target_pid, name).skip(n) =~= name);
    assert(in_tmp(target_pid, needed).skip(n) =~= needed);
}

/// What a copy is called, and where it and the runtime that it becomes are.
pub proof fn law_where_runtimes_are_staged(
    agent_pid: u32,
    unique: u128,
    target_pid: i32,
    name: Seq<char>,
)
    ensures
        staging_name(agent_pid, unique, target_pid) == ".cupti-staging-"@ + dec(agent_pid as nat)
            + "-"@ + hex(unique as nat) + "-"@ + decimal(target_pid as int),
        in_tmp(target_pid, name) == "/proc/"@ + decimal(target_pid as int) + "/root"@ + "/tmp/"@
            + name,
{
}

/// The name that a runtime is copied under before it is renamed into place.
///
/// It does not begin as the name of a runtime does, so what a crash between the
/// copy and the rename leaves behind is never picked up.
pub fn cupti_staging_name(agent_pid: u32, target_pid: i32, unique: u128) -> (r: String)
    ensures
        r@ == staging_name(agent_pid, unique, target_pid),
{
    let mut name = CUPTI_STAGING_PREFIX.to_owned();
    push_dec(&mut name, agent_pid as u64);
    name.append("-");
    push_hex(&mut name, unique);
    name.append("-");
    push_decimal(&mut name, target_pid);
    name
}

fn tmp_path(pid: i32, name: &str) -> (r: String)
    ensures
        r@ == in_tmp(pid, name@),
{
    let mut path = UnixSocketHandler::proc_root(pid);
    path.append("/tmp/");
    path.append(name);
    path
}

// ---- Directories ----

/// A directory that runtimes are looked for in.
#[derive(Clone, Copy, Debug, PartialEq, Eq, Structural)]
pub enum SearchDir {
    /// `cupti` in the directory of the library.
    LibraryCupti,
    /// The directory of the library.
    Library,
    /// `cupti` in the directory of the agent.
    AgentCupti,
    /// The directory of the agent.
    Agent,
}

/// The directories to look in, in order. `agent_known` says whether the directory
/// of the agent is known.
pub fn wanted_dirs(agent_known: bool) -> (r: Vec<SearchDir>)
    ensures
        r@ == (if agent_known {
            seq![
                SearchDir::LibraryCupti,
                SearchDir::Library,
                SearchDir::AgentCupti,
                SearchDir::Agent,
            ]
        } else {
            seq![SearchDir::LibraryCupti, SearchDir::Library]
        }),
{
    let mut dirs: Vec<SearchDir> = Vec::new();
    dirs.push(SearchDir::LibraryCupti);
    dirs.push(SearchDir::Library);
    if agent_known {
        dirs.push(SearchDir::AgentCupti);
        dirs.push(SearchDir::Agent);
    }
    dirs
}

/// Whether two paths are the same.
pub open spec fn same_path(a: Vec<u8>, b: Vec<u8>) -> bool {
    a@ == b@
}

/// Whether one of the places holds the path at `k`, at `k` or before it.
pub open spec fn is_covered(paths: Seq<Vec<u8>>, places: Seq<usize>, k: int) -> bool {
    exists|i: int|
        0 <= i < places.len() && places[i] <= k && #[trigger] same_path(
            paths[places[i] as int],
            paths[k],
        )
}

/// Whether the path at `k` is the same as one before it.
pub open spec fn repeated(paths: Seq<Vec<u8>>, k: int) -> bool {
    exists|j: int| 0 <= j < k && #[trigger] paths[j]@ == paths[k]@
}

fn same_bytes(a: &Vec<u8>, b: &Vec<u8>) -> (r: bool)
    ensures
        r == (a@ == b@),
{
    if a.len() != b.len() {
        return false;
    }
    let mut i: usize = 0;
    while i < a.len()
        invariant
            a.len() == b.len(),
            0 <= i <= a.len(),
            forall|k: int| 0 <= k < i ==> a@[k] == b@[k],
        decreases a.len() - i,
    {
        if a[i] != b[i] {
            return false;
        }
        i += 1;
    }
    assert(a@ =~= b@);
    true
}

/// The places of the paths that are not the same as one before them, in order, so
/// that no directory is searched twice. The paths are canonical: two spellings of
/// one directory are the same bytes.
pub fn distinct_dirs(paths: &Vec<Vec<u8>>) -> (r: Vec<usize>)
    ensures
        forall|i: int, j: int| 0 <= i < j < r@.len() ==> r@[i] < r@[j],
        forall|i: int| 0 <= i < r@.len() ==> #[trigger] r@[i] < paths@.len(),
        forall|k: usize|
            k < paths@.len() ==> (#[trigger] r@.contains(k) <==> !repeated(paths@, k as int)),
        forall|i: int, j: int|
            0 <= i < j < r@.len() ==> #[trigger] paths@[r@[i] as int]@ != #[trigger] paths@[r@[j]
                as int]@,
        forall|k: int| 0 <= k < paths@.len() ==> #[trigger] is_covered(paths@, r@, k),
{
    let mut places: Vec<usize> = Vec::new();
    let mut k: usize = 0;
    while k < paths.len()
        invariant
            k <= paths.len(),
            forall|i: int, j: int| 0 <= i < j < places@.len() ==> places@[i] < places@[j],
            forall|i: int| 0 <= i < places@.len() ==> #[trigger] places@[i] < k,
            forall|m: usize|
                m < k ==> (#[trigger] places@.contains(m) <==> !repeated(paths@, m as int)),
        decreases paths.len() - k,
    {
        let mut seen: bool = false;
        let mut j: usize = 0;
        while j < k
            invariant
                j <= k < paths.len(),
                seen == exists|i: int| 0 <= i < j && #[trigger] paths@[i]@ == paths@[k as int]@,
            decreases k - j,
        {
            if same_bytes(&paths[j], &paths[k]) {
                seen = true;
            }
            j += 1;
        }
        let ghost before = places@;
        if !seen {
            places.push(k);
        }
        proof {
            assert forall|m: usize| m < k + 1 implies (#[trigger] places@.contains(m)
                <==> !repeated(paths@, m as int)) by {
                if !seen {
                    assert(places@ == before.push(k));
                    assert(places@[before.len() as int] == k);
                    if m < k && before.contains(m) {
                        let i = before.index_of(m);
                        assert(places@[i] == m);
                    }
                    if m < k && places@.contains(m) {
                        let i = places@.index_of(m);
                        assert(i < before.len());
                        assert(before[i] == m);
                    }
                } else if m == k && places@.contains(m) {
                    let i = places@.index_of(m);
                    assert(places@[i] < k);
                }
            }
        }
        k += 1;
    }
    proof {
        assert forall|i: int, j: int| 0 <= i < j < places@.len() implies
            #[trigger] paths@[places@[i] as int]@ != #[trigger] paths@[places@[j] as int]@ by {
            assert(places@.contains(places@[j]));
            assert(!repeated(paths@, places@[j] as int));
        }
        assert forall|k: int| 0 <= k < paths@.len() implies #[trigger] is_covered(
            paths@,
            places@,
            k,
        ) by {
            lemma_some_is_kept(paths@, places@, k);
        }
    }
    places
}

/// Of the paths that are the same, the first is kept.
proof fn lemma_some_is_kept(paths: Seq<Vec<u8>>, places: Seq<usize>, k: int)
    requires
        0 <= k < paths.len() <= usize::MAX,
        forall|m: usize|
            m < paths.len() ==> (#[trigger] places.contains(m) <==> !repeated(paths, m as int)),
    ensures
        is_covered(paths, places, k),
    decreases k,
{
    if repeated(paths, k) {
        let j = choose|j: int| 0 <= j < k && #[trigger] paths[j]@ == paths[k]@;
        lemma_some_is_kept(paths, places, j);
        let i = choose|i: int|
            0 <= i < places.len() && places[i] <= j && #[trigger] same_path(
                paths[places[i] as int],
                paths[j],
            );
        assert(same_path(paths[places[i] as int], paths[k]));
    } else {
        assert(places.contains(k as usize));
        let i = places.index_of(k as usize);
        assert(same_path(paths[places[i] as int], paths[k]));
    }
}

// ---- SONAMEs ----

/// The SONAMEs of files, by the canonical path of the file.
pub open spec fn known(entries: Seq<(Vec<u8>, String)>) -> Map<Seq<u8>, Seq<char>>
    decreases entries.len(),
{
    if entries.len() == 0 {
        Map::empty()
    } else {
        known(entries.drop_last()).insert(entries.last().0@, entries.last().1@)
    }
}

/// Whether no path occurs twice.
pub open spec fn paths_differ(entries: Seq<(Vec<u8>, String)>) -> bool {
    forall|i: int, j: int|
        0 <= i < j < entries.len() ==> #[trigger] entries[i].0@ != #[trigger] entries[j].0@
}

/// What stands under a path is known, and nothing else is.
proof fn lemma_known(entries: Seq<(Vec<u8>, String)>)
    requires
        paths_differ(entries),
    ensures
        forall|i: int|
            0 <= i < entries.len() ==> known(entries).contains_key(#[trigger] entries[i].0@)
                && known(entries)[entries[i].0@] == entries[i].1@,
        forall|path: Seq<u8>| #[trigger]
            known(entries).contains_key(path) ==> exists|i: int|
                0 <= i < entries.len() && #[trigger] entries[i].0@ == path,
    decreases entries.len(),
{
    if entries.len() > 0 {
        let shorter = entries.drop_last();
        let last = entries.len() - 1;
        assert forall|i: int, j: int|
            0 <= i < j < shorter.len() implies #[trigger] shorter[i].0@
            != #[trigger] shorter[j].0@ by {
            assert(entries[i].0@ != entries[j].0@);
        }
        lemma_known(shorter);
        assert forall|i: int| 0 <= i < entries.len() implies known(entries).contains_key(
            #[trigger] entries[i].0@,
        ) && known(entries)[entries[i].0@] == entries[i].1@ by {
            if i < last {
                assert(shorter[i] == entries[i]);
                assert(entries[i].0@ != entries[last].0@);
            }
        }
        assert forall|path: Seq<u8>| #[trigger] known(entries).contains_key(path) implies exists|
            i: int,
        |
            0 <= i < entries.len() && #[trigger] entries[i].0@ == path by {
            if path == entries[last].0@ {
                assert(entries[last].0@ == path);
            } else {
                assert(known(shorter).contains_key(path));
                let i = choose|i: int| 0 <= i < shorter.len() && #[trigger] shorter[i].0@ == path;
                assert(entries[i].0@ == path);
            }
        }
    }
}

/// The SONAMEs that have been read. Reading one means reading a file of some
/// megabytes whole, and vendored files do not change under a running agent.
pub struct SonameCache {
    entries: Vec<(Vec<u8>, String)>,
}

impl View for SonameCache {
    type V = Map<Seq<u8>, Seq<char>>;

    closed spec fn view(&self) -> Map<Seq<u8>, Seq<char>> {
        known(self.entries@)
    }
}

/// The place of a path among entries, if it has one.
fn place_of(entries: &Vec<(Vec<u8>, String)>, path: &Vec<u8>) -> (r: Option<usize>)
    ensures
        match r {
            Some(i) => i < entries@.len() && entries@[i as int].0@ == path@,
            None => forall|i: int| 0 <= i < entries@.len() ==> #[trigger] entries@[i].0@ != path@,
        },
{
    let mut i: usize = 0;
    while i < entries.len()
        invariant
            i <= entries.len(),
            forall|k: int| 0 <= k < i ==> #[trigger] entries@[k].0@ != path@,
        decreases entries.len() - i,
    {
        if same_bytes(&entries[i].0, path) {
            return Some(i);
        }
        i += 1;
    }
    None
}

impl SonameCache {
    /// No path occurs twice.
    #[verifier::type_invariant]
    spec fn wf(self) -> bool {
        paths_differ(self.entries@)
    }

    /// A cache that knows nothing.
    pub fn new() -> (r: SonameCache)
        ensures
            r@ == Map::<Seq<u8>, Seq<char>>::empty(),
    {
        SonameCache { entries: Vec::new() }
    }

    /// The SONAME of a file, where it has been read.
    pub fn lookup(&self, path: &Vec<u8>) -> (r: Option<String>)
        ensures
            maybe(r) == (if self@.contains_key(path@) {
                Some(self@[path@])
            } else {
                None
            }),
    {
        proof {
            use_type_invariant(self);
            lemma_known(self.entries@);
        }
        match place_of(&self.entries, path) {
            Some(i) => Some(self.entries[i].1.clone()),
            None => None,
        }
    }

    /// Takes in what reading the SONAME of a file gave, and hands it on. What was
    /// known of the file before is replaced. A reading that failed is not kept, so
    /// that the next one is tried again.
    pub fn record(&mut self, path: Vec<u8>, read: Option<String>) -> (r: Option<String>)
        ensures
            maybe(r) == maybe(read),
            final(self)@ == (match read {
                Some(soname) => old(self)@.insert(path@, soname@),
                None => old(self)@,
            }),
    {
        match read {
            Some(soname) => {
                proof {
                    use_type_invariant(&*self);
                }
                let kept = soname.clone();
                let ghost before = self.entries@;
                let mut entries: Vec<(Vec<u8>, String)> = Vec::new();
                std::mem::swap(&mut entries, &mut self.entries);
                let ghost mut place = before.len() as int;
                match place_of(&entries, &path) {
                    Some(i) => {
                        proof {
                            place = i as int;
                        }
                        entries.set(i, (path, kept));
                    },
                    None => {
                        entries.push((path, kept));
                    },
                }
                proof {
                    lemma_known(before);
                    lemma_known(entries@);
                    assert(entries@[place].0@ == path@ && entries@[place].1@ == soname@);
                    let all = known(before).insert(path@, soname@);
                    assert forall|other: Seq<u8>|
                        #![trigger known(entries@).dom().contains(other)]
                        #![trigger all.dom().contains(other)]
                        known(entries@).dom().contains(other) == all.dom().contains(other) && (
                        all.dom().contains(other) ==> known(entries@)[other] == all[other]) by {
                        if other != path@ && known(before).contains_key(other) {
                            let k = choose|k: int|
                                0 <= k < before.len() && #[trigger] before[k].0@ == other;
                            assert(entries@[k] == before[k]);
                        } else if other != path@ && known(entries@).contains_key(other) {
                            let k = choose|k: int|
                                0 <= k < entries@.len() && #[trigger] entries@[k].0@ == other;
                            assert(entries@[k] == before[k]);
                        }
                    }
                    assert(known(entries@) =~= all);
                }
                self.entries = entries;
                Some(soname)
            },
            None => None,
        }
    }
}

// ---- The run ----

/// The names that a directory lists, where they may be those of runtimes.
pub open spec fn candidates(listing: Seq<Seq<char>>) -> Seq<Seq<char>> {
    listing.filter(|name: Seq<char>| CUPTI_FILE_PREFIX@.is_prefix_of(name))
}

/// Those of `names` whose SONAME, at the same place in `sonames`, is `needed`.
pub open spec fn with_soname(
    names: Seq<Seq<char>>,
    sonames: Seq<Option<Seq<char>>>,
    needed: Seq<char>,
) -> Seq<Seq<char>>
    decreases names.len(),
{
    if names.len() == 0 {
        Seq::empty()
    } else {
        let before = with_soname(names.drop_last(), sonames, needed);
        let k = names.len() - 1;
        if k < sonames.len() && sonames[k] == Some(needed) {
            before.push(names[k])
        } else {
            before
        }
    }
}

/// The one of `names` to stage, if there is any.
pub open spec fn chosen(names: Seq<Seq<char>>, preference: Preference) -> Option<Seq<char>> {
    if names.len() == 0 {
        None
    } else {
        Some(choose|name: Seq<char>| picks(names, preference, name))
    }
}

/// What stays the same while a runtime is staged.
#[derive(Debug)]
pub struct StagePlan {
    /// The process to stage it for.
    pub target_pid: i32,
    /// Where it is copied to first, as seen from outside the container.
    pub staging: String,
    /// Which of several to stage.
    pub preference: CuptiPreference,
    /// How many directories there are to search.
    pub dirs: usize,
    /// Which directories those are, for people.
    pub dirs_text: String,
}

/// What a [`StagePlan`] says.
pub struct Plan {
    pub target_pid: i32,
    pub staging: Seq<char>,
    pub preference: Preference,
    pub dirs: usize,
    pub dirs_text: Seq<char>,
}

impl View for StagePlan {
    type V = Plan;

    open spec fn view(&self) -> Plan {
        Plan {
            target_pid: self.target_pid,
            staging: self.staging@,
            preference: self.preference@,
            dirs: self.dirs,
            dirs_text: self.dirs_text@,
        }
    }
}

/// Where the staging of a runtime stands.
#[derive(Debug)]
pub enum StagePhase {
    /// About to read the SONAME that the library needs.
    Needing,
    /// About to list the directory number `dir`.
    Listing { needed: String, dir: usize },
    /// About to read the SONAMEs of these files in it.
    Inspecting { needed: String, dir: usize, names: Vec<String> },
    /// About to copy this file in it to the staging path.
    Copying { needed: String, dir: usize, file: String },
    /// About to rename the copy into place.
    Renaming { needed: String },
    /// It failed: about to unlink the copy.
    Cleaning(Failure),
    /// It is over.
    Done(Result<(), Failure>),
}

/// What a [`StagePhase`] says.
pub enum Stage {
    Needing,
    Listing { needed: Seq<char>, dir: usize },
    Inspecting { needed: Seq<char>, dir: usize, names: Seq<Seq<char>> },
    Copying { needed: Seq<char>, dir: usize, file: Seq<char> },
    Renaming { needed: Seq<char> },
    Cleaning(Fault),
    Done(Result<(), Fault>),
}

impl View for StagePhase {
    type V = Stage;

    open spec fn view(&self) -> Stage {
        match *self {
            StagePhase::Needing => Stage::Needing,
            StagePhase::Listing { needed, dir } => Stage::Listing { needed: needed@, dir },
            StagePhase::Inspecting { needed, dir, names } => Stage::Inspecting {
                needed: needed@,
                dir,
                names: texts(names@),
            },
            StagePhase::Copying { needed, dir, file } => Stage::Copying {
                needed: needed@,
                dir,
                file: file@,
            },
            StagePhase::Renaming { needed } => Stage::Renaming { needed: needed@ },
            StagePhase::Cleaning(failure) => Stage::Cleaning(failure@),
            StagePhase::Done(r) => Stage::Done(outcome(r)),
        }
    }
}

/// What is to be done to stage a runtime.
#[derive(Clone, Copy, Debug, PartialEq, Eq, Structural)]
pub enum StageAction {
    /// Read which runtime the library needs.
    ReadNeeded,
    /// List a directory.
    ListDir,
    /// Read the SONAMEs of files.
    ReadSonames,
    /// Copy a file to the staging path.
    Copy,
    /// Rename the staging path to the final one.
    Rename,
    /// Unlink the staging path.
    RemoveStaging,
    /// Nothing more.
    Finish,
}

/// How that went.
#[derive(Debug)]
pub enum StageEvent {
    /// The SONAME that is needed, or why it could not be read.
    Needed(Result<String, String>),
    /// The names in the directory, or nothing where it could not be listed.
    Listed(Option<Vec<String>>),
    /// The SONAME of each file, in order, where it could be read.
    Sonames(Vec<Option<String>>),
    /// The file was copied, or this went wrong.
    Copied(Result<(), String>),
    /// The copy was renamed, or this went wrong.
    Renamed(Result<(), String>),
    /// The copy is gone, or could not be unlinked.
    Cleaned,
}

/// What a [`StageEvent`] says.
pub enum Staged {
    Needed(Result<Seq<char>, Seq<char>>),
    Listed(Option<Seq<Seq<char>>>),
    Sonames(Seq<Option<Seq<char>>>),
    Copied(Result<(), Seq<char>>),
    Renamed(Result<(), Seq<char>>),
    Cleaned,
}

impl View for StageEvent {
    type V = Staged;

    open spec fn view(&self) -> Staged {
        match *self {
            StageEvent::Needed(Ok(needed)) => Staged::Needed(Ok(needed@)),
            StageEvent::Needed(Err(error)) => Staged::Needed(Err(error@)),
            StageEvent::Listed(Some(names)) => Staged::Listed(Some(texts(names@))),
            StageEvent::Listed(None) => Staged::Listed(None),
            StageEvent::Sonames(sonames) => Staged::Sonames(
                sonames@.map_values(|soname: Option<String>| maybe(soname)),
            ),
            StageEvent::Copied(r) => Staged::Copied(told(r)),
            StageEvent::Renamed(r) => Staged::Renamed(told(r)),
            StageEvent::Cleaned => Staged::Cleaned,
        }
    }
}

/// Plans, phases and events of a staging say what they hold.
pub proof fn law_stagings_say_what_they_hold(
    plan: StagePlan,
    phase: StagePhase,
    event: StageEvent,
    k: int,
)
    ensures
        plan@.target_pid == plan.target_pid,
        plan@.staging == plan.staging@,
        plan@.preference == plan.preference@,
        plan@.dirs == plan.dirs,
        plan@.dirs_text == plan.dirs_text@,
        match phase {
            StagePhase::Needing => phase@ is Needing,
            StagePhase::Listing { needed, dir } => phase@ == (Stage::Listing {
                needed: needed@,
                dir,
            }),
            StagePhase::Inspecting { needed, dir, names } => phase@ == (Stage::Inspecting {
                needed: needed@,
                dir,
                names: texts(names@),
            }),
            StagePhase::Copying { needed, dir, file } => phase@ == (Stage::Copying {
                needed: needed@,
                dir,
                file: file@,
            }),
            StagePhase::Renaming { needed } => phase@ == (Stage::Renaming { needed: needed@ }),
            StagePhase::Cleaning(failure) => phase@ == Stage::Cleaning(failure@),
            StagePhase::Done(r) => phase@ == Stage::Done(outcome(r)),
        },
        match event {
            StageEvent::Needed(Ok(needed)) => event@ == Staged::Needed(Ok(needed@)),
            StageEvent::Needed(Err(error)) => event@ == Staged::Needed(Err(error@)),
            StageEvent::Listed(Some(names)) => event@ == Staged::Listed(Some(texts(names@))),
            StageEvent::Listed(None) => event@ == Staged::Listed(None),
            StageEvent::Sonames(sonames) => {
                &&& event@ matches Staged::Sonames(read)
                &&& read.len() == sonames@.len()
                &&& 0 <= k < read.len() ==> read[k] == maybe(sonames@[k])
            },
            StageEvent::Copied(r) => event@ == Staged::Copied(told(r)),
            StageEvent::Renamed(r) => event@ == Staged::Renamed(told(r)),
            StageEvent::Cleaned => event@ is Cleaned,
        },
{
}

/// What each phase is about to do.
pub open spec fn stage_action(phase: Stage) -> StageAction {
    match phase {
        Stage::Needing => StageAction::ReadNeeded,
        Stage::Listing { .. } => StageAction::ListDir,
        Stage::Inspecting { .. } => StageAction::ReadSonames,
        Stage::Copying { .. } => StageAction::Copy,
        Stage::Renaming { .. } => StageAction::Rename,
        Stage::Cleaning(_) => StageAction::RemoveStaging,
        Stage::Done(_) => StageAction::Finish,
    }
}

/// Whether an event is about the action.
pub open spec fn stage_concerns(event: Staged, action: StageAction) -> bool {
    match action {
        StageAction::ReadNeeded => event is Needed,
        StageAction::ListDir => event is Listed,
        StageAction::ReadSonames => event is Sonames,
        StageAction::Copy => event is Copied,
        StageAction::Rename => event is Renamed,
        StageAction::RemoveStaging => event is Cleaned,
        StageAction::Finish => false,
    }
}

/// Why nothing is staged where the library does not say what it needs.
pub open spec fn unknown_need(error: Seq<char>) -> Fault {
    fault_from("cannot determine libcupti soname required by libcuprof.so"@, error)
}

/// Why nothing is staged where no directory has what is needed.
pub open spec fn nothing_vendored(needed: Seq<char>, dirs: Seq<char>) -> Fault {
    fault(
        FailureKind::CuptiPluginError,
        "no vendored libcupti with soname '"@ + needed + "' found in "@ + dirs,
    )
}

/// Why a runtime that could not be copied is not staged.
pub open spec fn copy_failed(needed: Seq<char>, error: Seq<char>) -> Fault {
    fault_from("failed to stage "@ + needed + " for target"@, error)
}

/// Why a runtime that could not be renamed is not staged.
pub open spec fn rename_failed(pid: i32, needed: Seq<char>, error: Seq<char>) -> Fault {
    fault_from(
        "failed to move staged "@ + needed + " into place at "@ + in_tmp(pid, needed),
        error,
    )
}

/// Goes on with the directory number `dir`, if there is one.
pub open spec fn search_from(plan: Plan, needed: Seq<char>, dir: int) -> Stage {
    if dir < plan.dirs {
        Stage::Listing { needed, dir: dir as usize }
    } else {
        Stage::Done(Err(nothing_vendored(needed, plan.dirs_text)))
    }
}

/// The phase that follows `phase` on `event`. The first directory that has a
/// runtime with the SONAME that is needed is the one that is used. An event that
/// is not about what the phase is about to do changes nothing.
pub open spec fn next_stage(plan: Plan, phase: Stage, event: Staged) -> Stage {
    match (phase, event) {
        (Stage::Needing, Staged::Needed(Ok(needed))) => search_from(plan, needed, 0),
        (Stage::Needing, Staged::Needed(Err(error))) => Stage::Done(Err(unknown_need(error))),
        (Stage::Listing { needed, dir }, Staged::Listed(Some(listing))) => Stage::Inspecting {
            needed,
            dir,
            names: candidates(listing),
        },
        (Stage::Listing { needed, dir }, Staged::Listed(None)) => search_from(
            plan,
            needed,
            dir + 1,
        ),
        (Stage::Inspecting { needed, dir, names }, Staged::Sonames(sonames)) => match chosen(
            with_soname(names, sonames, needed),
            plan.preference,
        ) {
            Some(file) => Stage::Copying { needed, dir, file },
            None => search_from(plan, needed, dir + 1),
        },
        (Stage::Copying { needed, .. }, Staged::Copied(r)) => match r {
            Ok(_) => Stage::Renaming { needed },
            Err(error) => Stage::Cleaning(copy_failed(needed, error)),
        },
        (Stage::Renaming { needed }, Staged::Renamed(r)) => match r {
            Ok(_) => Stage::Done(Ok(())),
            Err(error) => Stage::Cleaning(rename_failed(plan.target_pid, needed, error)),
        },
        (Stage::Cleaning(failure), Staged::Cleaned) => Stage::Done(Err(failure)),
        _ => phase,
    }
}

/// The phase after a run of events.
pub open spec fn stage_after(plan: Plan, phase: Stage, events: Seq<Staged>) -> Stage
    decreases events.len(),
{
    if events.len() == 0 {
        phase
    } else {
        next_stage(plan, stage_after(plan, phase, events.drop_last()), events.last())
    }
}

/// Whether a phase comes after a copy that succeeded.
pub open spec fn copied_whole(phase: Stage) -> bool {
    match phase {
        Stage::Renaming { .. } => true,
        Stage::Done(r) => r is Ok,
        _ => false,
    }
}

/// Whether an event is a copy that succeeded.
pub open spec fn copies_whole(event: Staged) -> bool {
    match event {
        Staged::Copied(r) => r is Ok,
        _ => false,
    }
}

/// Nothing is renamed into place that was not copied whole: a run that is about
/// to rename, or that ended well, holds a copy that succeeded.
pub proof fn law_only_whole_copies_are_renamed(plan: Plan, events: Seq<Staged>)
    requires
        copied_whole(stage_after(plan, Stage::Needing, events)),
    ensures
        exists|k: int| 0 <= k < events.len() && copies_whole(#[trigger] events[k]),
    decreases events.len(),
{
    let shorter = events.drop_last();
    if copied_whole(stage_after(plan, Stage::Needing, shorter)) {
        law_only_whole_copies_are_renamed(plan, shorter);
        let k = choose|k: int| 0 <= k < shorter.len() && copies_whole(#[trigger] shorter[k]);
        assert(events[k] == shorter[k]);
    } else {
        assert(copies_whole(events[events.len() - 1]));
    }
}

/// A copy or a rename that failed leaves no copy behind: it is unlinked before
/// the failure is reported, and the failure is the one that happened.
pub proof fn law_failed_copies_are_unlinked(plan: Plan, phase: Stage, event: Staged)
    requires
        phase is Copying || phase is Renaming,
        stage_concerns(event, stage_action(phase)),
    ensures
        ({
            let next = next_stage(plan, phase, event);
            let failed = event matches Staged::Copied(Err(_)) || event matches Staged::Renamed(
                Err(_),
            );
            &&& next is Cleaning <==> failed
            &&& next is Cleaning ==> next_stage(plan, next, Staged::Cleaned) == Stage::Done(
                Err(next->Cleaning_0),
            )
            &&& next is Done ==> next == Stage::Done(Ok(()))
        }),
{
}

proof fn lemma_with_soname(
    names: Seq<Seq<char>>,
    sonames: Seq<Option<Seq<char>>>,
    needed: Seq<char>,
    file: Seq<char>,
)
    requires
        with_soname(names, sonames, needed).contains(file),
    ensures
        exists|k: int|
            0 <= k < names.len() && k < sonames.len() && #[trigger] names[k] == file && sonames[k]
                == Some(needed),
    decreases names.len(),
{
    if names.len() > 0 {
        let k = names.len() - 1;
        let before = with_soname(names.drop_last(), sonames, needed);
        if before.contains(file) {
            lemma_with_soname(names.drop_last(), sonames, needed, file);
            let j = choose|j: int|
                0 <= j < names.drop_last().len() && j < sonames.len()
                    && #[trigger] names.drop_last()[j] == file && sonames[j] == Some(needed);
            assert(names[j] == file);
        } else {
            let all = with_soname(names, sonames, needed);
            let i = all.index_of(file);
            assert(all[i] == file);
            if i < before.len() {
                assert(before[i] == file);
            }
            assert(names[k] == file);
        }
    }
}

/// No match is lost, and nothing else is kept: a file is among the matches exactly
/// where it is among the names and its SONAME is the one that is needed.
pub proof fn law_every_match_is_kept(
    names: Seq<Seq<char>>,
    sonames: Seq<Option<Seq<char>>>,
    needed: Seq<char>,
    file: Seq<char>,
)
    ensures
        with_soname(names, sonames, needed).contains(file) <==> exists|k: int|
            0 <= k < names.len() && k < sonames.len() && #[trigger] names[k] == file && sonames[k]
                == Some(needed),
    decreases names.len(),
{
    if with_soname(names, sonames, needed).contains(file) {
        lemma_with_soname(names, sonames, needed, file);
    }
    if exists|k: int|
        0 <= k < names.len() && k < sonames.len() && #[trigger] names[k] == file && sonames[k]
            == Some(needed) {
        let k = choose|k: int|
            0 <= k < names.len() && k < sonames.len() && #[trigger] names[k] == file && sonames[k]
                == Some(needed);
        let last = names.len() - 1;
        let before = with_soname(names.drop_last(), sonames, needed);
        let all = with_soname(names, sonames, needed);
        if k == last {
            assert(all[before.len() as int] == file);
        } else {
            assert(names.drop_last()[k] == file);
            law_every_match_is_kept(names.drop_last(), sonames, needed, file);
            let i = before.index_of(file);
            assert(all[i] == file);
        }
    }
}

/// Every file that is listed under the name of a runtime is a candidate, and nothing
/// else is.
pub proof fn law_every_listed_runtime_is_a_candidate(listing: Seq<Seq<char>>, name: Seq<char>)
    ensures
        candidates(listing).contains(name) <==> listing.contains(name)
            && "libcupti.so."@.is_prefix_of(name),
{
    broadcast use vstd::seq_lib::group_filter_ensures;

    let wanted = |name: Seq<char>| CUPTI_FILE_PREFIX@.is_prefix_of(name);
    if candidates(listing).contains(name) {
        let k = candidates(listing).index_of(name);
        listing.lemma_filter_contains_rev(wanted, name);
        assert(wanted(listing.filter(wanted)[k]));
    }
    if listing.contains(name) && "libcupti.so."@.is_prefix_of(name) {
        let k = listing.index_of(name);
        assert(wanted(listing[k]));
        assert(listing.filter(wanted).contains(listing[k]));
    }
}

/// The name that is picked out of a list is the one to stage: there is no other.
proof fn lemma_chosen(names: Seq<Seq<char>>, preference: Preference, name: Seq<char>)
    requires
        picks(names, preference, name),
    ensures
        chosen(names, preference) == Some(name),
{
    let other = choose|other: Seq<char>| picks(names, preference, other);
    law_pick_ignores_listing_order(names, names, preference, name, other);
    let i = names.index_of(name);
    assert(names[i] == name);
}

/// The file that is copied has the SONAME that the library needs. `file` is one
/// that [`pick_cupti_candidate`] picks.
pub proof fn law_the_staged_file_has_the_needed_soname(
    plan: Plan,
    needed: Seq<char>,
    dir: usize,
    names: Seq<Seq<char>>,
    sonames: Seq<Option<Seq<char>>>,
    file: Seq<char>,
)
    requires
        picks(with_soname(names, sonames, needed), plan.preference, file),
    ensures
        next_stage(
            plan,
            Stage::Inspecting { needed, dir, names },
            Staged::Sonames(sonames),
        ) == (Stage::Copying { needed, dir, file }),
        exists|k: int|
            0 <= k < names.len() && k < sonames.len() && #[trigger] names[k] == file && sonames[k]
                == Some(needed),
{
    lemma_chosen(with_soname(names, sonames, needed), plan.preference, file);
    lemma_with_soname(names, sonames, needed, file);
}

/// A directory that can be listed leads to its SONAMEs being read, of every file under
/// the name of a runtime. Where one of them is the SONAME that is needed, a file of
/// that directory is copied: one that has it, and no other one that has it is better
/// by the preference. Where none is, the next directory is looked at, if there is one.
pub proof fn law_the_best_match_of_a_directory_is_copied(
    plan: Plan,
    needed: Seq<char>,
    dir: usize,
    listing: Seq<Seq<char>>,
    sonames: Seq<Option<Seq<char>>>,
    k: int,
)
    requires
        plan.dirs > dir,
    ensures
        ({
            let inspecting = next_stage(
                plan,
                Stage::Listing { needed, dir },
                Staged::Listed(Some(listing)),
            );
            let next = next_stage(plan, inspecting, Staged::Sonames(sonames));
            &&& inspecting matches Stage::Inspecting { needed: same, dir: here, names }
            &&& same == needed && here == dir
            &&& forall|name: Seq<char>| #[trigger]
                names.contains(name) <==> listing.contains(name) && "libcupti.so."@.is_prefix_of(
                    name,
                )
            &&& 0 <= k < names.len() && k < sonames.len() && sonames[k] == Some(needed) ==> {
                &&& next matches Stage::Copying { needed: same, dir: here, file }
                &&& same == needed && here == dir
                &&& listing.contains(file)
                &&& plan.preference == Preference::Exact(names[k]) ==> file == names[k]
                &&& version(names[k]) is Some && plan.preference is Highest ==> version(
                    file,
                ) is Some && !candidate_less(file, names[k])
                &&& version(names[k]) is Some && plan.preference is Lowest ==> version(
                    file,
                ) is Some && !candidate_less(names[k], file)
            }
            &&& (forall|j: int|
                0 <= j < names.len() && j < sonames.len() ==> #[trigger] sonames[j] != Some(
                    needed,
                )) ==> {
                if dir + 1 < plan.dirs {
                    next == (Stage::Listing { needed, dir: (dir + 1) as usize })
                } else {
                    next is Done
                }
            }
        }),
{
    let names = candidates(listing);
    let matching = with_soname(names, sonames, needed);
    assert forall|name: Seq<char>| #[trigger] names.contains(name) <==> listing.contains(name)
        && "libcupti.so."@.is_prefix_of(name) by {
        law_every_listed_runtime_is_a_candidate(listing, name);
    }
    if 0 <= k < names.len() && k < sonames.len() && sonames[k] == Some(needed) {
        law_every_match_is_kept(names, sonames, needed, names[k]);
        assert(matching.contains(names[k]));
        law_there_is_a_pick(matching, plan.preference);
        let file = choose|name: Seq<char>| picks(matching, plan.preference, name);
        law_the_pick_is_the_best(matching, plan.preference, file, names[k]);
        law_every_match_is_kept(names, sonames, needed, file);
        let j = choose|j: int|
            0 <= j < names.len() && j < sonames.len() && #[trigger] names[j] == file && sonames[j]
                == Some(needed);
        assert(names.contains(file));
    }
    if forall|j: int|
        0 <= j < names.len() && j < sonames.len() ==> #[trigger] sonames[j] != Some(needed) {
        if matching.len() > 0 {
            assert(matching.contains(matching[0]));
            law_every_match_is_kept(names, sonames, needed, matching[0]);
            let j = choose|j: int|
                0 <= j < names.len() && j < sonames.len() && #[trigger] names[j] == matching[0]
                    && sonames[j] == Some(needed);
            assert(sonames[j] != Some(needed));
        }
    }
}

/// The SONAME that a phase goes by.
pub open spec fn soname_in(phase: Stage) -> Option<Seq<char>> {
    match phase {
        Stage::Listing { needed, .. } => Some(needed),
        Stage::Inspecting { needed, .. } => Some(needed),
        Stage::Copying { needed, .. } => Some(needed),
        Stage::Renaming { needed } => Some(needed),
        _ => None,
    }
}

/// The SONAME that a run goes by, from the first directory to the rename, is the one
/// that the library was read to need. That one is never given up for another.
pub proof fn law_the_needed_soname_is_kept(plan: Plan, events: Seq<Staged>, needed: Seq<char>)
    requires
        soname_in(stage_after(plan, Stage::Needing, events)) == Some(needed),
    ensures
        events.contains(Staged::Needed(Ok(needed))),
    decreases events.len(),
{
    let shorter = events.drop_last();
    if soname_in(stage_after(plan, Stage::Needing, shorter)) is Some {
        law_the_needed_soname_is_kept(plan, shorter, needed);
        let k = shorter.index_of(Staged::Needed(Ok(needed)));
        assert(events[k] == shorter[k]);
    } else {
        assert(events[events.len() - 1] == Staged::Needed(Ok(needed)));
    }
}

/// How a copy ends: one that succeeded is renamed, and one that was renamed is staged.
/// What failed is cleaned up and reported, with the error that it failed with.
pub proof fn law_how_a_copy_ends(
    plan: Plan,
    needed: Seq<char>,
    dir: usize,
    file: Seq<char>,
    error: Seq<char>,
)
    ensures
        ({
            let copying = Stage::Copying { needed, dir, file };
            let copied = next_stage(plan, copying, Staged::Copied(Ok(())));
            let broken = next_stage(plan, copying, Staged::Copied(Err(error)));
            let stuck = next_stage(plan, copied, Staged::Renamed(Err(error)));
            &&& stage_action(copying) == StageAction::Copy
            &&& stage_action(copied) == StageAction::Rename
            &&& next_stage(plan, copied, Staged::Renamed(Ok(()))) == Stage::Done(Ok(()))
            &&& stage_action(broken) == StageAction::RemoveStaging
            &&& next_stage(plan, broken, Staged::Cleaned) == Stage::Done(
                Err(fault_from("failed to stage "@ + needed + " for target"@, error)),
            )
            &&& stage_action(stuck) == StageAction::RemoveStaging
            &&& next_stage(plan, stuck, Staged::Cleaned) == Stage::Done(
                Err(
                    fault_from(
                        "failed to move staged "@ + needed + " into place at "@ + ("/proc/"@
                            + decimal(plan.target_pid as int) + "/root"@ + "/tmp/"@ + needed),
                        error,
                    ),
                ),
            )
        }),
{
}

/// How a search begins and ends: with what the library needs and the first directory,
/// past every directory that cannot be listed, and after the last with a failure that
/// names the SONAME and the directories.
pub proof fn law_how_a_search_goes(
    plan: Plan,
    needed: Seq<char>,
    dir: usize,
    error: Seq<char>,
)
    requires
        plan.dirs > dir,
    ensures
        next_stage(plan, Stage::Needing, Staged::Needed(Ok(needed))) == (Stage::Listing {
            needed,
            dir: 0,
        }),
        next_stage(plan, Stage::Needing, Staged::Needed(Err(error))) == Stage::Done(
            Err(
                fault_from(
                    "cannot determine libcupti soname required by libcuprof.so"@,
                    error,
                ),
            ),
        ),
        next_stage(plan, Stage::Listing { needed, dir }, Staged::Listed(None)) == (if dir + 1
            < plan.dirs {
            Stage::Listing { needed, dir: (dir + 1) as usize }
        } else {
            Stage::Done(
                Err(
                    fault(
                        FailureKind::CuptiPluginError,
                        "no vendored libcupti with soname '"@ + needed + "' found in "@
                            + plan.dirs_text,
                    ),
                ),
            )
        }),
{
}

/// The runtimes with the SONAME that is needed, in each directory that a run of
/// events has finished with. One that could not be listed has none.
pub open spec fn finds(plan: Plan, events: Seq<Staged>) -> Seq<Seq<Seq<char>>>
    decreases events.len(),
{
    if events.len() == 0 {
        Seq::empty()
    } else {
        let before = finds(plan, events.drop_last());
        match (stage_after(plan, Stage::Needing, events.drop_last()), events.last()) {
            (Stage::Listing { .. }, Staged::Listed(None)) => before.push(Seq::empty()),
            (Stage::Inspecting { needed, names, .. }, Staged::Sonames(sonames)) => before.push(
                with_soname(names, sonames, needed),
            ),
            _ => before,
        }
    }
}

/// Whether the first `n` directories have nothing.
pub open spec fn nothing_in(found: Seq<Seq<Seq<char>>>, n: int) -> bool {
    &&& n <= found.len()
    &&& forall|d: int| 0 <= d < n ==> #[trigger] found[d].len() == 0
}

/// Whether the last directory is the first one that has something.
pub open spec fn found_last(found: Seq<Seq<Seq<char>>>) -> bool {
    &&& found.len() > 0
    &&& nothing_in(found, found.len() - 1)
    &&& found.last().len() > 0
}

/// Whether a search that has come to nothing has seen every directory.
pub open spec fn seen_all(plan: Plan, events: Seq<Staged>) -> bool {
    &&& events.len() > 0
    &&& finds(plan, events).len() == plan.dirs
    &&& nothing_in(finds(plan, events), plan.dirs as int)
}

/// The runtime is taken from the first directory that has one: in every run, the
/// directories before the one that is copied from have none, and the file is the one
/// to pick out of those that this directory has. A search ends without a runtime only
/// where no directory has one.
pub proof fn law_the_first_directory_with_a_match_is_used(plan: Plan, events: Seq<Staged>)
    ensures
        ({
            let found = finds(plan, events);
            match stage_after(plan, Stage::Needing, events) {
                Stage::Needing => found.len() == 0,
                Stage::Listing { dir, .. } => dir < plan.dirs && found.len() == dir && nothing_in(
                    found,
                    dir as int,
                ),
                Stage::Inspecting { dir, .. } => dir < plan.dirs && found.len() == dir
                    && nothing_in(found, dir as int),
                Stage::Copying { dir, file, .. } => dir < plan.dirs && found.len() == dir + 1
                    && found_last(found) && picks(found[dir as int], plan.preference, file),
                Stage::Renaming { .. } => found_last(found),
                Stage::Cleaning(_) => found_last(found),
                Stage::Done(Ok(_)) => found_last(found),
                Stage::Done(Err(why)) => {
                    ||| found_last(found)
                    ||| found.len() == 0 && exists|error: Seq<char>|
                        why == #[trigger] unknown_need(error)
                    ||| seen_all(plan, events) && exists|needed: Seq<char>|
                        why == #[trigger] nothing_vendored(needed, plan.dirs_text)
                },
            }
        }),
    decreases events.len(),
{
    if events.len() > 0 {
        let shorter = events.drop_last();
        law_the_first_directory_with_a_match_is_used(plan, shorter);
        if let (Stage::Inspecting { needed, names, .. }, Staged::Sonames(sonames)) = (
            stage_after(plan, Stage::Needing, shorter),
            events.last(),
        ) {
            let matching = with_soname(names, sonames, needed);
            if matching.len() > 0 {
                law_there_is_a_pick(matching, plan.preference);
            }
        }
    }
}

/// Where there are directories, and every one of them was seen and has nothing, the
/// search is over and says so.
pub proof fn law_a_search_that_found_nothing_fails(plan: Plan, events: Seq<Staged>)
    requires
        plan.dirs > 0,
        seen_all(plan, events),
    ensures
        exists|needed: Seq<char>|
            stage_after(plan, Stage::Needing, events) == Stage::Done(
                Err(#[trigger] nothing_vendored(needed, plan.dirs_text)),
            ),
{
    law_the_first_directory_with_a_match_is_used(plan, events);
    let found = finds(plan, events);
    if found_last(found) {
        assert(found[found.len() - 1].len() == 0);
    }
    let phase = stage_after(plan, Stage::Needing, events);
    assert(phase matches Stage::Done(r) && r is Err);
    let needed = choose|needed: Seq<char>|
        phase->Done_0->Err_0 == #[trigger] nothing_vendored(needed, plan.dirs_text);
    assert(phase == Stage::Done(Err(nothing_vendored(needed, plan.dirs_text))));
}

/// How many actions are left from a phase on, at most.
pub open spec fn stages_left(plan: Plan, phase: Stage) -> int {
    match phase {
        Stage::Needing => 2 * plan.dirs + 4,
        Stage::Listing { dir, .. } => 2 * (plan.dirs - dir) + 3,
        Stage::Inspecting { dir, .. } => 2 * (plan.dirs - dir) + 2,
        Stage::Copying { .. } => 3,
        Stage::Renaming { .. } => 2,
        Stage::Cleaning(_) => 1,
        Stage::Done(_) => 0,
    }
}

/// Whether a phase is about a directory that there is.
pub open spec fn stage_in_range(plan: Plan, phase: Stage) -> bool {
    match phase {
        Stage::Listing { dir, .. } => dir < plan.dirs,
        Stage::Inspecting { dir, .. } => dir < plan.dirs,
        Stage::Copying { dir, .. } => dir < plan.dirs,
        _ => true,
    }
}

/// Every event about what is being done leads closer to the end, and the search
/// stays among the directories that there are.
pub proof fn law_staging_comes_to_an_end(plan: Plan, phase: Stage, event: Staged)
    requires
        stage_in_range(plan, phase),
    ensures
        stage_in_range(plan, next_stage(plan, phase, event)),
        stage_concerns(event, stage_action(phase)) ==> 0 <= stages_left(
            plan,
            next_stage(plan, phase, event),
        ) < stages_left(plan, phase),
        !stage_concerns(event, stage_action(phase)) ==> next_stage(plan, phase, event) == phase,
{
}

/// The staging of one runtime.
#[derive(Debug)]
pub struct StageRun {
    pub plan: StagePlan,
    pub phase: StagePhase,
}

fn keep_candidates(listing: Vec<String>) -> (r: Vec<String>)
    ensures
        texts(r@) == candidates(texts(listing@)),
{
    let ghost wanted = |name: Seq<char>| CUPTI_FILE_PREFIX@.is_prefix_of(name);
    let ghost all = texts(listing@);
    let mut kept: Vec<String> = Vec::new();
    let mut i: usize = 0;
    proof {
        reveal(Seq::filter);
        assert(all.take(0) =~= Seq::empty());
        assert(texts(kept@) =~= all.take(0).filter(wanted));
    }
    while i < listing.len()
        invariant
            i <= listing.len(),
            all == texts(listing@),
            wanted == (|name: Seq<char>| CUPTI_FILE_PREFIX@.is_prefix_of(name)),
            texts(kept@) == all.take(i as int).filter(wanted),
        decreases listing.len() - i,
    {
        proof {
            reveal(Seq::filter);
            assert(all.take(i + 1).drop_last() =~= all.take(i as int));
            assert(all[i as int] == listing@[i as int]@);
        }
        if begins_with(listing[i].as_str(), CUPTI_FILE_PREFIX) {
            let ghost before = kept@;
            let name = listing[i].clone();
            kept.push(name);
            assert(texts(kept@) =~= texts(before).push(name@));
        }
        i += 1;
    }
    assert(all.take(i as int) =~= all);
    kept
}

fn keep_matching(names: &Vec<String>, sonames: &Vec<Option<String>>, needed: &str) -> (r: Vec<
    String,
>)
    ensures
        texts(r@) == with_soname(
            texts(names@),
            sonames@.map_values(|soname: Option<String>| maybe(soname)),
            needed@,
        ),
{
    let ghost all = texts(names@);
    let ghost read = sonames@.map_values(|soname: Option<String>| maybe(soname));
    let mut kept: Vec<String> = Vec::new();
    let mut i: usize = 0;
    assert(all.take(0) =~= Seq::empty());
    assert(texts(kept@) =~= Seq::empty());
    while i < names.len()
        invariant
            i <= names.len(),
            all == texts(names@),
            read == sonames@.map_values(|soname: Option<String>| maybe(soname)),
            texts(kept@) == with_soname(all.take(i as int), read, needed@),
        decreases names.len() - i,
    {
        assert(all.take(i + 1).drop_last() =~= all.take(i as int));
        assert(all[i as int] == names@[i as int]@);
        let matches: bool = if i < sonames.len() {
            assert(read[i as int] == maybe(sonames@[i as int]));
            match &sonames[i] {
                Some(soname) => same_text(soname.as_str(), needed),
                None => false,
            }
        } else {
            false
        };
        if matches {
            let ghost before = kept@;
            let name = names[i].clone();
            kept.push(name);
            assert(texts(kept@) =~= texts(before).push(name@));
        }
        i += 1;
    }
    assert(all.take(i as int) =~= all);
    kept
}

impl StageRun {
    /// Begins to stage a runtime. `unique` tells one copy of the agent `agent_pid`
    /// for `target_pid` from another.
    pub fn stage_cupti_runtime(
        target_pid: i32,
        agent_pid: u32,
        unique: u128,
        preference: CuptiPreference,
        dirs: usize,
        dirs_text: String,
    ) -> (r: StageRun)
        ensures
            r.plan@ == (Plan {
                target_pid,
                staging: in_tmp(target_pid, staging_name(agent_pid, unique, target_pid)),
                preference: preference@,
                dirs,
                dirs_text: dirs_text@,
            }),
            r.phase@ == Stage::Needing,
    {
        let name = cupti_staging_name(agent_pid, target_pid, unique);
        StageRun {
            plan: StagePlan {
                target_pid,
                staging: tmp_path(target_pid, name.as_str()),
                preference,
                dirs,
                dirs_text,
            },
            phase: StagePhase::Needing,
        }
    }

    /// What is to be done next.
    pub fn action(&self) -> (r: StageAction)
        ensures
            r == stage_action(self.phase@),
    {
        match &self.phase {
            StagePhase::Needing => StageAction::ReadNeeded,
            StagePhase::Listing { .. } => StageAction::ListDir,
            StagePhase::Inspecting { .. } => StageAction::ReadSonames,
            StagePhase::Copying { .. } => StageAction::Copy,
            StagePhase::Renaming { .. } => StageAction::Rename,
            StagePhase::Cleaning(_) => StageAction::RemoveStaging,
            StagePhase::Done(_) => StageAction::Finish,
        }
    }

    /// Where a runtime with the SONAME `needed` is renamed to.
    pub fn final_path(&self, needed: &str) -> (r: String)
        ensures
            r@ == in_tmp(self.plan.target_pid, needed@),
    {
        tmp_path(self.plan.target_pid, needed)
    }

    fn look_in(plan: &StagePlan, needed: String, dir: usize) -> (r: StagePhase)
        ensures
            r@ == search_from(plan@, needed@, dir as int),
    {
        if dir < plan.dirs {
            StagePhase::Listing { needed, dir }
        } else {
            let mut message = "no vendored libcupti with soname '".to_owned();
            message.append(needed.as_str());
            message.append("' found in ");
            message.append(plan.dirs_text.as_str());
            StagePhase::Done(Err(Failure::of(FailureKind::CuptiPluginError, message)))
        }
    }

    fn look_after(plan: &StagePlan, needed: String, dir: usize) -> (r: StagePhase)
        ensures
            r@ == search_from(plan@, needed@, dir + 1),
    {
        if dir < plan.dirs {
            Self::look_in(plan, needed, dir + 1)
        } else {
            Self::look_in(plan, needed, dir)
        }
    }

    /// Takes in how the last action went.
    pub fn step(self, event: StageEvent) -> (r: StageRun)
        ensures
            r.plan@ == self.plan@,
            r.phase@ == next_stage(self.plan@, self.phase@, event@),
    {
        let StageRun { plan, phase } = self;
        let phase = match (phase, event) {
            (StagePhase::Needing, StageEvent::Needed(Ok(needed))) => Self::look_in(
                &plan,
                needed,
                0,
            ),
            (StagePhase::Needing, StageEvent::Needed(Err(error))) => StagePhase::Done(
                Err(
                    Failure::from_error(
                        "cannot determine libcupti soname required by libcuprof.so".to_owned(),
                        error,
                    ),
                ),
            ),
            (StagePhase::Listing { needed, dir }, StageEvent::Listed(Some(listing))) => {
                let names = keep_candidates(listing);
                StagePhase::Inspecting { needed, dir, names }
            },
            (StagePhase::Listing { needed, dir }, StageEvent::Listed(None)) => Self::look_after(
                &plan,
                needed,
                dir,
            ),
            (
                StagePhase::Inspecting { needed, dir, names },
                StageEvent::Sonames(sonames),
            ) => {
                let matching = keep_matching(&names, &sonames, needed.as_str());
                match pick_cupti_candidate(matching.as_slice(), &plan.preference) {
                    Some(file) => {
                        proof {
                            lemma_chosen(texts(matching@), plan.preference@, file@);
                        }
                        let file = file.to_owned();
                        StagePhase::Copying { needed, dir, file }
                    },
                    None => Self::look_after(&plan, needed, dir),
                }
            },
            (StagePhase::Copying { needed, .. }, StageEvent::Copied(r)) => match r {
                Ok(_) => StagePhase::Renaming { needed },
                Err(error) => {
                    let mut message = "failed to stage ".to_owned();
                    message.append(needed.as_str());
                    message.append(" for target");
                    StagePhase::Cleaning(Failure::from_error(message, error))
                },
            },
            (StagePhase::Renaming { needed }, StageEvent::Renamed(r)) => match r {
                Ok(_) => StagePhase::Done(Ok(())),
                Err(error) => {
                    let mut message = "failed to move staged ".to_owned();
                    message.append(needed.as_str());
                    message.append(" into place at ");
                    message.append(tmp_path(plan.target_pid, needed.as_str()).as_str());
                    StagePhase::Cleaning(Failure::from_error(message, error))
                },
            },
            (StagePhase::Cleaning(failure), StageEvent::Cleaned) => StagePhase::Done(Err(failure)),
            (other, _) => other,
        };
        StageRun { plan, phase }
    }
}

} // verus!
