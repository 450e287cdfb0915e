//! Planning the import of recordings from an earlier data folder: which
//! existing folders count as copies of a recording, and the id a recording
//! gets when its own id is taken.

use vstd::prelude::*;
use vstd::relations::injective_on;
use vstd::set_lib::{lemma_int_range, lemma_len_subset, lemma_map_size, set_int_range};

use crate::meetings::state::start::contains_string;
use super::model::{ThreadMetadata, ThreadStatus};
use crate::text::{
    all_ascii_digits, chars_of, decimal, is_ascii_digit, lemma_decimal_digits,
    lemma_decimal_injective, push_decimal, push_str, str_eq,
};

verus! {

/// `<original>-imported`: the id of the first preserved copy.
pub open spec fn imported_id(original: Seq<char>) -> Seq<char> {
    original + "-imported"@
}

/// `<original>-imported-<n>`: the id of a further preserved copy.
pub open spec fn numbered_import_id(original: Seq<char>, n: nat) -> Seq<char> {
    imported_id(original).push('-') + decimal(n)
}

/// Whether `candidate` is `original` itself or one of its preserved copies:
/// `<original>-imported`, or `<original>-imported-` followed by one or more
/// ASCII digits.
pub open spec fn import_variant(original: Seq<char>, candidate: Seq<char>) -> bool {
    let prefix = imported_id(original);
    let suffix = candidate.skip(prefix.len() as int);
    ||| candidate == original
    ||| {
        &&& prefix.is_prefix_of(candidate)
        &&& (suffix.len() == 0 || (suffix.len() > 1 && suffix[0] == '-' && all_ascii_digits(
            suffix.skip(1),
        )))
    }
}

fn has_prefix(s: &Vec<char>, prefix: &Vec<char>) -> (r: bool)
    ensures
        r == prefix@.is_prefix_of(s@),
{
    if prefix.len() > s.len() {
        return false;
    }
    let mut i: usize = 0;
    while i < prefix.len()
        invariant
            i <= prefix@.len() <= s@.len(),
            forall|j: int| 0 <= j < i ==> prefix@[j] == s@[j],
        decreases prefix@.len() - i,
    {
        if prefix[i] != s[i] {
            return false;
        }
        i = i + 1;
    }
    proof {
        assert(prefix@ =~= s@.take(prefix@.len() as int));
    }
    true
}

fn digits_from(s: &Vec<char>, from: usize) -> (r: bool)
    requires
        from <= s@.len(),
    ensures
        r == all_ascii_digits(s@.skip(from as int)),
{
    let mut i = from;
    while i < s.len()
        invariant
            from <= i <= s@.len(),
            forall|j: int| from <= j < i ==> is_ascii_digit(#[trigger] s@[j]),
        decreases s@.len() - i,
    {
        let c = s[i];
        if !('0' <= c && c <= '9') {
            proof {
                assert(s@.skip(from as int)[i - from] == c);
            }
            return false;
        }
        i = i + 1;
    }
    proof {
        assert forall|j: int| 0 <= j < s@.skip(from as int).len() implies is_ascii_digit(
            #[trigger] s@.skip(from as int)[j],
        ) by {
            assert(s@.skip(from as int)[j] == s@[from + j]);
        }
    }
    true
}

/// Whether `candidate` is `original` or one of its preserved copies.
pub fn is_import_variant(original_id: &str, candidate: &str) -> (r: bool)
    ensures
        r == import_variant(original_id@, candidate@),
{
    if str_eq(candidate, original_id) {
        return true;
    }
    let mut prefix_text = original_id.to_owned();
    push_str(&mut prefix_text, "-imported");
    let prefix = chars_of(prefix_text.as_str());
    let chars = chars_of(candidate);
    if !has_prefix(&chars, &prefix) {
        return false;
    }
    let n = prefix.len();
    let ghost suffix = chars@.skip(n as int);
    if chars.len() == n {
        proof {
            assert(suffix.len() == 0);
        }
        return true;
    }
    if chars[n] != '-' || chars.len() == n + 1 {
        proof {
            assert(suffix[0] == chars@[n as int]);
        }
        return false;
    }
    let digits = digits_from(&chars, n + 1);
    proof {
        assert(suffix[0] == chars@[n as int]);
        assert(suffix.skip(1) =~= chars@.skip(n + 1));
    }
    digits
}

/// The id for a preserved copy of `original`.
fn import_id(original: &str, n: u64) -> (r: String)
    ensures
        n < 2 ==> r@ == imported_id(original@),
        n >= 2 ==> r@ == numbered_import_id(original@, n as nat),
{
    let mut id = original.to_owned();
    push_str(&mut id, "-imported");
    if n >= 2 {
        crate::text::push_char(&mut id, '-');
        push_decimal(&mut id, n);
    }
    id
}

/// Only the original id and its preserved copies count as copies of a
/// recording: `<original>-imported`, or `<original>-imported-` followed by
/// one or more ASCII digits; anything else after the original (another word,
/// letters after the dash, a bare dash) does not.
pub proof fn only_preserved_copies_are_recognised(original: Seq<char>, candidate: Seq<char>)
    ensures
        import_variant(original, candidate) ==> candidate == original || {
            let n = original.len() as int;
            &&& candidate.len() >= n + 9
            &&& candidate.subrange(0, n) == original
            &&& candidate.subrange(n, n + 9) == seq!['-', 'i', 'm', 'p', 'o', 'r', 't', 'e', 'd']
            &&& candidate.len() > n + 9 ==> candidate.len() >= n + 11 && candidate[n + 9] == '-'
                && forall|k: int| n + 10 <= k < candidate.len() ==> '0' <= #[trigger] candidate[k] <= '9'
        },
{
    reveal_strlit("-imported");
    let n = original.len() as int;
    let p = imported_id(original);
    assert(p =~= original + seq!['-', 'i', 'm', 'p', 'o', 'r', 't', 'e', 'd']);
    if import_variant(original, candidate) && candidate != original {
        assert(p.is_prefix_of(candidate));
        assert(candidate.subrange(0, n) =~= p.subrange(0, n));
        assert(candidate.subrange(n, n + 9) =~= p.subrange(n, n + 9));
        let suffix = candidate.skip(n + 9);
        if candidate.len() > n + 9 {
            assert(suffix[0] == candidate[n + 9]);
            assert forall|k: int| n + 10 <= k < candidate.len() implies '0' <= #[trigger] candidate[k]
                <= '9' by {
                assert(candidate[k] == suffix.skip(1)[k - n - 10]);
            }
        }
    }
}

/// The `n`-th id tried for a copy of `original`: `imported_id` first, then
/// `numbered_import_id` from 2 on.
pub open spec fn import_candidate(original: Seq<char>, n: int) -> Seq<char> {
    if n < 2 {
        imported_id(original)
    } else {
        numbered_import_id(original, n as nat)
    }
}

/// The ids tried for copies of `original` are all different.
pub proof fn lemma_import_candidates_distinct(original: Seq<char>, a: int, b: int)
    requires
        1 <= a,
        1 <= b,
        import_candidate(original, a) == import_candidate(original, b),
    ensures
        a == b,
{
    let p = imported_id(original);
    if a >= 2 {
        lemma_decimal_digits(a as nat);
    }
    if b >= 2 {
        lemma_decimal_digits(b as nat);
    }
    if a >= 2 && b >= 2 {
        let ca = import_candidate(original, a);
        assert(ca.skip(p.len() as int + 1) =~= decimal(a as nat));
        assert(import_candidate(original, b).skip(p.len() as int + 1) =~= decimal(b as nat));
        lemma_decimal_injective(a as nat, b as nat);
    } else if a >= 2 {
        assert(import_candidate(original, a).len() > p.len());
    } else if b >= 2 {
        assert(import_candidate(original, b).len() > p.len());
    }
}

/// Every preserved copy's id is recognised as a copy of its original.
pub proof fn preserved_copies_are_recognised(original: Seq<char>, n: int)
    requires
        1 <= n,
    ensures
        import_variant(original, import_candidate(original, n)),
{
    let p = imported_id(original);
    let c = import_candidate(original, n);
    assert(p.is_prefix_of(c)) by {
        assert(c.take(p.len() as int) =~= p);
    }
    if n >= 2 {
        lemma_decimal_digits(n as nat);
        let suffix = c.skip(p.len() as int);
        assert(suffix[0] == '-');
        assert(suffix.skip(1) =~= decimal(n as nat));
    } else {
        assert(c.skip(p.len() as int).len() == 0);
    }
}

/// The first id tried for a copy of `original` that `occupied` does not hold:
/// `<original>-imported`, else `<original>-imported-<n>` for the least `n`
/// from 2 on. One is always free, since `occupied` is finite.
pub fn allocate_import_id(original: &str, occupied: &Vec<String>) -> (r: String)
    requires
        occupied@.len() + 2 <= u64::MAX,
    ensures
        !occupied.deep_view().contains(r@),
        exists|n: int|
            #![trigger import_candidate(original@, n)]
            1 <= n && r@ == import_candidate(original@, n) && forall|m: int|
                1 <= m < n ==> occupied.deep_view().contains(#[trigger] import_candidate(original@, m)),
{
    let first = import_id(original, 1);
    if !contains_string(occupied, &first) {
        proof {
            assert(r_is(first@, original@, occupied.deep_view(), 1));
        }
        return first;
    }
    let ghost occ = occupied.deep_view();
    let n = occupied.len() as u64;
    let mut k: u64 = 2;
    while k <= n + 1
        invariant
            2 <= k <= n + 2,
            n == occupied@.len(),
            n + 2 <= u64::MAX,
            occ == occupied.deep_view(),
            forall|m: int| 1 <= m < k ==> occ.contains(#[trigger] import_candidate(original@, m)),
        decreases n + 2 - k,
    {
        let id = import_id(original, k);
        if !contains_string(occupied, &id) {
            proof {
                assert(r_is(id@, original@, occ, k as int));
            }
            return id;
        }
        k = k + 1;
    }
    proof {
        // Every one of the n + 1 ids tried is taken, yet `occupied` holds only n.
        let f = |m: int| import_candidate(original@, m);
        let tried = set_int_range(1, n + 2);
        lemma_int_range(1, n + 2);
        assert(injective_on(f, tried)) by {
            assert forall|a: int, b: int|
                tried.contains(a) && tried.contains(b) && #[trigger] f(a) == #[trigger] f(b) implies a
                == b by {
                lemma_import_candidates_distinct(original@, a, b);
            }
        }
        let ids = tried.map(f);
        lemma_map_size(tried, ids, f);
        assert(ids.subset_of(occ.to_set())) by {
            assert forall|s: Seq<char>| ids.contains(s) implies occ.to_set().contains(s) by {
                let m = choose|m: int| tried.contains(m) && f(m) == s;
                assert(occ.contains(import_candidate(original@, m)));
            }
        }
        lemma_len_subset(ids, occ.to_set());
        occ.lemma_cardinality_of_set();
        assert(occ.len() == n);
        assert(false);
    }
    first
}

/// `id` is the `n`-th id tried for `original`, and every earlier one is taken.
pub open spec fn r_is(id: Seq<char>, original: Seq<char>, occupied: Seq<Seq<char>>, n: int) -> bool {
    &&& 1 <= n
    &&& id == import_candidate(original, n)
    &&& forall|m: int| 1 <= m < n ==> occupied.contains(#[trigger] import_candidate(original, m))
}

/// Which store of the earlier data folder a recording comes from.
#[derive(Clone, Copy, Debug, PartialEq, Eq, Structural)]
pub enum RecordingStore {
    Active,
    Archived,
}

/// A recording the import will copy.
#[derive(Clone, Debug, PartialEq, Eq)]
pub struct PlannedCopy {
    /// The id (and folder name) the copy gets.
    pub destination_id: String,
    /// Set when the recording's own id was taken.
    pub replacement_id: Option<String>,
}

/// An import plan being drawn up, recording by recording.
pub struct PlanDraft {
    /// Every id taken at the destination, including those the plan assigns.
    pub occupied_ids: Vec<String>,
    pub duplicates: usize,
    pub conflicts: usize,
    pub active_recordings: usize,
    pub archived_recordings: usize,
    pub bytes_to_copy: u64,
}

impl PlanDraft {
    /// An empty plan over a destination that already holds `existing_ids`.
    pub fn new(existing_ids: Vec<String>) -> (r: PlanDraft)
        ensures
            r.occupied_ids == existing_ids,
            r.duplicates == 0,
            r.conflicts == 0,
            r.active_recordings == 0,
            r.archived_recordings == 0,
            r.bytes_to_copy == 0,
    {
        PlanDraft {
            occupied_ids: existing_ids,
            duplicates: 0,
            conflicts: 0,
            active_recordings: 0,
            archived_recordings: 0,
            bytes_to_copy: 0,
        }
    }

    /// The taken ids that may already hold a copy of `original_id`, in order:
    /// those whose folders are to be compared with the recording.
    pub fn copy_candidates(&self, original_id: &str) -> (r: Vec<String>)
        ensures
            r.deep_view() == self.occupied_ids.deep_view().filter(
                |c: Seq<char>| import_variant(original_id@, c),
            ),
    {
        let ghost all = self.occupied_ids.deep_view();
        let mut r: Vec<String> = Vec::new();
        let mut i: usize = 0;
        while i < self.occupied_ids.len()
            invariant
                i <= self.occupied_ids@.len(),
                all == self.occupied_ids.deep_view(),
                r.deep_view() == all.take(i as int).filter(
                    |c: Seq<char>| import_variant(original_id@, c),
                ),
            decreases self.occupied_ids@.len() - i,
        {
            let id = &self.occupied_ids[i];
            let keep = is_import_variant(original_id, id.as_str());
            if keep {
                r.push(crate::text::copy_string(id));
            }
            proof {
                reveal(Seq::filter);
                let p = |c: Seq<char>| import_variant(original_id@, c);
                assert(all.take(i + 1).drop_last() =~= all.take(i as int));
                assert(all.take(i + 1).last() == id@);
                if keep {
                    assert(r.deep_view() =~= all.take(i as int).filter(p).push(id@));
                } else {
                    assert(r.deep_view() =~= all.take(i as int).filter(p));
                }
                assert(all.take(i + 1).filter(p) == if p(id@) {
                    all.take(i as int).filter(p).push(id@)
                } else {
                    all.take(i as int).filter(p)
                });
            }
            i = i + 1;
        }
        proof {
            assert(all.take(i as int) =~= all);
        }
        r
    }

    /// The id a recording gets when `original_id` is already taken (counting
    /// the conflict), or `None` when it is free.
    pub fn replacement_id(&mut self, original_id: &str) -> (r: Option<String>)
        requires
            old(self).occupied_ids@.len() + 2 <= u64::MAX,
            old(self).conflicts < usize::MAX,
        ensures
            final(self).occupied_ids == old(self).occupied_ids,
            final(self).duplicates == old(self).duplicates,
            final(self).active_recordings == old(self).active_recordings,
            final(self).archived_recordings == old(self).archived_recordings,
            final(self).bytes_to_copy == old(self).bytes_to_copy,
            !old(self).occupied_ids.deep_view().contains(original_id@) ==> r is None
                && final(self).conflicts == old(self).conflicts,
            old(self).occupied_ids.deep_view().contains(original_id@) ==> final(self).conflicts
                == old(self).conflicts + 1 && (r matches Some(id) && !old(
                self,
            ).occupied_ids.deep_view().contains(id@) && exists|n: int|
                r_is(id@, original_id@, old(self).occupied_ids.deep_view(), n)),
    {
        let original = original_id.to_owned();
        if !contains_string(&self.occupied_ids, &original) {
            return None;
        }
        self.conflicts = self.conflicts + 1;
        let id = allocate_import_id(original_id, &self.occupied_ids);
        proof {
            let n = choose|n: int|
                #![trigger import_candidate(original_id@, n)]
                1 <= n && id@ == import_candidate(original_id@, n) && forall|m: int|
                    1 <= m < n ==> self.occupied_ids.deep_view().contains(
                        #[trigger] import_candidate(original_id@, m),
                    );
            assert(r_is(id@, original_id@, self.occupied_ids.deep_view(), n));
            assert(self.occupied_ids.deep_view() == old(self).occupied_ids.deep_view());
            assert(!old(self).occupied_ids.deep_view().contains(id@));
            assert(exists|n: int| r_is(id@, original_id@, old(self).occupied_ids.deep_view(), n));
        }
        let r = Some(id);
        proof {
            assert(r matches Some(x) && !old(self).occupied_ids.deep_view().contains(x@) && exists|
                n: int,
            | r_is(x@, original_id@, old(self).occupied_ids.deep_view(), n));
        }
        r
    }

    /// Adds one recording of `store` to the plan. A recording of which a copy
    /// already exists (`already_copied`) only counts as a duplicate; any other
    /// is planned under its own id, or a replacement when that is taken, and
    /// its id becomes taken.
    pub fn add_recording(
        &mut self,
        store: RecordingStore,
        original_id: &str,
        already_copied: bool,
        bytes: u64,
    ) -> (r: Option<PlannedCopy>)
        requires
            old(self).occupied_ids@.len() + 2 <= u64::MAX,
            old(self).duplicates < usize::MAX,
            old(self).conflicts < usize::MAX,
            old(self).active_recordings < usize::MAX,
            old(self).archived_recordings < usize::MAX,
            old(self).bytes_to_copy + bytes <= u64::MAX,
        ensures
            already_copied ==> r is None && final(self).duplicates == old(self).duplicates + 1
                && final(self).occupied_ids == old(self).occupied_ids && final(self).conflicts
                == old(self).conflicts && final(self).active_recordings == old(
                self,
            ).active_recordings && final(self).archived_recordings == old(
                self,
            ).archived_recordings && final(self).bytes_to_copy == old(self).bytes_to_copy,
            !already_copied ==> (r matches Some(copy) && {
                &&& final(self).duplicates == old(self).duplicates
                &&& final(self).bytes_to_copy == old(self).bytes_to_copy + bytes
                &&& final(self).active_recordings == old(self).active_recordings + (if store
                    == RecordingStore::Active {
                    1int
                } else {
                    0int
                })
                &&& final(self).archived_recordings == old(self).archived_recordings + (if store
                    == RecordingStore::Archived {
                    1int
                } else {
                    0int
                })
                &&& final(self).occupied_ids.deep_view() == old(
                    self,
                ).occupied_ids.deep_view().push(copy.destination_id@)
                &&& !old(self).occupied_ids.deep_view().contains(copy.destination_id@)
                &&& if old(self).occupied_ids.deep_view().contains(original_id@) {
                    &&& final(self).conflicts == old(self).conflicts + 1
                    &&& copy.replacement_id matches Some(id) && id@ == copy.destination_id@
                    &&& exists|n: int|
                        r_is(copy.destination_id@, original_id@, old(self).occupied_ids.deep_view(), n)
                } else {
                    &&& final(self).conflicts == old(self).conflicts
                    &&& copy.replacement_id is None
                    &&& copy.destination_id@ == original_id@
                }
            }),
    {
        if already_copied {
            self.duplicates = self.duplicates + 1;
            return None;
        }
        let replacement_id = self.replacement_id(original_id);
        let destination_id = match &replacement_id {
            Some(id) => crate::text::copy_string(id),
            None => original_id.to_owned(),
        };
        let ghost before = self.occupied_ids.deep_view();
        self.occupied_ids.push(crate::text::copy_string(&destination_id));
        proof {
            assert(self.occupied_ids.deep_view() =~= before.push(destination_id@));
        }
        self.bytes_to_copy = self.bytes_to_copy + bytes;
        match store {
            RecordingStore::Active => self.active_recordings = self.active_recordings + 1,
            RecordingStore::Archived => self.archived_recordings = self.archived_recordings + 1,
        }
        Some(PlannedCopy { destination_id, replacement_id })
    }
}

/// Why a folder cannot be imported from, if it cannot: it must be the earlier
/// `.just-notes` folder itself (`folder_name` is its last path component,
/// `None` when that is not valid Unicode) and hold a recordings store.
pub open spec fn source_error(folder_name: Option<Seq<char>>, threads_store_exists: bool, archive_exists: bool) -> Option<Seq<char>> {
    if folder_name != Some(".just-notes"@) {
        Some("Choose the existing .just-notes folder"@)
    } else if !threads_store_exists && !archive_exists {
        Some("The selected folder does not contain Just Notes recordings"@)
    } else {
        None
    }
}

/// Checks the folder chosen to import from.
pub fn validate_source(folder_name: Option<&str>, threads_store_exists: bool, archive_exists: bool) -> (r: Result<(), String>)
    ensures
        match source_error(
            match folder_name {
                Some(n) => Some(n@),
                None => None,
            },
            threads_store_exists,
            archive_exists,
        ) {
            None => r is Ok,
            Some(m) => r matches Err(e) && e@ == m,
        },
{
    let named = match folder_name {
        Some(name) => str_eq(name, ".just-notes"),
        None => false,
    };
    if !named {
        return Err(crate::text::owned("Choose the existing .just-notes folder"));
    }
    if !threads_store_exists && !archive_exists {
        return Err(crate::text::owned("The selected folder does not contain Just Notes recordings"));
    }
    Ok(())
}

impl PlanDraft {
    /// A plan is refused when the source held no recordings at all.
    pub fn finish(&self) -> (r: Result<(), String>)
        ensures
            (self.active_recordings == 0 && self.archived_recordings == 0 && self.duplicates == 0)
                ==> (r matches Err(e) && e@ == "The selected legacy data contains no recordings"@),
            !(self.active_recordings == 0 && self.archived_recordings == 0 && self.duplicates == 0)
                ==> r is Ok,
    {
        if self.active_recordings == 0 && self.archived_recordings == 0 && self.duplicates == 0 {
            Err(crate::text::owned("The selected legacy data contains no recordings"))
        } else {
            Ok(())
        }
    }
}

/// The metadata of an imported recording: under its replacement id when its
/// own was taken, and idle, since an interrupted recording does not carry on.
pub fn normalize_imported_metadata(metadata: &mut ThreadMetadata, replacement_id: Option<String>)
    ensures
        *final(metadata) == (ThreadMetadata {
            id: match replacement_id {
                Some(id) => id,
                None => old(metadata).id,
            },
            status: ThreadStatus::Idle,
            ..*old(metadata)
        }),
{
    match replacement_id {
        Some(id) => metadata.id = id,
        None => {},
    }
    metadata.status = ThreadStatus::Idle;
}

/// The next step of installing the planned copies, one by one.
#[derive(Clone, Debug, PartialEq, Eq)]
pub enum InstallStep {
    /// Install the planned copy with this index.
    Install(usize),
    /// Every copy is installed.
    Finished,
    /// Installing failed: remove the installed copies with these indices, in
    /// this order (latest first), then report `error`.
    RollBack { undo: Vec<usize>, error: String },
}

/// The indices `n - 1` down to 0.
pub open spec fn latest_first(n: nat) -> Seq<usize>
    decreases n,
{
    if n == 0 {
        Seq::empty()
    } else {
        seq![(n - 1) as usize] + latest_first((n - 1) as nat)
    }
}

/// Decides what follows the installation of copy `current` of `total`: the
/// next copy, the end, or, on failure, the removal of every copy installed
/// before it, latest first.
pub fn install_step(current: usize, total: usize, outcome: Result<(), String>) -> (r: InstallStep)
    requires
        current < total,
    ensures
        match outcome {
            Ok(()) => if current + 1 < total {
                r == InstallStep::Install((current + 1) as usize)
            } else {
                r == InstallStep::Finished
            },
            Err(e) => r matches InstallStep::RollBack { undo, error } && undo@ == latest_first(
                current as nat,
            ) && error == e,
        },
{
    match outcome {
        Ok(()) => if current + 1 < total {
            InstallStep::Install(current + 1)
        } else {
            InstallStep::Finished
        },
        Err(error) => {
            let mut undo: Vec<usize> = Vec::new();
            let mut k = current;
            while k > 0
                invariant
                    k <= current,
                    undo@ + latest_first(k as nat) == latest_first(current as nat),
                decreases k,
            {
                proof {
                    assert(latest_first(k as nat) == seq![(k - 1) as usize] + latest_first(
                        (k - 1) as nat,
                    ));
                    assert(undo@.push((k - 1) as usize) + latest_first((k - 1) as nat) =~= undo@
                        + latest_first(k as nat));
                }
                undo.push(k - 1);
                k = k - 1;
            }
            proof {
                assert(latest_first(0) =~= Seq::<usize>::empty());
                assert(undo@ + latest_first(0) =~= undo@);
            }
            InstallStep::RollBack { undo, error }
        },
    }
}

/// `parts` joined with `separator` between consecutive parts.
pub open spec fn joined_with(parts: Seq<Seq<char>>, separator: Seq<char>) -> Seq<char>
    decreases parts.len(),
{
    if parts.len() == 0 {
        Seq::empty()
    } else if parts.len() == 1 {
        parts[0]
    } else {
        joined_with(parts.drop_last(), separator) + separator + parts.last()
    }
}

/// The error an import that failed reports: the failure, and the removals
/// that failed while rolling back, if any.
pub open spec fn import_failure_spec(error: Seq<char>, rollback_errors: Seq<Seq<char>>) -> Seq<char> {
    if rollback_errors.len() == 0 {
        error + "."@
    } else {
        error + "."@ + " Rollback was incomplete: "@ + joined_with(rollback_errors, "; "@)
    }
}

/// The error an import that failed reports.
pub fn import_failure_message(error: &str, rollback_errors: &Vec<String>) -> (r: String)
    ensures
        r@ == import_failure_spec(error@, rollback_errors.deep_view()),
{
    let mut message = error.to_owned();
    message.append(".");
    if rollback_errors.len() == 0 {
        return message;
    }
    message.append(" Rollback was incomplete: ");
    let ghost head = message@;
    let ghost parts = rollback_errors.deep_view();
    let mut i: usize = 0;
    while i < rollback_errors.len()
        invariant
            i <= rollback_errors@.len(),
            parts == rollback_errors.deep_view(),
            message@ == head + joined_with(parts.take(i as int), "; "@),
        decreases rollback_errors@.len() - i,
    {
        let ghost before = message@;
        if i > 0 {
            message.append("; ");
        }
        message.append(rollback_errors[i].as_str());
        proof {
            assert(parts.take(i + 1).drop_last() =~= parts.take(i as int));
            assert(parts.take(i + 1).last() == rollback_errors@[i as int]@);
            if i == 0 {
                assert(parts.take(0) =~= Seq::<Seq<char>>::empty());
                assert(joined_with(parts.take(1), "; "@) == parts.take(1)[0]);
                assert(message@ =~= head + joined_with(parts.take(i + 1), "; "@));
            } else {
                assert(message@ =~= head + joined_with(parts.take(i + 1), "; "@));
            }
        }
        i = i + 1;
    }
    proof {
        assert(parts.take(i as int) =~= parts);
    }
    message
}

/// A failed import undoes every copy it installed, each once, latest first.
pub proof fn rollback_removes_every_installed_copy(installed: nat)
    requires
        installed <= usize::MAX,
    ensures
        latest_first(installed).len() == installed,
        forall|i: int| 0 <= i < installed ==> #[trigger] latest_first(installed)[i] == installed - 1 - i,
    decreases installed,
{
    if installed > 0 {
        rollback_removes_every_installed_copy((installed - 1) as nat);
        let rest = latest_first((installed - 1) as nat);
        assert forall|i: int| 0 <= i < installed implies #[trigger] latest_first(installed)[i]
            == installed - 1 - i by {
            if i > 0 {
                assert(latest_first(installed)[i] == rest[i - 1]);
            }
        }
    }
}

} // verus!
