//! Creating threads: the folder name a new thread gets, and its first
//! metadata.

use vstd::prelude::*;

use super::model::{CalendarProvenance, RetrievalReadiness, ThreadMetadata, ThreadStatus};
use super::title::{normalized_external_title, validated_title, validated_title_spec};
use crate::text::{decimal, owned, push_decimal, push_str};

verus! {

/// How many folder names are tried for a new thread.
pub const MAX_THREAD_DIR_ATTEMPTS: u64 = 1000;

/// The folder name tried at `attempt` for a thread created at `now_ms`:
/// `thread-<now>`, then `thread-<now>-<attempt>`.
pub open spec fn thread_id_candidate(now_ms: u64, attempt: u64) -> Seq<char> {
    if attempt == 0 {
        "thread-"@ + decimal(now_ms as nat)
    } else {
        "thread-"@ + decimal(now_ms as nat) + "-"@ + decimal(attempt as nat)
    }
}

/// Every folder name tried for a new thread is different: a retry never
/// reuses an earlier attempt's name, and all of them start with
/// `thread-<now>`.
pub proof fn thread_folder_names_differ_by_attempt(now_ms: u64, a: u64, b: u64)
    ensures
        thread_id_candidate(now_ms, a) == thread_id_candidate(now_ms, b) ==> a == b,
        ("thread-"@ + decimal(now_ms as nat)).is_prefix_of(thread_id_candidate(now_ms, a)),
{
    let p = "thread-"@ + decimal(now_ms as nat);
    reveal_strlit("-");
    crate::text::lemma_decimal_digits(a as nat);
    crate::text::lemma_decimal_digits(b as nat);
    let ca = thread_id_candidate(now_ms, a);
    let cb = thread_id_candidate(now_ms, b);
    assert(ca.take(p.len() as int) =~= p);
    if ca == cb && a != b {
        if a == 0 {
            assert(cb.len() > p.len());
        } else if b == 0 {
            assert(ca.len() > p.len());
        } else {
            assert(ca == p + "-"@ + decimal(a as nat));
            assert(cb == p + "-"@ + decimal(b as nat));
            assert(ca.skip(p.len() as int + 1) =~= decimal(a as nat));
            assert(cb.skip(p.len() as int + 1) =~= decimal(b as nat));
            crate::text::lemma_decimal_injective(a as nat, b as nat);
        }
    }
}

/// The folder name tried at `attempt`.
pub fn thread_id_candidate_for(now_ms: u64, attempt: u64) -> (r: String)
    ensures
        r@ == thread_id_candidate(now_ms, attempt),
{
    let mut id = owned("thread-");
    push_decimal(&mut id, now_ms);
    if attempt > 0 {
        push_str(&mut id, "-");
        push_decimal(&mut id, attempt);
    }
    id
}

/// What follows `create_dir`'s answer for the name tried at `attempt`.
#[derive(Clone, Debug, PartialEq, Eq)]
pub enum ThreadDirStep {
    /// The folder was made under the name tried.
    Created,
    /// The name was taken: try the name of this attempt next.
    TryNext(u64),
    /// Stop with this error: the one `create_dir` reported, or, once every
    /// name was taken, that none is free.
    Failed(String),
}

/// Decides what follows `create_dir`'s answer for the name tried at
/// `attempt`: a made folder ends the search, a taken name moves on to the
/// next attempt (until `MAX_THREAD_DIR_ATTEMPTS` names were refused), and an
/// error is passed on at once.
pub fn thread_dir_step(attempt: u64, answer: Result<bool, String>) -> (r: ThreadDirStep)
    requires
        attempt < MAX_THREAD_DIR_ATTEMPTS,
    ensures
        match answer {
            Ok(true) => r == ThreadDirStep::Created,
            Ok(false) => if attempt + 1 < MAX_THREAD_DIR_ATTEMPTS {
                r == ThreadDirStep::TryNext((attempt + 1) as u64)
            } else {
                r matches ThreadDirStep::Failed(e) && e@
                    == "Could not allocate a unique thread folder"@
            },
            Err(e) => r == ThreadDirStep::Failed(e),
        },
{
    match answer {
        Ok(true) => ThreadDirStep::Created,
        Ok(false) => if attempt + 1 < MAX_THREAD_DIR_ATTEMPTS {
            ThreadDirStep::TryNext(attempt + 1)
        } else {
            ThreadDirStep::Failed(owned("Could not allocate a unique thread folder"))
        },
        Err(e) => ThreadDirStep::Failed(e),
    }
}

/// `create_dir` gave `answer` for the folder name `name`.
pub open spec fn answered<F: Fn(&str) -> Result<bool, String>>(
    create_dir: F,
    name: Seq<char>,
    answer: Result<bool, String>,
) -> bool {
    exists|n: &str| n@ == name && #[trigger] call_ensures(create_dir, (n,), answer)
}

/// `answers` are what `create_dir` said to the names tried, in order from
/// `thread_id_candidate(now_ms, 0)`, and `r` is what the search makes of them:
/// every answer but the last refused its name; the last either made the
/// folder (whose name is returned), reported an error (which is returned), or
/// was the last of `MAX_THREAD_DIR_ATTEMPTS` refusals ("Could not allocate").
pub open spec fn allocation_outcome<F: Fn(&str) -> Result<bool, String>>(
    now_ms: u64,
    create_dir: F,
    answers: Seq<Result<bool, String>>,
    r: Result<String, String>,
) -> bool {
    &&& 1 <= answers.len() <= MAX_THREAD_DIR_ATTEMPTS
    &&& forall|j: int|
        0 <= j < answers.len() ==> answered(
            create_dir,
            thread_id_candidate(now_ms, j as u64),
            #[trigger] answers[j],
        )
    &&& forall|j: int| 0 <= j < answers.len() - 1 ==> #[trigger] answers[j] == Ok::<bool, String>(false)
    &&& match answers.last() {
        Ok(true) => r matches Ok(id) && id@ == thread_id_candidate(now_ms, (answers.len() - 1) as u64),
        Err(e) => r == Err::<String, String>(e),
        Ok(false) => answers.len() == MAX_THREAD_DIR_ATTEMPTS && (r matches Err(e) && e@
            == "Could not allocate a unique thread folder"@),
    }
}

/// Creates the folder of a new thread through `create_dir`, which reports
/// `Ok(true)` when it made the folder, `Ok(false)` when the name is taken, or
/// an error. Names are tried in order, `thread-<now>` first, then
/// `thread-<now>-1`, `-2`, ...; the first made folder's name is returned, an
/// error is passed on at once, and after `MAX_THREAD_DIR_ATTEMPTS` taken
/// names the search gives up.
pub fn create_unique_thread_dir<F: Fn(&str) -> Result<bool, String>>(now_ms: u64, create_dir: F) -> (r:
    Result<String, String>)
    requires
        forall|name: &str| call_requires(create_dir, (name,)),
    ensures
        exists|answers: Seq<Result<bool, String>>| #[trigger]
            allocation_outcome(now_ms, create_dir, answers, r),
{
    let ghost mut answers: Seq<Result<bool, String>> = Seq::empty();
    let mut attempt: u64 = 0;
    loop
        invariant
            attempt < MAX_THREAD_DIR_ATTEMPTS,
            answers.len() == attempt,
            forall|name: &str| call_requires(create_dir, (name,)),
            forall|j: int|
                0 <= j < answers.len() ==> answered(
                    create_dir,
                    thread_id_candidate(now_ms, j as u64),
                    #[trigger] answers[j],
                ),
            forall|j: int| 0 <= j < answers.len() ==> #[trigger] answers[j] == Ok::<bool, String>(false),
        decreases MAX_THREAD_DIR_ATTEMPTS - attempt,
    {
        let id = thread_id_candidate_for(now_ms, attempt);
        let name = id.as_str();
        let answer = create_dir(name);
        proof {
            assert(name@ == id@ && call_ensures(create_dir, (name,), answer));
            assert(answered(create_dir, thread_id_candidate(now_ms, attempt), answer));
            answers = answers.push(answer);
            assert(answers[attempt as int] == answer);
        }
        let ghost answer0 = answer;
        match thread_dir_step(attempt, answer) {
            ThreadDirStep::Created => {
                proof {
                    assert(allocation_outcome(now_ms, create_dir, answers, Ok::<String, String>(id)));
                }
                return Ok(id);
            },
            ThreadDirStep::TryNext(next) => {
                attempt = next;
            },
            ThreadDirStep::Failed(e) => {
                proof {
                    assert(allocation_outcome(now_ms, create_dir, answers, Err::<String, String>(e)));
                }
                return Err(e);
            },
        }
    }
}

/// The metadata of a thread created at `now_ms` under `id`: idle, empty, not
/// yet retrievable.
pub open spec fn new_thread_metadata(
    id: String,
    title: String,
    now_ms: u64,
    calendar: Option<CalendarProvenance>,
) -> ThreadMetadata {
    ThreadMetadata {
        id,
        title,
        created_at_ms: now_ms,
        updated_at_ms: now_ms,
        status: ThreadStatus::Idle,
        retrieval_readiness: RetrievalReadiness::Unavailable,
        duration_ms: 0,
        calendar,
    }
}

/// The metadata of a new thread titled `title` (validated), created at
/// `now_ms` in the folder `id`.
pub fn create_thread_with_title(
    id: String,
    title: &str,
    now_ms: u64,
    calendar: Option<CalendarProvenance>,
) -> (r: Result<ThreadMetadata, String>)
    ensures
        match validated_title_spec(title@) {
            Err(m) => r matches Err(e) && e@ == m,
            Ok(t) => r matches Ok(m) && m.title@ == t && m == new_thread_metadata(
                id,
                m.title,
                now_ms,
                calendar,
            ),
        },
{
    let title = match validated_title(title) {
        Ok(t) => owned(t),
        Err(e) => {
            return Err(e);
        },
    };
    Ok(
        ThreadMetadata {
            id,
            title,
            created_at_ms: now_ms,
            updated_at_ms: now_ms,
            status: ThreadStatus::Idle,
            retrieval_readiness: RetrievalReadiness::Unavailable,
            duration_ms: 0,
            calendar,
        },
    )
}

/// The metadata of a new thread titled "Untitled thread".
pub fn create_thread(id: String, now_ms: u64) -> (r: ThreadMetadata)
    ensures
        r.title@ == "Untitled thread"@,
        r == new_thread_metadata(id, r.title, now_ms, None),
{
    ThreadMetadata {
        id,
        title: owned("Untitled thread"),
        created_at_ms: now_ms,
        updated_at_ms: now_ms,
        status: ThreadStatus::Idle,
        retrieval_readiness: RetrievalReadiness::Unavailable,
        duration_ms: 0,
        calendar: None,
    }
}

/// The metadata of a new thread whose title comes from outside the app (a
/// calendar event): trimmed, cut to 120 characters, "Untitled thread" when
/// blank, then validated like any title. Such a title always passes
/// validation, so this cannot fail.
pub fn create_thread_with_external_title(
    id: String,
    title: &str,
    now_ms: u64,
    calendar: Option<CalendarProvenance>,
) -> (r: ThreadMetadata)
    ensures
        r.title@ == crate::text::trim(super::title::normalized_external_title_spec(title@)),
        r == new_thread_metadata(id, r.title, now_ms, calendar),
{
    let normalized = normalized_external_title(title);
    proof {
        super::title::external_titles_are_valid_titles(title@);
    }
    let r = create_thread_with_title(id, normalized.as_str(), now_ms, calendar);
    match r {
        Ok(m) => m,
        Err(_) => {
            proof {
                assert(false);
            }
            create_thread(String::new(), now_ms)
        },
    }
}

} // verus!
