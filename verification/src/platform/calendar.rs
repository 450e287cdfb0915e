//! Calendar data as EventKit reports it, access checks, and result ordering.

use vstd::prelude::*;

use crate::meetings::model::copy_strings;
use crate::sorting::{insert_sorted, lemma_insert_sorted_at, stable_sorted};
use crate::meetings::state::start::contains_string;
use crate::text::{
    chars_of, compare_chars, copy_string, decimal, owned, push_decimal, push_str, seq_lt,
    str_eq, Order,
};

verus! {

/// A calendar the user can select.
#[derive(Clone, Debug, PartialEq, Eq)]
pub struct CalendarInfo {
    pub id: String,
    pub title: String,
    pub account: String,
    pub color: String,
}

pub struct CalendarInfoView {
    pub id: Seq<char>,
    pub title: Seq<char>,
    pub account: Seq<char>,
    pub color: Seq<char>,
}

impl View for CalendarInfo {
    type V = CalendarInfoView;

    open spec fn view(&self) -> CalendarInfoView {
        CalendarInfoView {
            id: self.id@,
            title: self.title@,
            account: self.account@,
            color: self.color@,
        }
    }
}

/// One invitee as EventKit reports it. Both identity forms are surfaced so the
/// caller can decide which to prefer and who to keep.
#[derive(Clone, Debug, PartialEq, Eq)]
pub struct CalendarParticipant {
    pub name: Option<String>,
    pub email: Option<String>,
    pub is_current_user: bool,
}

pub struct ParticipantView {
    pub name: Option<Seq<char>>,
    pub email: Option<Seq<char>>,
    pub is_current_user: bool,
}

pub open spec fn string_opt(o: Option<String>) -> Option<Seq<char>> {
    match o {
        Some(s) => Some(s@),
        None => None,
    }
}

impl View for CalendarParticipant {
    type V = ParticipantView;

    open spec fn view(&self) -> ParticipantView {
        ParticipantView {
            name: string_opt(self.name),
            email: string_opt(self.email),
            is_current_user: self.is_current_user,
        }
    }
}

/// An occurrence of a calendar event.
#[derive(Clone, Debug, PartialEq, Eq)]
pub struct CalendarEvent {
    pub id: String,
    pub calendar_id: String,
    pub title: String,
    pub start_at_ms: u64,
    pub end_at_ms: u64,
    pub all_day: bool,
    pub canceled: bool,
    pub free: bool,
    pub current_user_declined: bool,
    pub participants: Vec<CalendarParticipant>,
}

pub struct EventView {
    pub id: Seq<char>,
    pub calendar_id: Seq<char>,
    pub title: Seq<char>,
    pub start_at_ms: u64,
    pub end_at_ms: u64,
    pub all_day: bool,
    pub canceled: bool,
    pub free: bool,
    pub current_user_declined: bool,
    pub participants: Seq<ParticipantView>,
}

impl View for CalendarEvent {
    type V = EventView;

    open spec fn view(&self) -> EventView {
        EventView {
            id: self.id@,
            calendar_id: self.calendar_id@,
            title: self.title@,
            start_at_ms: self.start_at_ms,
            end_at_ms: self.end_at_ms,
            all_day: self.all_day,
            canceled: self.canceled,
            free: self.free,
            current_user_declined: self.current_user_declined,
            participants: self.participants@.map_values(|p: CalendarParticipant| p@),
        }
    }
}

pub open spec fn event_views(s: Seq<CalendarEvent>) -> Seq<EventView> {
    s.map_values(|e: CalendarEvent| e@)
}

pub open spec fn calendar_views(s: Seq<CalendarInfo>) -> Seq<CalendarInfoView> {
    s.map_values(|c: CalendarInfo| c@)
}

/// The calendar authorization states EventKit reports.
#[derive(Clone, Copy, Debug, PartialEq, Eq, Structural)]
pub enum CalendarAuthorization {
    FullAccess,
    Denied,
    Restricted,
    NotDetermined,
    WriteOnly,
    Other,
}

pub open spec fn authorization_label(status: CalendarAuthorization) -> Seq<char> {
    match status {
        CalendarAuthorization::FullAccess => "authorized"@,
        CalendarAuthorization::Denied => "denied"@,
        CalendarAuthorization::Restricted => "restricted"@,
        CalendarAuthorization::NotDetermined => "notDetermined"@,
        CalendarAuthorization::WriteOnly => "writeOnly"@,
        CalendarAuthorization::Other => "unknown"@,
    }
}

/// The label the frontend shows for a calendar authorization state; only
/// full access counts as authorized.
pub fn authorization_status(status: CalendarAuthorization) -> (r: String)
    ensures
        r@ == authorization_label(status),
{
    match status {
        CalendarAuthorization::FullAccess => owned("authorized"),
        CalendarAuthorization::Denied => owned("denied"),
        CalendarAuthorization::Restricted => owned("restricted"),
        CalendarAuthorization::NotDetermined => owned("notDetermined"),
        CalendarAuthorization::WriteOnly => owned("writeOnly"),
        CalendarAuthorization::Other => owned("unknown"),
    }
}

/// Why calendar data cannot be read under the authorization labelled
/// `status`, if it cannot.
pub open spec fn authorization_error(status: Seq<char>) -> Option<Seq<char>> {
    if status == "authorized"@ {
        None
    } else if status == "denied"@ {
        Some("Calendar access is denied in System Settings"@)
    } else if status == "restricted"@ {
        Some("Calendar access is restricted by macOS policy"@)
    } else {
        Some("Calendar access has not been granted"@)
    }
}

/// Succeeds only under full calendar access.
pub fn ensure_authorized(status: &str) -> (r: Result<(), String>)
    ensures
        match authorization_error(status@) {
            None => r is Ok,
            Some(m) => r matches Err(e) && e@ == m,
        },
{
    if str_eq(status, "authorized") {
        Ok(())
    } else if str_eq(status, "denied") {
        Err(owned("Calendar access is denied in System Settings"))
    } else if str_eq(status, "restricted") {
        Err(owned("Calendar access is restricted by macOS policy"))
    } else {
        Err(owned("Calendar access has not been granted"))
    }
}

/// Event `a` goes after event `b`: it starts later.
pub open spec fn starts_after(a: EventView, b: EventView) -> bool {
    a.start_at_ms > b.start_at_ms
}

/// Events ordered by start time, ties kept in the order reported.
pub open spec fn events_by_start(s: Seq<EventView>) -> Seq<EventView> {
    stable_sorted(s, event_order())
}

/// The "goes after" relation of `events_by_start`.
pub open spec fn event_order() -> spec_fn(EventView, EventView) -> bool {
    |a: EventView, b: EventView| starts_after(a, b)
}

/// Calendar `a` goes after calendar `b`: by account, then by title.
pub open spec fn calendar_after(a: CalendarInfoView, b: CalendarInfoView) -> bool {
    ||| seq_lt(b.account, a.account)
    ||| a.account == b.account && seq_lt(b.title, a.title)
}

/// Calendars ordered by account and title, ties kept in the order reported.
pub open spec fn calendars_by_account(s: Seq<CalendarInfoView>) -> Seq<CalendarInfoView> {
    stable_sorted(s, calendar_order())
}

/// The "goes after" relation of `calendars_by_account`.
pub open spec fn calendar_order() -> spec_fn(CalendarInfoView, CalendarInfoView) -> bool {
    |a: CalendarInfoView, b: CalendarInfoView| calendar_after(a, b)
}

/// Sorts events by start time, stably.
pub fn sort_events_by_start(events: Vec<CalendarEvent>) -> (r: Vec<CalendarEvent>)
    ensures
        event_views(r@) == events_by_start(event_views(events@)),
{
    let ghost after = event_order();
    let ghost input = event_views(events@);
    let mut sorted: Vec<CalendarEvent> = Vec::new();
    let mut rest = events;
    proof {
        assert(event_views(sorted@) =~= events_by_start(input.take(0)));
    }
    let n = rest.len();
    let mut i: usize = 0;
    while i < n
        invariant
            n == input.len(),
            i <= n,
            event_views(rest@) == input.skip(i as int),
            rest@.len() == n - i,
            event_views(sorted@) == events_by_start(input.take(i as int)),
            after == event_order(),
        decreases n - i,
    {
        let ghost r0 = rest@;
        proof {
            assert(event_views(r0)[0] == input.skip(i as int)[0]);
        }
        let x = rest.remove(0);
        proof {
            assert(x == r0[0]);
            assert(x@ == input[i as int]);
            assert(input.skip(i + 1) =~= input.skip(i as int).drop_first());
            assert(event_views(rest@) =~= input.skip(i + 1));
            assert(input.take(i + 1).drop_last() =~= input.take(i as int));
        }
        let mut p = sorted.len();
        while p > 0 && sorted[p - 1].start_at_ms > x.start_at_ms
            invariant
                after == event_order(),
                p <= sorted@.len(),
                forall|k: int| p <= k < sorted@.len() ==> after(#[trigger] event_views(sorted@)[k], x@),
            decreases p,
        {
            proof {
                assert(event_views(sorted@)[p - 1] == sorted@[p - 1]@);
            }
            p = p - 1;
        }
        proof {
            if p > 0 {
                assert(event_views(sorted@)[p - 1] == sorted@[p - 1]@);
            }
            lemma_insert_sorted_at(event_views(sorted@), x@, p as int, after);
            assert(event_views(sorted@.insert(p as int, x)) =~= event_views(sorted@).insert(
                p as int,
                x@,
            ));
        }
        sorted.insert(p, x);
        i = i + 1;
    }
    proof {
        assert(input.take(n as int) =~= input);
    }
    sorted
}

/// Sorts calendars by account, then title, stably.
pub fn sort_calendars(calendars: Vec<CalendarInfo>) -> (r: Vec<CalendarInfo>)
    ensures
        calendar_views(r@) == calendars_by_account(calendar_views(calendars@)),
{
    let ghost after = calendar_order();
    let ghost input = calendar_views(calendars@);
    let mut sorted: Vec<CalendarInfo> = Vec::new();
    let mut rest = calendars;
    proof {
        assert(calendar_views(sorted@) =~= calendars_by_account(input.take(0)));
    }
    let n = rest.len();
    let mut i: usize = 0;
    while i < n
        invariant
            n == input.len(),
            i <= n,
            calendar_views(rest@) == input.skip(i as int),
            rest@.len() == n - i,
            calendar_views(sorted@) == calendars_by_account(input.take(i as int)),
            after == calendar_order(),
        decreases n - i,
    {
        let ghost r0 = rest@;
        proof {
            assert(calendar_views(r0)[0] == input.skip(i as int)[0]);
        }
        let x = rest.remove(0);
        proof {
            assert(x == r0[0]);
            assert(x@ == input[i as int]);
            assert(input.skip(i + 1) =~= input.skip(i as int).drop_first());
            assert(calendar_views(rest@) =~= input.skip(i + 1));
            assert(input.take(i + 1).drop_last() =~= input.take(i as int));
        }
        let x_account = chars_of(x.account.as_str());
        let x_title = chars_of(x.title.as_str());
        let mut p = sorted.len();
        while p > 0 && goes_after(&sorted[p - 1], &x_account, &x_title)
            invariant
                after == calendar_order(),
                p <= sorted@.len(),
                x_account@ == x@.account,
                x_title@ == x@.title,
                forall|k: int|
                    p <= k < sorted@.len() ==> after(#[trigger] calendar_views(sorted@)[k], x@),
            decreases p,
        {
            proof {
                assert(calendar_views(sorted@)[p - 1] == sorted@[p - 1]@);
            }
            p = p - 1;
        }
        proof {
            if p > 0 {
                assert(calendar_views(sorted@)[p - 1] == sorted@[p - 1]@);
            }
            lemma_insert_sorted_at(calendar_views(sorted@), x@, p as int, after);
            assert(calendar_views(sorted@.insert(p as int, x)) =~= calendar_views(sorted@).insert(
                p as int,
                x@,
            ));
        }
        sorted.insert(p, x);
        i = i + 1;
    }
    proof {
        assert(input.take(n as int) =~= input);
    }
    sorted
}

/// Whether calendar `c` goes after a calendar with the given account and title.
fn goes_after(c: &CalendarInfo, account: &Vec<char>, title: &Vec<char>) -> (r: bool)
    ensures
        r == (seq_lt(account@, c@.account) || (c@.account == account@ && seq_lt(title@, c@.title))),
{
    let a = chars_of(c.account.as_str());
    match compare_chars(&a, account) {
        Order::Greater => true,
        Order::Less => false,
        Order::Equal => {
            let t = chars_of(c.title.as_str());
            match compare_chars(&t, title) {
                Order::Greater => true,
                _ => false,
            }
        },
    }
}

/// The selectable calendars, read through `fetch` only under full access,
/// ordered by account and then title.
pub fn list_calendars<F: FnOnce() -> Result<Vec<CalendarInfo>, String>>(status: &str, fetch: F) -> (r:
    Result<Vec<CalendarInfo>, String>)
    requires
        authorization_error(status@) is None ==> call_requires(fetch, ()),
    ensures
        authorization_error(status@) matches Some(m) ==> (r matches Err(e) && e@ == m),
        authorization_error(status@) is None ==> exists|w: Result<Vec<CalendarInfo>, String>|
            {
                &&& call_ensures(fetch, (), w)
                &&& match w {
                    Err(e) => r == Err::<Vec<CalendarInfo>, String>(e),
                    Ok(c) => r matches Ok(v) && calendar_views(v@) == calendars_by_account(
                        calendar_views(c@),
                    ),
                }
            },
{
    ensure_authorized(status)?;
    let w = fetch();
    match w {
        Ok(calendars) => Ok(sort_calendars(calendars)),
        Err(e) => Err(e),
    }
}

/// The events of the selected calendars in `[from_ms, to_ms)`, read through
/// `fetch` only under full access and for a non-empty query, ordered by start.
pub fn upcoming_events<F: FnOnce(Vec<String>, u64, u64) -> Result<Vec<CalendarEvent>, String>>(
    status: &str,
    calendar_ids: &Vec<String>,
    from_ms: u64,
    to_ms: u64,
    fetch: F,
) -> (r: Result<Vec<CalendarEvent>, String>)
    requires
        forall|ids: Vec<String>|
            ids.deep_view() == calendar_ids.deep_view() ==> call_requires(fetch, (ids, from_ms, to_ms)),
    ensures
        authorization_error(status@) matches Some(m) ==> (r matches Err(e) && e@ == m),
        authorization_error(status@) is None && (calendar_ids@.len() == 0 || from_ms >= to_ms) ==> (
        r matches Ok(v) && v@.len() == 0),
        authorization_error(status@) is None && calendar_ids@.len() > 0 && from_ms < to_ms ==> exists|
            ids: Vec<String>,
            w: Result<Vec<CalendarEvent>, String>,
        |
            {
                &&& ids.deep_view() == calendar_ids.deep_view()
                &&& call_ensures(fetch, (ids, from_ms, to_ms), w)
                &&& match w {
                    Err(e) => r == Err::<Vec<CalendarEvent>, String>(e),
                    Ok(evs) => r matches Ok(v) && event_views(v@) == events_by_start(
                        event_views(evs@),
                    ),
                }
            },
{
    ensure_authorized(status)?;
    if calendar_ids.len() == 0 || from_ms >= to_ms {
        return Ok(Vec::new());
    }
    let ids = copy_strings(calendar_ids);
    let ghost ids_v = ids;
    let w = fetch(ids, from_ms, to_ms);
    match w {
        Ok(events) => {
            let sorted = sort_events_by_start(events);
            Ok(sorted)
        },
        Err(e) => Err(e),
    }
}

/// Events are listed by start time: each starts no later than the next, and
/// the listing holds exactly the events read.
pub proof fn events_are_listed_by_start(events: Seq<EventView>)
    ensures
        forall|i: int, j: int|
            0 <= i < j < events_by_start(events).len() ==> (#[trigger] events_by_start(events)[i]).start_at_ms
                <= (#[trigger] events_by_start(events)[j]).start_at_ms,
        events_by_start(events).to_multiset() == events.to_multiset(),
{
    crate::sorting::lemma_stable_sorted_in_order(events, event_order());
    let r = events_by_start(events);
    assert forall|i: int, j: int| 0 <= i < j < r.len() implies (#[trigger] r[i]).start_at_ms
        <= (#[trigger] r[j]).start_at_ms by {
        assert(!event_order()(r[i], r[j]));
    }
}

/// The id of one occurrence of an event: the event's identifier, a colon,
/// and the occurrence's start in milliseconds.
pub open spec fn occurrence_id(event_id: Seq<char>, start_at_ms: u64) -> Seq<char> {
    event_id + ":"@ + decimal(start_at_ms as nat)
}

/// Two occurrences of one event that start at different times have
/// different ids.
pub proof fn occurrences_of_an_event_have_distinct_ids(event_id: Seq<char>, a: u64, b: u64)
    ensures
        occurrence_id(event_id, a) == occurrence_id(event_id, b) ==> a == b,
{
    let p = event_id + ":"@;
    let ca = occurrence_id(event_id, a);
    let cb = occurrence_id(event_id, b);
    if ca == cb {
        assert(ca.skip(p.len() as int) =~= decimal(a as nat));
        assert(cb.skip(p.len() as int) =~= decimal(b as nat));
        crate::text::lemma_decimal_injective(a as nat, b as nat);
    }
}

/// The event occurrence EventKit described with these fields, or `None` for
/// an occurrence that does not end after it starts.
pub fn event_from_parts(
    event_id: &str,
    calendar_id: String,
    title: String,
    start_at_ms: u64,
    end_at_ms: u64,
    all_day: bool,
    canceled: bool,
    free: bool,
    current_user_declined: bool,
    participants: Vec<CalendarParticipant>,
) -> (r: Option<CalendarEvent>)
    ensures
        end_at_ms <= start_at_ms ==> r is None,
        end_at_ms > start_at_ms ==> (r matches Some(e) && e@ == (EventView {
            id: occurrence_id(event_id@, start_at_ms),
            calendar_id: calendar_id@,
            title: title@,
            start_at_ms,
            end_at_ms,
            all_day,
            canceled,
            free,
            current_user_declined,
            participants: participants@.map_values(|p: CalendarParticipant| p@),
        })),
{
    if end_at_ms <= start_at_ms {
        return None;
    }
    let mut id = owned(event_id);
    push_str(&mut id, ":");
    push_decimal(&mut id, start_at_ms);
    Some(
        CalendarEvent {
            id,
            calendar_id,
            title,
            start_at_ms,
            end_at_ms,
            all_day,
            canceled,
            free,
            current_user_declined,
            participants,
        },
    )
}

/// The calendars among `available` (by identifier) that the user selected.
pub fn selected_calendars(available: &Vec<String>, selected_ids: &Vec<String>) -> (r: Vec<String>)
    ensures
        r.deep_view() == available.deep_view().filter(
            |c: Seq<char>| selected_ids.deep_view().contains(c),
        ),
{
    let ghost all = available.deep_view();
    let ghost p = |c: Seq<char>| selected_ids.deep_view().contains(c);
    let mut r: Vec<String> = Vec::new();
    let mut i: usize = 0;
    while i < available.len()
        invariant
            i <= available@.len(),
            all == available.deep_view(),
            p == (|c: Seq<char>| selected_ids.deep_view().contains(c)),
            r.deep_view() == all.take(i as int).filter(p),
        decreases available@.len() - i,
    {
        let keep = contains_string(selected_ids, &available[i]);
        if keep {
            r.push(copy_string(&available[i]));
        }
        proof {
            reveal(Seq::filter);
            assert(all.take(i + 1).drop_last() =~= all.take(i as int));
            assert(all.take(i + 1).last() == available@[i as int]@);
            if keep {
                assert(r.deep_view() =~= all.take(i as int).filter(p).push(available@[i as int]@));
            } else {
                assert(r.deep_view() =~= all.take(i as int).filter(p));
            }
        }
        i = i + 1;
    }
    proof {
        assert(all.take(i as int) =~= all);
    }
    r
}

/// Calendars are listed by account and then by title, and the listing holds
/// exactly the calendars read.
pub proof fn calendars_are_listed_by_account(calendars: Seq<CalendarInfoView>)
    ensures
        forall|i: int, j: int|
            0 <= i < j < calendars_by_account(calendars).len() ==> !calendar_after(
                #[trigger] calendars_by_account(calendars)[i],
                #[trigger] calendars_by_account(calendars)[j],
            ),
        forall|i: int, j: int|
            0 <= i < j < calendars_by_account(calendars).len() ==> {
                let a = #[trigger] calendars_by_account(calendars)[i];
                let b = #[trigger] calendars_by_account(calendars)[j];
                !seq_lt(b.account, a.account) && (a.account == b.account ==> !seq_lt(
                    b.title,
                    a.title,
                ))
            },
        calendars_by_account(calendars).to_multiset() == calendars.to_multiset(),
{
    assert(crate::sorting::orders(calendar_order())) by {
        assert forall|a: CalendarInfoView, b: CalendarInfoView|
            #[trigger] calendar_order()(a, b) implies !calendar_order()(b, a) by {
            crate::text::lemma_seq_lt_irreflexive(a.account);
            crate::text::lemma_seq_lt_irreflexive(a.title);
            if seq_lt(b.account, a.account) && seq_lt(a.account, b.account) {
                crate::text::lemma_seq_lt_trans(a.account, b.account, a.account);
            }
            if seq_lt(b.title, a.title) && seq_lt(a.title, b.title) {
                crate::text::lemma_seq_lt_trans(a.title, b.title, a.title);
            }
        }
        assert forall|a: CalendarInfoView, b: CalendarInfoView, c: CalendarInfoView|
            !(#[trigger] calendar_order()(a, b)) && !(#[trigger] calendar_order()(b, c)) implies !(
            #[trigger] calendar_order()(a, c)) by {
            crate::text::lemma_seq_le_trans(a.account, b.account, c.account);
            if a.account == c.account {
                crate::text::lemma_seq_le_antisymmetric(a.account, b.account);
                crate::text::lemma_seq_le_trans(a.title, b.title, c.title);
            }
        }
    }
    crate::sorting::lemma_stable_sorted_in_order(calendars, calendar_order());
    let r = calendars_by_account(calendars);
    assert forall|i: int, j: int| 0 <= i < j < r.len() implies !calendar_after(
        #[trigger] r[i],
        #[trigger] r[j],
    ) by {
        assert(!calendar_order()(r[i], r[j]));
    }
}

} // verus!
