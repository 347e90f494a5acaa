//! The current-tracking summary: resolve the tracked activity against the
//! activities list and render one human-readable status line.

use vstd::prelude::*;

use crate::digits::{append_two_digit, two_digit};
use crate::model::{ActivitiesResponse, Activity, ActivityV, ApiError, CurrentTrackingV, NoteV,
    TrackingResponse};

verus! {

/// The line printed when nothing is being tracked.
pub open spec fn nothing_tracked_chars() -> Seq<char> {
    "Nothing is being tracked\n"@
}

/// The first activity of the list whose `id` equals the given one.
pub open spec fn find_by_id(acts: Seq<ActivityV>, id: Seq<char>) -> Option<ActivityV>
    decreases acts.len(),
{
    if acts.len() == 0 {
        None
    } else if acts[0].id == id {
        Some(acts[0])
    } else {
        find_by_id(acts.drop_first(), id)
    }
}

/// The first activity of the list whose `name` equals the given one.
pub open spec fn find_by_name(acts: Seq<ActivityV>, name: Seq<char>) -> Option<ActivityV>
    decreases acts.len(),
{
    if acts.len() == 0 {
        None
    } else if acts[0].name == name {
        Some(acts[0])
    } else {
        find_by_name(acts.drop_first(), name)
    }
}

/// Whole minutes elapsed between `started_at` and `now` (both in seconds
/// since the Unix epoch); zero when the clock appears to have gone backwards.
pub open spec fn elapsed_minutes(started_at: nat, now: nat) -> nat {
    if now >= started_at {
        ((now - started_at) / 60) as nat
    } else {
        0
    }
}

/// The hour field of the summary, taken modulo 60 rather than modulo 24:
/// the wrap at sixty hours is this client's documented behaviour.
pub open spec fn hours_field(started_at: nat, now: nat) -> nat {
    elapsed_minutes(started_at, now) / 60 % 60
}

/// The minute field of the summary.
pub open spec fn minutes_field(started_at: nat, now: nat) -> nat {
    elapsed_minutes(started_at, now) % 60
}

/// The note text shown in the summary: empty when the note or its text is absent.
pub open spec fn note_text_spec(note: Option<NoteV>) -> Seq<char> {
    match note {
        Some(n) => match n.text {
            Some(t) => t,
            None => Seq::<char>::empty(),
        },
        None => Seq::<char>::empty(),
    }
}

/// The summary line for a tracked activity: `[HH:MM] <name>: <note>\n`.
pub open spec fn summary_chars(hh: nat, mm: nat, name: Seq<char>, note: Seq<char>) -> Seq<char> {
    "["@ + two_digit(hh) + ":"@ + two_digit(mm) + "] "@ + name + ": "@ + note + "\n"@
}

/// What the summary of a tracking state is: the fixed line when nothing is
/// tracked, the rendered line when the tracked activity resolves, and
/// nothing (an error) when its id is absent from the activities list.
pub open spec fn summary_spec(
    cur: Option<CurrentTrackingV>,
    acts: Seq<ActivityV>,
    now: nat,
) -> Option<Seq<char>> {
    match cur {
        None => Some(nothing_tracked_chars()),
        Some(c) => match find_by_id(acts, c.activity_id) {
            None => None,
            Some(a) => Some(
                summary_chars(
                    hours_field(c.started_at, now),
                    minutes_field(c.started_at, now),
                    a.name,
                    note_text_spec(c.note),
                ),
            ),
        },
    }
}

/// The elapsed fields of the summary depend on the start and the clock only
/// through their difference: for a delta of `d` seconds the hour field is
/// `d / 60 / 60 % 60` and the minute field is `d / 60 % 60`, whatever the
/// two instants are.
pub proof fn lemma_elapsed_fields_from_delta(started_at: nat, now: nat, d: nat)
    requires
        started_at + d == now,
    ensures
        elapsed_minutes(started_at, now) == d / 60,
        hours_field(started_at, now) == d / 60 / 60 % 60,
        minutes_field(started_at, now) == d / 60 % 60,
{
}

/// The rendered summary of a resolved tracking record is exactly the line
/// built from the delta's hour and minute fields, the resolved activity's
/// name, and the note text; the activity's id itself never appears unless
/// it occurs in those parts.
pub proof fn lemma_summary_of_resolved(
    c: CurrentTrackingV,
    acts: Seq<ActivityV>,
    now: nat,
    a: ActivityV,
)
    requires
        find_by_id(acts, c.activity_id) == Some(a),
    ensures
        summary_spec(Some(c), acts, now) == Some(
            summary_chars(
                hours_field(c.started_at, now),
                minutes_field(c.started_at, now),
                a.name,
                note_text_spec(c.note),
            ),
        ),
{
}

/// Ids are unique in an activities list: the data model's invariant that
/// a tracked activity id resolves to exactly one activity.
pub open spec fn ids_unique(acts: Seq<ActivityV>) -> bool {
    forall|i: int, j: int|
        #![trigger acts[i].id, acts[j].id]
        0 <= i < acts.len() && 0 <= j < acts.len() && acts[i].id == acts[j].id ==> i == j
}

/// Under unique ids, resolving an id that the list carries finds exactly
/// the activity holding it, wherever it stands in the list.
pub proof fn lemma_find_by_id_unique(acts: Seq<ActivityV>, k: int)
    requires
        ids_unique(acts),
        0 <= k < acts.len(),
    ensures
        find_by_id(acts, acts[k].id) == Some(acts[k]),
    decreases acts.len(),
{
    if k > 0 {
        assert(acts[0].id != acts[k].id);
        let tail = acts.drop_first();
        assert(ids_unique(tail)) by {
            assert forall|i: int, j: int|
                0 <= i < tail.len() && 0 <= j < tail.len() && #[trigger] tail[i].id
                    == #[trigger] tail[j].id implies i == j by {
                assert(tail[i] == acts[i + 1]);
                assert(tail[j] == acts[j + 1]);
            }
        }
        assert(tail[k - 1] == acts[k]);
        lemma_find_by_id_unique(tail, k - 1);
    }
}

/// A list whose ids are unique and which carries the tracked record's
/// `activityId` has its summary rendered with exactly that activity's
/// name — never with the raw id, whichever position the activity holds.
pub proof fn lemma_summary_renders_matching_name(
    c: CurrentTrackingV,
    acts: Seq<ActivityV>,
    now: nat,
    k: int,
)
    requires
        ids_unique(acts),
        0 <= k < acts.len(),
        acts[k].id == c.activity_id,
    ensures
        find_by_id(acts, c.activity_id) == Some(acts[k]),
        summary_spec(Some(c), acts, now) == Some(
            summary_chars(
                hours_field(c.started_at, now),
                minutes_field(c.started_at, now),
                acts[k].name,
                note_text_spec(c.note),
            ),
        ),
{
    lemma_find_by_id_unique(acts, k);
}

proof fn lemma_find_by_id_skip(acts: Seq<ActivityV>, id: Seq<char>, i: int)
    requires
        0 <= i < acts.len(),
        acts[i].id != id,
        find_by_id(acts, id) == find_by_id(acts.skip(i), id),
    ensures
        find_by_id(acts, id) == find_by_id(acts.skip(i + 1), id),
{
    assert(acts.skip(i).drop_first() =~= acts.skip(i + 1));
    assert(acts.skip(i)[0] == acts[i]);
}

proof fn lemma_find_by_name_skip(acts: Seq<ActivityV>, name: Seq<char>, i: int)
    requires
        0 <= i < acts.len(),
        acts[i].name != name,
        find_by_name(acts, name) == find_by_name(acts.skip(i), name),
    ensures
        find_by_name(acts, name) == find_by_name(acts.skip(i + 1), name),
{
    assert(acts.skip(i).drop_first() =~= acts.skip(i + 1));
    assert(acts.skip(i)[0] == acts[i]);
}

/// Find the first activity whose `id` equals `id`.
pub fn find_activity_by_id<'a>(activities: &'a Vec<Activity>, id: &String) -> (r: Option<
    &'a Activity,
>)
    ensures
        match r {
            Some(a) => find_by_id(activities@.map_values(|x: Activity| x@), id@) == Some(a@),
            None => find_by_id(activities@.map_values(|x: Activity| x@), id@) is None,
        },
{
    let ghost av = activities@.map_values(|x: Activity| x@);
    proof {
        assert(av.skip(0) =~= av);
    }
    let mut i: usize = 0;
    while i < activities.len()
        invariant
            i <= activities.len(),
            av == activities@.map_values(|x: Activity| x@),
            find_by_id(av, id@) == find_by_id(av.skip(i as int), id@),
        decreases activities.len() - i,
    {
        if activities[i].id.eq(id) {
            proof {
                assert(av.skip(i as int)[0] == av[i as int]);
            }
            return Some(&activities[i]);
        }
        proof {
            lemma_find_by_id_skip(av, id@, i as int);
        }
        i = i + 1;
    }
    proof {
        assert(av.skip(av.len() as int) =~= Seq::<ActivityV>::empty());
    }
    None
}

/// Resolve an activity name (exact, case-sensitive) against the list,
/// taking the first match; a miss is an `ActivityNotFound` error carrying
/// the name, and no start-tracking request can be built from it.
pub fn resolve_activity<'a>(activities: &'a Vec<Activity>, name: &String) -> (r: Result<
    &'a Activity,
    ApiError,
>)
    ensures
        match r {
            Ok(a) => find_by_name(activities@.map_values(|x: Activity| x@), name@) == Some(a@),
            Err(e) => find_by_name(activities@.map_values(|x: Activity| x@), name@) is None
                && (e matches ApiError::ActivityNotFound { name: n } && n@ == name@),
        },
{
    let ghost av = activities@.map_values(|x: Activity| x@);
    proof {
        assert(av.skip(0) =~= av);
    }
    let mut i: usize = 0;
    while i < activities.len()
        invariant
            i <= activities.len(),
            av == activities@.map_values(|x: Activity| x@),
            find_by_name(av, name@) == find_by_name(av.skip(i as int), name@),
        decreases activities.len() - i,
    {
        if activities[i].name.eq(name) {
            proof {
                assert(av.skip(i as int)[0] == av[i as int]);
            }
            return Ok(&activities[i]);
        }
        proof {
            lemma_find_by_name_skip(av, name@, i as int);
        }
        i = i + 1;
    }
    proof {
        assert(av.skip(av.len() as int) =~= Seq::<ActivityV>::empty());
    }
    Err(ApiError::ActivityNotFound { name: name.clone() })
}

/// Render the current-tracking state as one line, against the given clock
/// reading (seconds since the Unix epoch): the fixed line when nothing is
/// tracked, `[HH:MM] <name>: <note>\n` when the tracked activity resolves,
/// and an `ActivityNotFound` error carrying the unresolved id otherwise.
pub fn cur_tracking_str(
    tracking: &TrackingResponse,
    activities: &ActivitiesResponse,
    now_secs: u64,
) -> (r: Result<String, ApiError>)
    ensures
        match r {
            Ok(s) => summary_spec(tracking@, activities@, now_secs as nat) == Some(s@),
            Err(e) => summary_spec(tracking@, activities@, now_secs as nat) is None && (match tracking.current_tracking {
                Some(c) => e matches ApiError::ActivityNotFound { name: n } && n@ == c.activity_id@,
                None => false,
            }),
        },
{
    match &tracking.current_tracking {
        None => Ok(String::from_str("Nothing is being tracked\n")),
        Some(cur) => {
            match find_activity_by_id(&activities.activities, &cur.activity_id) {
                None => Err(ApiError::ActivityNotFound { name: cur.activity_id.clone() }),
                Some(activity) => {
                    let delta: u64 = if now_secs >= cur.started_at {
                        now_secs - cur.started_at
                    } else {
                        0
                    };
                    let mins: u64 = delta / 60;
                    let hh: u64 = mins / 60 % 60;
                    let mm: u64 = mins % 60;
                    let mut out = String::new();
                    out.append("[");
                    append_two_digit(&mut out, hh);
                    out.append(":");
                    append_two_digit(&mut out, mm);
                    out.append("] ");
                    out.append(activity.name.as_str());
                    out.append(": ");
                    match &cur.note {
                        Some(n) => match &n.text {
                            Some(t) => out.append(t.as_str()),
                            None => (),
                        },
                        None => (),
                    }
                    out.append("\n");
                    proof {
                        assert(out@ =~= summary_chars(
                            hours_field(cur.started_at as nat, now_secs as nat),
                            minutes_field(cur.started_at as nat, now_secs as nat),
                            activity.name@,
                            note_text_spec(cur@.note),
                        ));
                    }
                    Ok(out)
                },
            }
        },
    }
}

} // verus!
