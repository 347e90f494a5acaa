//! The record types of the service's data model, as plain values, with
//! ghost views over sequences so that contracts can speak of their contents.

use vstd::prelude::*;

verus! {

/// A tag or mention attached to a note.
pub struct Tag {
    pub id: u64,
    pub key: String,
    pub label: String,
    pub scope: String,
    pub space_id: String,
}

/// Ghost view of a `Tag`.
pub ghost struct TagV {
    pub id: nat,
    pub key: Seq<char>,
    pub label: Seq<char>,
    pub scope: Seq<char>,
    pub space_id: Seq<char>,
}

impl View for Tag {
    type V = TagV;

    open spec fn view(&self) -> TagV {
        TagV {
            id: self.id as nat,
            key: self.key@,
            label: self.label@,
            scope: self.scope@,
            space_id: self.space_id@,
        }
    }
}

/// The note attached to a tracking record.
pub struct Note {
    pub text: Option<String>,
    pub tags: Vec<Tag>,
    pub mentions: Vec<Tag>,
}

/// Ghost view of a `Note`.
pub ghost struct NoteV {
    pub text: Option<Seq<char>>,
    pub tags: Seq<TagV>,
    pub mentions: Seq<TagV>,
}

impl View for Note {
    type V = NoteV;

    open spec fn view(&self) -> NoteV {
        NoteV {
            text: match self.text {
                Some(t) => Some(t@),
                None => None,
            },
            tags: self.tags@.map_values(|t: Tag| t@),
            mentions: self.mentions@.map_values(|t: Tag| t@),
        }
    }
}

/// A named trackable activity defined server-side.
pub struct Activity {
    pub id: String,
    pub name: String,
    pub color: String,
    pub integration: Option<String>,
    pub space_id: String,
    pub device_side: Option<u64>,
}

/// Ghost view of an `Activity`.
pub ghost struct ActivityV {
    pub id: Seq<char>,
    pub name: Seq<char>,
    pub color: Seq<char>,
    pub integration: Option<Seq<char>>,
    pub space_id: Seq<char>,
    pub device_side: Option<nat>,
}

impl View for Activity {
    type V = ActivityV;

    open spec fn view(&self) -> ActivityV {
        ActivityV {
            id: self.id@,
            name: self.name@,
            color: self.color@,
            integration: match self.integration {
                Some(s) => Some(s@),
                None => None,
            },
            space_id: self.space_id@,
            device_side: match self.device_side {
                Some(n) => Some(n as nat),
                None => None,
            },
        }
    }
}

/// The server's record of what is presently being timed.
/// `started_at` is a UTC timestamp in seconds since the Unix epoch.
pub struct CurrentTracking {
    pub id: u64,
    pub activity_id: String,
    pub started_at: u64,
    pub note: Option<Note>,
}

/// Ghost view of a `CurrentTracking`.
pub ghost struct CurrentTrackingV {
    pub id: nat,
    pub activity_id: Seq<char>,
    pub started_at: nat,
    pub note: Option<NoteV>,
}

impl View for CurrentTracking {
    type V = CurrentTrackingV;

    open spec fn view(&self) -> CurrentTrackingV {
        CurrentTrackingV {
            id: self.id as nat,
            activity_id: self.activity_id@,
            started_at: self.started_at as nat,
            note: match self.note {
                Some(n) => Some(n@),
                None => None,
            },
        }
    }
}

/// The body of the tracking endpoint's answer: absent means nothing is tracked.
pub struct TrackingResponse {
    pub current_tracking: Option<CurrentTracking>,
}

impl View for TrackingResponse {
    type V = Option<CurrentTrackingV>;

    open spec fn view(&self) -> Option<CurrentTrackingV> {
        match self.current_tracking {
            Some(c) => Some(c@),
            None => None,
        }
    }
}

/// The list returned by the activities endpoint.
pub struct ActivitiesResponse {
    pub activities: Vec<Activity>,
}

impl View for ActivitiesResponse {
    type V = Seq<ActivityV>;

    open spec fn view(&self) -> Seq<ActivityV> {
        self.activities@.map_values(|a: Activity| a@)
    }
}

/// The sign-in endpoint's answer: a token on success, a message otherwise.
pub struct TokenResponse {
    pub token: Option<String>,
    pub message: Option<String>,
}

/// A confirmation message returned by the start-tracking endpoint.
pub struct Message {
    pub message: String,
}

/// The error kinds the client distinguishes.
#[derive(Debug)]
pub enum ApiError {
    /// Sign-in rejected by the service; carries the service's message.
    Auth { message: String },
    /// Network or connection failure on an HTTP call.
    Transport { message: String },
    /// A response body that does not match the expected JSON shape.
    Decode { message: String },
    /// A tracking record or a user request names an activity that the
    /// activities list does not contain.
    ActivityNotFound { name: String },
    /// Neither flags nor environment supply credentials and no token is cached.
    MissingCredentials,
}

} // verus!
