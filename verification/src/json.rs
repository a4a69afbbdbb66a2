//! The views that the HTTP API sends and receives.
//!
//! Each view is built from a borrowed snapshot and rendered once into a
//! [`Value`]. The `wire` function of a view is the document that it renders
//! to; the `serialize` function builds that document in memory, whole, so
//! that a failure never leaves half a document behind.

use crate::db;
use crate::db::auth::SessionHash;
use crate::db::{DayEntry, LockedDatabase, StreamDays, StreamType};
use crate::ordered::{entries, key_at};
use crate::text::{base64_encode, base64_no_pad, hyphenated, uuid_hyphenated};
use crate::value::{items_doc, members_doc, push_item, push_member, Doc, Member, Value};
use vstd::prelude::*;

verus! {

/// Why a view could not be built.
#[derive(Clone, Copy, Debug, PartialEq, Eq, Structural)]
pub enum Error {
    /// A camera names a stream that the snapshot does not hold.
    MissingStream(i32),
}

/// The member `key: doc` where there is a document, and no member where
/// there is none: an absent field is left out of its object.
pub open spec fn optional(key: Seq<char>, doc: Option<Doc>) -> Seq<Member> {
    match doc {
        Some(doc) => seq![(key, doc)],
        None => Seq::empty(),
    }
}

/// The integer document of an integer that may be absent.
pub open spec fn int_doc(n: Option<i64>) -> Option<Doc> {
    match n {
        Some(n) => Some(Doc::Int(n as int)),
        None => None,
    }
}

/// One day of a stream on the wire: the bounds of the day and the time
/// recorded on it.
#[derive(Debug)]
pub struct StreamDayValue {
    pub start_time_90k: i64,
    pub end_time_90k: i64,
    pub total_duration_90k: i64,
}

/// The document of one day: its bounds and the time recorded on it.
pub open spec fn day_doc(start: int, end: int, duration: int) -> Doc {
    Doc::Object(
        seq![
            ("startTime90k"@, Doc::Int(start)),
            ("endTime90k"@, Doc::Int(end)),
            ("totalDuration90k"@, Doc::Int(duration)),
        ],
    )
}

/// The member of a stream's days that stands for `entry`: the canonical form
/// of its date, and under it the document of the day.
pub open spec fn day_member(entry: DayEntry) -> Member {
    (entry.day.text(), day_doc(entry.day.start, entry.day.end, entry.duration))
}

/// The document of a stream's days: one member for each day, in the order
/// of the days, keyed by the canonical form of its date.
pub open spec fn days_doc(days: Seq<DayEntry>) -> Doc {
    Doc::Object(Seq::new(days.len(), |i: int| day_member(days[i])))
}

impl StreamDayValue {
    /// The document that this view renders to.
    pub open spec fn wire(&self) -> Doc {
        day_doc(
            self.start_time_90k as int,
            self.end_time_90k as int,
            self.total_duration_90k as int,
        )
    }

    /// Renders this view into its document.
    pub fn serialize(&self) -> (v: Value)
        ensures
            v@ == self.wire(),
    {
        let mut members: Vec<(String, Value)> = Vec::new();
        push_member(&mut members, "startTime90k", Value::Int(self.start_time_90k));
        push_member(&mut members, "endTime90k", Value::Int(self.end_time_90k));
        push_member(&mut members, "totalDuration90k", Value::Int(self.total_duration_90k));
        let v = Value::object(members);
        proof {
            assert(v@.members() =~= self.wire().members());
        }
        v
    }
}

/// One stream of a camera on the wire.
#[derive(Debug)]
pub struct Stream<'a> {
    pub retain_bytes: i64,
    pub min_start_time_90k: Option<i64>,
    pub max_end_time_90k: Option<i64>,
    pub total_duration_90k: i64,
    pub total_sample_file_bytes: i64,
    /// The stream's days, where the caller asked for them.
    pub days: Option<&'a StreamDays>,
}

impl<'a> Stream<'a> {
    /// The view of the stream that `id` names, with its days where
    /// `include_days` asks for them: no view for no id, and an error for an
    /// id that the snapshot does not hold.
    pub open spec fn wrapped(db: &'a LockedDatabase, id: Option<i32>, include_days: bool) -> Result<
        Option<Stream<'a>>,
        Error,
    > {
        match id {
            None => Ok(None),
            Some(id) => if db.streams().contains_key(id) {
                let s = db.streams()[id];
                Ok(
                    Some(
                        Stream {
                            retain_bytes: s.retain_bytes,
                            min_start_time_90k: match s.range {
                                Some(r) => Some(r.start),
                                None => None,
                            },
                            max_end_time_90k: match s.range {
                                Some(r) => Some(r.end),
                                None => None,
                            },
                            total_duration_90k: s.duration,
                            total_sample_file_bytes: s.sample_file_bytes,
                            days: if include_days {
                                Some(&s.days)
                            } else {
                                None
                            },
                        },
                    ),
                )
            } else {
                Err(Error::MissingStream(id))
            },
        }
    }

    /// Looks the stream up in the snapshot and builds its view; see
    /// [`Stream::wrapped`].
    pub fn wrap(db: &'a LockedDatabase, id: Option<i32>, include_days: bool) -> (r: Result<
        Option<Stream<'a>>,
        Error,
    >)
        ensures
            r == Self::wrapped(db, id, include_days),
    {
        broadcast use vstd::std_specs::btree::group_btree_axioms;

        let id = match id {
            Some(id) => id,
            None => return Ok(None),
        };
        let s = match db.streams_by_id().get(&id) {
            Some(s) => s,
            None => return Err(Error::MissingStream(id)),
        };
        Ok(
            Some(
                Stream {
                    retain_bytes: s.retain_bytes,
                    min_start_time_90k: match &s.range {
                        Some(r) => Some(r.start),
                        None => None,
                    },
                    max_end_time_90k: match &s.range {
                        Some(r) => Some(r.end),
                        None => None,
                    },
                    total_duration_90k: s.duration,
                    total_sample_file_bytes: s.sample_file_bytes,
                    days: if include_days {
                        Some(&s.days)
                    } else {
                        None
                    },
                },
            ),
        )
    }

    /// The document of the days, where the view holds them.
    pub open spec fn days_wire(days: Option<&StreamDays>) -> Option<Doc> {
        match days {
            Some(days) => Some(days_doc(days@)),
            None => None,
        }
    }

    /// Renders the days as an object keyed by date, in the order of the
    /// days; nothing where the view holds no days.
    pub fn serialize_days(days: &Option<&'a StreamDays>) -> (r: Option<Value>)
        ensures
            r is Some <==> days is Some,
            r matches Some(v) ==> Some(v@) == Self::days_wire(*days),
    {
        let days = match *days {
            Some(d) => d,
            None => return None,
        };
        let entries = days.entries();
        let mut members: Vec<(String, Value)> = Vec::new();
        let mut i: usize = 0;
        while i < entries.len()
            invariant
                i <= entries@.len(),
                db::entries_view(entries@) == days@,
                members_doc(members@).len() == i,
                forall|j: int|
                    0 <= j < i ==> (#[trigger] members_doc(members@)[j]) == day_member(days@[j]),
            decreases entries@.len() - i,
        {
            let k = &entries[i].0;
            let v = &entries[i].1;
            let bounds = k.bounds();
            let day = StreamDayValue {
                start_time_90k: bounds.start,
                end_time_90k: bounds.end,
                total_duration_90k: v.duration,
            };
            let ghost before = members_doc(members@);
            let key = k.text();
            let value = day.serialize();
            proof {
                assert(days@[i as int].day == k@);
                assert((key@, value@) == day_member(days@[i as int]));
            }
            push_member(&mut members, key.as_str(), value);
            proof {
                assert forall|j: int| 0 <= j < i + 1 implies (#[trigger] members_doc(members@)[j])
                    == day_member(days@[j]) by {
                    if j < i {
                        assert(members_doc(members@)[j] == before[j]);
                    }
                }
            }
            i += 1;
        }
        let v = Value::object(members);
        proof {
            assert(v@.members() =~= days_doc(days@).members());
        }
        Some(v)
    }

    /// The document that this view renders to: the two ends of the range
    /// and the days are members only where the view holds them.
    pub open spec fn wire(&self) -> Doc {
        Doc::Object(
            seq![("retainBytes"@, Doc::Int(self.retain_bytes as int))] + optional(
                "minStartTime90k"@,
                int_doc(self.min_start_time_90k),
            ) + optional("maxEndTime90k"@, int_doc(self.max_end_time_90k)) + seq![
                ("totalDuration90k"@, Doc::Int(self.total_duration_90k as int)),
                ("totalSampleFileBytes"@, Doc::Int(self.total_sample_file_bytes as int)),
            ] + optional("days"@, Self::days_wire(self.days)),
        )
    }

    /// Renders this view into its document.
    pub fn serialize(&self) -> (v: Value)
        ensures
            v@ == self.wire(),
    {
        let mut members: Vec<(String, Value)> = Vec::new();
        push_member(&mut members, "retainBytes", Value::Int(self.retain_bytes));
        if let Some(t) = self.min_start_time_90k {
            push_member(&mut members, "minStartTime90k", Value::Int(t));
        }
        if let Some(t) = self.max_end_time_90k {
            push_member(&mut members, "maxEndTime90k", Value::Int(t));
        }
        push_member(&mut members, "totalDuration90k", Value::Int(self.total_duration_90k));
        push_member(&mut members, "totalSampleFileBytes", Value::Int(self.total_sample_file_bytes));
        if let Some(days) = Self::serialize_days(&self.days) {
            push_member(&mut members, "days", days);
        }
        let v = Value::object(members);
        proof {
            assert(v@.members() =~= self.wire().members());
        }
        v
    }
}

/// One camera on the wire.
#[derive(Debug)]
pub struct Camera<'a> {
    pub uuid: [u8; 16],
    pub short_name: &'a str,
    pub description: &'a str,
    /// The camera's streams, by slot.
    pub streams: [Option<Stream<'a>>; 2],
}

/// The member of a camera's streams for the slot of type `t`: the stream's
/// document under the type's name, and no member for an empty slot.
pub open spec fn slot_member(t: StreamType, stream: Option<Stream>) -> Seq<Member> {
    match stream {
        Some(s) => seq![(t.name(), s.wire())],
        None => Seq::empty(),
    }
}

/// The document of a camera's two slots: an object with one member for each
/// slot that holds a stream, in the order of the slots.
pub open spec fn streams_doc(streams: Seq<Option<Stream>>) -> Doc {
    Doc::Object(
        slot_member(StreamType::MAIN, streams[0]) + slot_member(StreamType::SUB, streams[1]),
    )
}

/// The document of a camera with the given identifier, names and slots.
pub open spec fn camera_doc(
    uuid: Seq<u8>,
    short_name: Seq<char>,
    description: Seq<char>,
    streams: Seq<Option<Stream>>,
) -> Doc {
    Doc::Object(
        seq![
            ("uuid"@, Doc::Str(hyphenated(uuid))),
            ("shortName"@, Doc::Str(short_name)),
            ("description"@, Doc::Str(description)),
            ("streams"@, streams_doc(streams)),
        ],
    )
}

impl<'a> Camera<'a> {
    /// The error of the first slot of `c` that names a stream which the
    /// snapshot does not hold, if there is such a slot.
    pub open spec fn missing_stream(c: &db::Camera, db: &LockedDatabase) -> Option<Error> {
        match Stream::wrapped(db, c.streams[0], false) {
            Err(e) => Some(e),
            Ok(_) => match Stream::wrapped(db, c.streams[1], false) {
                Err(e) => Some(e),
                Ok(_) => None,
            },
        }
    }

    /// The document of the camera `c` of the snapshot, where all the streams
    /// that it names are there.
    pub open spec fn wire_of(c: &db::Camera, db: &LockedDatabase, include_days: bool) -> Doc
        recommends
            Self::missing_stream(c, db) is None,
    {
        camera_doc(
            c.uuid@,
            c.short_name@,
            c.description@,
            seq![
                Stream::wrapped(db, c.streams[0], include_days)->Ok_0,
                Stream::wrapped(db, c.streams[1], include_days)->Ok_0,
            ],
        )
    }

    /// The view of the camera `c`, with the days of its streams where
    /// `include_days` asks for them. It fails where the camera names a stream
    /// that the snapshot does not hold.
    pub fn wrap(c: &'a db::Camera, db: &'a LockedDatabase, include_days: bool) -> (r: Result<
        Camera<'a>,
        Error,
    >)
        ensures
            match r {
                Ok(camera) => {
                    &&& Self::missing_stream(c, db) is None
                    &&& camera.uuid == c.uuid
                    &&& camera.short_name@ == c.short_name@
                    &&& camera.description@ == c.description@
                    &&& Ok::<_, Error>(camera.streams[0]) == Stream::wrapped(
                        db,
                        c.streams[0],
                        include_days,
                    )
                    &&& Ok::<_, Error>(camera.streams[1]) == Stream::wrapped(
                        db,
                        c.streams[1],
                        include_days,
                    )
                    &&& camera.wire() == Self::wire_of(c, db, include_days)
                },
                Err(e) => Self::missing_stream(c, db) == Some(e),
            },
    {
        let main = match Stream::wrap(db, c.streams[0], include_days) {
            Ok(s) => s,
            Err(e) => return Err(e),
        };
        let sub = match Stream::wrap(db, c.streams[1], include_days) {
            Ok(s) => s,
            Err(e) => return Err(e),
        };
        let camera = Camera {
            uuid: c.uuid,
            short_name: c.short_name.as_str(),
            description: c.description.as_str(),
            streams: [main, sub],
        };
        proof {
            assert(camera.streams@ =~= seq![main, sub]);
        }
        Ok(camera)
    }

    /// Renders the two slots as an object keyed by the names of the stream
    /// types; an empty slot gets no member.
    pub fn serialize_streams(streams: &[Option<Stream<'a>>; 2]) -> (v: Value)
        ensures
            v@ == streams_doc(streams@),
    {
        let mut members: Vec<(String, Value)> = Vec::new();
        let mut i: usize = 0;
        while i < 2
            invariant
                i <= 2,
                members_doc(members@) == (if i == 0 {
                    Seq::<Member>::empty()
                } else if i == 1 {
                    slot_member(StreamType::MAIN, streams@[0])
                } else {
                    slot_member(StreamType::MAIN, streams@[0]) + slot_member(
                        StreamType::SUB,
                        streams@[1],
                    )
                }),
            decreases 2 - i,
        {
            if let Some(s) = &streams[i] {
                if let Some(t) = StreamType::from_index(i) {
                    push_member(&mut members, t.as_str(), s.serialize());
                }
            }
            proof {
                let built = members_doc(members@);
                if i == 0 {
                    assert(built =~= slot_member(StreamType::MAIN, streams@[0]));
                } else {
                    assert(built =~= slot_member(StreamType::MAIN, streams@[0]) + slot_member(
                        StreamType::SUB,
                        streams@[1],
                    ));
                }
            }
            i += 1;
        }
        Value::object(members)
    }

    /// The document that this view renders to.
    pub open spec fn wire(&self) -> Doc {
        camera_doc(self.uuid@, self.short_name@, self.description@, self.streams@)
    }

    /// Renders this view into its document.
    pub fn serialize(&self) -> (v: Value)
        ensures
            v@ == self.wire(),
    {
        let mut members: Vec<(String, Value)> = Vec::new();
        push_member(&mut members, "uuid", Value::Str(uuid_hyphenated(&self.uuid)));
        push_member(&mut members, "shortName", Value::string(self.short_name));
        push_member(&mut members, "description", Value::string(self.description));
        push_member(&mut members, "streams", Self::serialize_streams(&self.streams));
        let v = Value::object(members);
        proof {
            assert(v@.members() =~= self.wire().members());
        }
        v
    }
}

/// A logged-in session on the wire.
#[derive(Debug)]
pub struct Session {
    pub username: String,
    pub csrf: SessionHash,
}

impl Session {
    /// Renders the session's token as text: its base64 form without
    /// padding, which for a token of sixteen bytes is 22 characters of the
    /// base64 alphabet.
    pub fn serialize_csrf(csrf: &SessionHash) -> (v: Value)
        ensures
            v@ == Doc::Str(base64_no_pad(csrf@)),
    {
        Value::Str(base64_encode(&csrf.0))
    }

    /// The document that this view renders to.
    pub open spec fn wire(&self) -> Doc {
        Doc::Object(
            seq![
                ("username"@, Doc::Str(self.username@)),
                ("csrf"@, Doc::Str(base64_no_pad(self.csrf@))),
            ],
        )
    }

    /// Renders this view into its document.
    pub fn serialize(&self) -> (v: Value)
        ensures
            v@ == self.wire(),
    {
        let mut members: Vec<(String, Value)> = Vec::new();
        push_member(&mut members, "username", Value::string(self.username.as_str()));
        push_member(&mut members, "csrf", Self::serialize_csrf(&self.csrf));
        let v = Value::object(members);
        proof {
            assert(v@.members() =~= self.wire().members());
        }
        v
    }
}

/// The root of the API: the recorder's time zone, its cameras and, for a
/// caller who is logged in, the session.
#[derive(Debug)]
pub struct TopLevel<'a> {
    pub time_zone_name: &'a str,
    /// The snapshot whose cameras are listed, and whether the days of their
    /// streams are included.
    pub cameras: (&'a LockedDatabase, bool),
    pub session: Option<Session>,
}

/// The document of a session, where there is one.
pub open spec fn session_doc(session: Option<Session>) -> Option<Doc> {
    match session {
        Some(s) => Some(s.wire()),
        None => None,
    }
}

impl<'a> TopLevel<'a> {
    /// The camera of the snapshot that has exactly `i` cameras of smaller id
    /// before it.
    pub open spec fn camera_at(db: &LockedDatabase, i: int) -> db::Camera {
        db.cameras()[key_at(db.cameras().dom(), i)]
    }

    /// Whether camera `i`, in the order of the ids, is the first that names
    /// a stream which the snapshot does not hold.
    pub open spec fn fails_at(db: &LockedDatabase, i: int) -> bool {
        &&& 0 <= i < db.cameras().dom().len()
        &&& Camera::missing_stream(&Self::camera_at(db, i), db) is Some
        &&& forall|j: int|
            0 <= j < i ==> Camera::missing_stream(&#[trigger] Self::camera_at(db, j), db) is None
    }

    /// The error of the first camera, in the order of the ids, that names a
    /// stream which the snapshot does not hold; none where every camera
    /// finds its streams.
    pub open spec fn first_failure(db: &LockedDatabase) -> Option<Error> {
        if exists|i: int| Self::fails_at(db, i) {
            Camera::missing_stream(&Self::camera_at(db, choose|i: int| Self::fails_at(db, i)), db)
        } else {
            None
        }
    }

    /// The list of the documents of all cameras, in ascending order of
    /// their ids.
    pub open spec fn cameras_doc(db: &LockedDatabase, include_days: bool) -> Doc {
        Doc::List(
            Seq::new(
                db.cameras().dom().len(),
                |i: int| Camera::wire_of(&Self::camera_at(db, i), db, include_days),
            ),
        )
    }

    /// Renders the cameras of the snapshot as a list, in ascending order of
    /// their ids, with the days of their streams where the flag asks for
    /// them. Where a camera names a stream that the snapshot does not hold,
    /// nothing is rendered and the error of the first such camera comes
    /// back.
    pub fn serialize_cameras(cameras: &(&'a LockedDatabase, bool)) -> (r: Result<Value, Error>)
        ensures
            match r {
                Ok(v) => Self::first_failure(cameras.0) is None && v@ == Self::cameras_doc(
                    cameras.0,
                    cameras.1,
                ),
                Err(e) => Self::first_failure(cameras.0) == Some(e),
            },
    {
        let db = cameras.0;
        let include_days = cameras.1;
        let cs = entries(db.cameras_by_id());
        let mut items: Vec<Value> = Vec::new();
        let mut i: usize = 0;
        while i < cs.len()
            invariant
                i <= cs@.len(),
                db == cameras.0,
                cs@.len() == db.cameras().dom().len(),
                forall|j: int| 0 <= j < cs@.len() ==> *(#[trigger] cs@[j]).1 == Self::camera_at(db, j),
                items_doc(items@).len() == i,
                forall|j: int|
                    0 <= j < i ==> Camera::missing_stream(&#[trigger] Self::camera_at(db, j), db)
                        is None,
                forall|j: int|
                    0 <= j < i ==> (#[trigger] items_doc(items@)[j]) == Camera::wire_of(
                        &Self::camera_at(db, j),
                        db,
                        include_days,
                    ),
            decreases cs@.len() - i,
        {
            let c = cs[i].1;
            assert(*c == Self::camera_at(db, i as int));
            let ghost before = items_doc(items@);
            match Camera::wrap(c, db, include_days) {
                Ok(camera) => {
                    push_item(&mut items, camera.serialize());
                },
                Err(e) => {
                    proof {
                        assert(Self::fails_at(db, i as int));
                        let k = choose|k: int| Self::fails_at(db, k);
                        Self::lemma_fails_at_unique(db, i as int, k);
                    }
                    return Err(e);
                },
            }
            proof {
                assert forall|j: int| 0 <= j < i + 1 implies (#[trigger] items_doc(items@)[j])
                    == Camera::wire_of(&Self::camera_at(db, j), db, include_days) by {
                    if j < i {
                        assert(items_doc(items@)[j] == before[j]);
                    }
                }
            }
            i += 1;
        }
        let v = Value::list(items);
        proof {
            assert(v@->List_0 =~= Self::cameras_doc(db, include_days)->List_0);
            assert forall|k: int| !Self::fails_at(db, k) by {
                if 0 <= k < db.cameras().dom().len() {
                    assert(Camera::missing_stream(&Self::camera_at(db, k), db) is None);
                }
            }
        }
        Ok(v)
    }

    /// At most one camera is the first to fail.
    pub proof fn lemma_fails_at_unique(db: &LockedDatabase, i: int, j: int)
        requires
            Self::fails_at(db, i),
            Self::fails_at(db, j),
        ensures
            i == j,
    {
        if i < j {
            assert(Camera::missing_stream(&Self::camera_at(db, i), db) is None);
        } else if j < i {
            assert(Camera::missing_stream(&Self::camera_at(db, j), db) is None);
        }
    }

    /// The document that this view renders to, where every camera finds
    /// its streams: the session is a member only where there is one.
    pub open spec fn wire(&self) -> Doc
        recommends
            Self::first_failure(self.cameras.0) is None,
    {
        Doc::Object(
            seq![
                ("timeZoneName"@, Doc::Str(self.time_zone_name@)),
                ("cameras"@, Self::cameras_doc(self.cameras.0, self.cameras.1)),
            ] + optional("session"@, session_doc(self.session)),
        )
    }

    /// Renders the whole document, or nothing: where a camera names a
    /// stream that the snapshot does not hold, the error of the first such
    /// camera comes back and no part of the document.
    pub fn serialize(&self) -> (r: Result<Value, Error>)
        ensures
            match r {
                Ok(v) => Self::first_failure(self.cameras.0) is None && v@ == self.wire(),
                Err(e) => Self::first_failure(self.cameras.0) == Some(e),
            },
    {
        let cameras = match Self::serialize_cameras(&self.cameras) {
            Ok(v) => v,
            Err(e) => return Err(e),
        };
        let mut members: Vec<(String, Value)> = Vec::new();
        push_member(&mut members, "timeZoneName", Value::string(self.time_zone_name));
        push_member(&mut members, "cameras", cameras);
        if let Some(session) = &self.session {
            push_member(&mut members, "session", session.serialize());
        }
        let v = Value::object(members);
        proof {
            assert(v@.members() =~= self.wire().members());
        }
        Ok(v)
    }
}

/// The summary of one recording on the wire.
#[derive(Debug)]
pub struct Recording {
    pub start_time_90k: i64,
    pub end_time_90k: i64,
    pub sample_file_bytes: i64,
    pub video_samples: i64,
    pub video_sample_entry_sha1: String,
    pub start_id: i32,
    pub open_id: u32,
    /// Left out of the document where it is absent.
    pub first_uncommitted: Option<i32>,
    /// Left out of the document where it is absent.
    pub end_id: Option<i32>,
    pub video_sample_entry_width: u16,
    pub video_sample_entry_height: u16,
    /// Left out of the document where it is false.
    pub growing: bool,
}

/// The integer document of an id that may be absent.
pub open spec fn id_doc(id: Option<i32>) -> Option<Doc> {
    match id {
        Some(id) => Some(Doc::Int(id as int)),
        None => None,
    }
}

/// The document of a flag that goes on the wire only where it is set.
pub open spec fn flag_doc(flag: bool) -> Option<Doc> {
    if flag {
        Some(Doc::Bool(true))
    } else {
        None
    }
}

impl Recording {
    /// The document that this view renders to.
    pub open spec fn wire(&self) -> Doc {
        Doc::Object(
            seq![
                ("startTime90k"@, Doc::Int(self.start_time_90k as int)),
                ("endTime90k"@, Doc::Int(self.end_time_90k as int)),
                ("sampleFileBytes"@, Doc::Int(self.sample_file_bytes as int)),
                ("videoSamples"@, Doc::Int(self.video_samples as int)),
                ("videoSampleEntrySha1"@, Doc::Str(self.video_sample_entry_sha1@)),
                ("startId"@, Doc::Int(self.start_id as int)),
                ("openId"@, Doc::Int(self.open_id as int)),
            ] + optional("firstUncommitted"@, id_doc(self.first_uncommitted)) + optional(
                "endId"@,
                id_doc(self.end_id),
            ) + seq![
                ("videoSampleEntryWidth"@, Doc::Int(self.video_sample_entry_width as int)),
                ("videoSampleEntryHeight"@, Doc::Int(self.video_sample_entry_height as int)),
            ] + optional("growing"@, flag_doc(self.growing)),
        )
    }

    /// Renders this view into its document.
    pub fn serialize(&self) -> (v: Value)
        ensures
            v@ == self.wire(),
    {
        let mut members: Vec<(String, Value)> = Vec::new();
        push_member(&mut members, "startTime90k", Value::Int(self.start_time_90k));
        push_member(&mut members, "endTime90k", Value::Int(self.end_time_90k));
        push_member(&mut members, "sampleFileBytes", Value::Int(self.sample_file_bytes));
        push_member(&mut members, "videoSamples", Value::Int(self.video_samples));
        push_member(
            &mut members,
            "videoSampleEntrySha1",
            Value::string(self.video_sample_entry_sha1.as_str()),
        );
        push_member(&mut members, "startId", Value::Int(self.start_id as i64));
        push_member(&mut members, "openId", Value::Int(self.open_id as i64));
        if let Some(id) = self.first_uncommitted {
            push_member(&mut members, "firstUncommitted", Value::Int(id as i64));
        }
        if let Some(id) = self.end_id {
            push_member(&mut members, "endId", Value::Int(id as i64));
        }
        push_member(
            &mut members,
            "videoSampleEntryWidth",
            Value::Int(self.video_sample_entry_width as i64),
        );
        push_member(
            &mut members,
            "videoSampleEntryHeight",
            Value::Int(self.video_sample_entry_height as i64),
        );
        if self.growing {
            push_member(&mut members, "growing", Value::Bool(true));
        }
        let v = Value::object(members);
        proof {
            assert(v@.members() =~= self.wire().members());
        }
        v
    }
}

/// A list of recordings on the wire.
#[derive(Debug)]
pub struct ListRecordings {
    pub recordings: Vec<Recording>,
}

impl ListRecordings {
    /// The document that this view renders to: the recordings in their
    /// order, under the one key `recordings`.
    pub open spec fn wire(&self) -> Doc {
        Doc::Object(
            seq![
                (
                    "recordings"@,
                    Doc::List(
                        Seq::new(self.recordings@.len(), |i: int| self.recordings@[i].wire()),
                    ),
                ),
            ],
        )
    }

    /// Renders this view into its document.
    pub fn serialize(&self) -> (v: Value)
        ensures
            v@ == self.wire(),
    {
        let mut items: Vec<Value> = Vec::new();
        let mut i: usize = 0;
        while i < self.recordings.len()
            invariant
                i <= self.recordings@.len(),
                items_doc(items@).len() == i,
                forall|j: int|
                    0 <= j < i ==> (#[trigger] items_doc(items@)[j]) == self.recordings@[j].wire(),
            decreases self.recordings@.len() - i,
        {
            let ghost before = items_doc(items@);
            push_item(&mut items, self.recordings[i].serialize());
            proof {
                assert forall|j: int| 0 <= j < i + 1 implies (#[trigger] items_doc(items@)[j])
                    == self.recordings@[j].wire() by {
                    if j < i {
                        assert(items_doc(items@)[j] == before[j]);
                    }
                }
            }
            i += 1;
        }
        let list = Value::list(items);
        proof {
            assert(list@->List_0 =~= Seq::new(
                self.recordings@.len(),
                |i: int| self.recordings@[i].wire(),
            ));
        }
        let mut members: Vec<(String, Value)> = Vec::new();
        push_member(&mut members, "recordings", list);
        let v = Value::object(members);
        proof {
            assert(v@.members() =~= self.wire().members());
        }
        v
    }
}

/// Why a request body could not be decoded.
#[derive(Clone, Copy, Debug, PartialEq, Eq, Structural)]
pub enum DecodeError {
    /// The body is not an object, or its `path` is not a string.
    InvalidType,
    /// The object has no member `path`.
    MissingField,
    /// The object has more than one member `path`.
    DuplicateField,
}

/// The body of a request that names a directory of sample files.
#[derive(Debug)]
pub struct SampleFileDirPath {
    pub path: String,
}

impl SampleFileDirPath {
    /// The document that this body is written as.
    pub open spec fn wire(&self) -> Doc {
        Doc::Object(seq![("path"@, Doc::Str(self.path@))])
    }

    /// Renders this view into its document.
    pub fn serialize(&self) -> (v: Value)
        ensures
            v@ == self.wire(),
    {
        let mut members: Vec<(String, Value)> = Vec::new();
        push_member(&mut members, "path", Value::string(self.path.as_str()));
        let v = Value::object(members);
        proof {
            assert(v@.members() =~= self.wire().members());
        }
        v
    }

    /// Whether the object has a member `path` other than member `i`.
    pub open spec fn repeated(doc: Doc, i: int) -> bool {
        exists|j: int|
            0 <= j < doc.members().len() && j != i && (#[trigger] doc.members()[j]).0 == "path"@
    }

    /// The path that a document holds. The document must be an object with
    /// exactly one member `path`, a string; members of other names are
    /// passed over. A first `path` that is no string is reported before a
    /// second `path` is.
    pub open spec fn decoded(doc: Doc) -> Result<Seq<char>, DecodeError> {
        if !(doc is Object) {
            Err(DecodeError::InvalidType)
        } else if !doc.has_key("path"@) {
            Err(DecodeError::MissingField)
        } else {
            match doc.members()[doc.position("path"@)].1 {
                Doc::Str(path) => if Self::repeated(doc, doc.position("path"@)) {
                    Err(DecodeError::DuplicateField)
                } else {
                    Ok(path)
                },
                _ => Err(DecodeError::InvalidType),
            }
        }
    }

    /// Decodes the body of a request from its document.
    pub fn deserialize(value: &Value) -> (r: Result<SampleFileDirPath, DecodeError>)
        ensures
            match r {
                Ok(body) => Self::decoded(value@) == Ok::<_, DecodeError>(body.path@),
                Err(e) => Self::decoded(value@) == Err::<Seq<char>, _>(e),
            },
    {
        let members = match value {
            Value::Object(members) => members,
            _ => return Err(DecodeError::InvalidType),
        };
        proof {
            assert(value@->Object_0 =~= members_doc(members@));
        }
        let wanted = String::from_str("path");
        let mut first: usize = 0;
        while first < members.len() && !(members[first].0 == wanted)
            invariant
                first <= members@.len(),
                wanted@ == "path"@,
                value@ == Doc::Object(members_doc(members@)),
                forall|j: int| 0 <= j < first ==> (#[trigger] value@.members()[j]).0 != "path"@,
            decreases members@.len() - first,
        {
            first += 1;
        }
        if first >= members.len() {
            return Err(DecodeError::MissingField);
        }
        proof {
            crate::value::lemma_get_first(value@, "path"@, first as int);
        }
        let path = match &members[first].1 {
            Value::Str(path) => path.clone(),
            _ => return Err(DecodeError::InvalidType),
        };
        let mut i: usize = first + 1;
        while i < members.len()
            invariant
                first < i <= members@.len(),
                wanted@ == "path"@,
                value@ == Doc::Object(members_doc(members@)),
                value@.has_key("path"@),
                value@.position("path"@) == first,
                value@.members()[first as int].1 == Doc::Str(path@),
                forall|j: int|
                    first < j < i ==> (#[trigger] value@.members()[j]).0 != "path"@,
            decreases members@.len() - i,
        {
            if members[i].0 == wanted {
                proof {
                    assert(value@.members()[i as int].0 == "path"@);
                }
                return Err(DecodeError::DuplicateField);
            }
            i += 1;
        }
        Ok(SampleFileDirPath { path })
    }
}

} // verus!
