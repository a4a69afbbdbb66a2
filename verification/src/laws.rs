//! What holds of every document that the views render.

use crate::db::{days_wf, decimal_digits, Day, DayEntry, LockedDatabase, StreamType};
use crate::json::{
    day_member, days_doc, streams_doc, Camera, Recording, SampleFileDirPath, Session, Stream,
    TopLevel,
};
use crate::ordered::{lemma_key_at_rank, lemma_rank_in_range, lemma_rank_strict, rank};
use crate::text::{base64_alphabet, lemma_base64_of_sixteen};
use crate::value::{lemma_get_first, Doc};
use vstd::prelude::*;

verus! {

/// The names of a stream's members differ from one another.
proof fn lemma_stream_keys_differ()
    ensures
        "retainBytes"@.len() == 11,
        "minStartTime90k"@.len() == 15,
        "maxEndTime90k"@.len() == 13,
        "totalDuration90k"@.len() == 16,
        "totalSampleFileBytes"@.len() == 20,
        "days"@.len() == 4,
{
    reveal_strlit("retainBytes");
    reveal_strlit("minStartTime90k");
    reveal_strlit("maxEndTime90k");
    reveal_strlit("totalDuration90k");
    reveal_strlit("totalSampleFileBytes");
    reveal_strlit("days");
}

/// A slot's type name is a key of a camera's streams exactly where the slot
/// holds a stream. So for a camera with only its first slot filled, the
/// streams have the one key `main` and no key `sub`.
pub proof fn law_streams_keyed_by_filled_slots(streams: Seq<Option<Stream>>)
    requires
        streams.len() == 2,
    ensures
        streams_doc(streams).has_key(StreamType::MAIN.name()) <==> streams[0] is Some,
        streams_doc(streams).has_key(StreamType::SUB.name()) <==> streams[1] is Some,
        streams[0] is Some && streams[1] is None ==> streams_doc(streams).keys()
            == seq![StreamType::MAIN.name()],
{
    crate::db::lemma_stream_type_names_differ();
    let doc = streams_doc(streams);
    let members = doc.members();
    if streams[0] is Some {
        assert(members[0].0 == StreamType::MAIN.name());
    }
    if streams[1] is Some {
        assert(members[members.len() - 1].0 == StreamType::SUB.name());
    }
    if streams[0] is Some && streams[1] is None {
        assert(doc.keys() =~= seq![StreamType::MAIN.name()]);
    }
}

/// A stream that has recorded nothing has no range, and its document has
/// neither of the two members that would give one.
pub proof fn law_no_range_no_bounds(db: &LockedDatabase, id: i32, include_days: bool)
    requires
        db.streams().contains_key(id),
        db.streams()[id].range is None,
    ensures
        Stream::wrapped(db, Some(id), include_days) matches Ok(Some(stream)) && {
            &&& stream.min_start_time_90k is None
            &&& stream.max_end_time_90k is None
            &&& !stream.wire().has_key("minStartTime90k"@)
            &&& !stream.wire().has_key("maxEndTime90k"@)
        },
{
    lemma_stream_keys_differ();
}

/// The days of a stream are a member of its document exactly where the
/// caller asked for them.
pub proof fn law_days_only_on_request(db: &LockedDatabase, id: i32, include_days: bool)
    requires
        db.streams().contains_key(id),
    ensures
        Stream::wrapped(db, Some(id), include_days) matches Ok(Some(stream)) && (
        stream.wire().has_key("days"@) <==> include_days),
{
    lemma_stream_keys_differ();
    let stream = Stream::wrapped(db, Some(id), include_days)->Ok_0->Some_0;
    let members = stream.wire().members();
    if include_days {
        assert(members[members.len() - 1].0 == "days"@);
    }
}

/// Every day of a stream's document starts before it ends, and holds no
/// more recorded time than lies between its start and its end.
pub proof fn law_day_within_bounds(days: Seq<DayEntry>, i: int)
    requires
        days_wf(days),
        0 <= i < days.len(),
    ensures
        ({
            let day = days_doc(days).members()[i].1;
            &&& day.get("startTime90k"@) matches Some(Doc::Int(start))
            &&& day.get("endTime90k"@) matches Some(Doc::Int(end))
            &&& day.get("totalDuration90k"@) matches Some(Doc::Int(total))
            &&& start < end
            &&& total <= end - start
        }),
{
    reveal_strlit("startTime90k");
    reveal_strlit("endTime90k");
    reveal_strlit("totalDuration90k");
    let day = days_doc(days).members()[i].1;
    assert(days[i].day.wf());
    assert(day.members()[0].0 == "startTime90k"@);
    assert(day.members()[1].0 == "endTime90k"@);
    assert(day.members()[2].0 == "totalDuration90k"@);
    lemma_get_first(day, "startTime90k"@, 0);
    lemma_get_first(day, "endTime90k"@, 1);
    lemma_get_first(day, "totalDuration90k"@, 2);
}

/// Different digits are written differently.
proof fn lemma_digit_injective(a: int, b: int)
    requires
        0 <= a < 10,
        0 <= b < 10,
        decimal_digits()[a] == decimal_digits()[b],
    ensures
        a == b,
{
    reveal_strlit("0123456789");
}

/// A number below ten thousand is given by its four decimal digits, and one
/// below a hundred by its two.
proof fn lemma_digits_give_number(a: int, b: int)
    requires
        0 <= a <= 9999,
        0 <= b <= 9999,
        a / 1000 == b / 1000,
        a / 100 % 10 == b / 100 % 10,
        a / 10 % 10 == b / 10 % 10,
        a % 10 == b % 10,
    ensures
        a == b,
{
}

/// Two well-formed days with the same canonical form are the same date.
pub proof fn lemma_day_text_injective(a: Day, b: Day)
    requires
        a.wf(),
        b.wf(),
        a.text() == b.text(),
    ensures
        a.year == b.year,
        a.month == b.month,
        a.day == b.day,
{
    assert(a.text()[0] == b.text()[0]);
    assert(a.text()[1] == b.text()[1]);
    assert(a.text()[2] == b.text()[2]);
    assert(a.text()[3] == b.text()[3]);
    assert(a.text()[5] == b.text()[5]);
    assert(a.text()[6] == b.text()[6]);
    assert(a.text()[8] == b.text()[8]);
    assert(a.text()[9] == b.text()[9]);
    lemma_digit_injective(a.year / 1000, b.year / 1000);
    lemma_digit_injective(a.year / 100 % 10, b.year / 100 % 10);
    lemma_digit_injective(a.year / 10 % 10, b.year / 10 % 10);
    lemma_digit_injective(a.year % 10, b.year % 10);
    lemma_digits_give_number(a.year, b.year);
    lemma_digit_injective(a.month / 10, b.month / 10);
    lemma_digit_injective(a.month % 10, b.month % 10);
    lemma_digit_injective(a.day / 10, b.day / 10);
    lemma_digit_injective(a.day % 10, b.day % 10);
}

/// The document of a stream's days keeps the order of the days: the member
/// of each day stands where the day stands, under a key that no other day
/// has, so the member of an earlier day comes before that of a later one.
pub proof fn law_days_keep_order(days: Seq<DayEntry>, i: int, j: int)
    requires
        days_wf(days),
        0 <= i < days.len(),
        0 <= j < days.len(),
        days[i].day.precedes(days[j].day),
    ensures
        days_doc(days).members()[i] == day_member(days[i]),
        days_doc(days).members()[j] == day_member(days[j]),
        days_doc(days).position(days[i].day.text()) == i,
        days_doc(days).position(days[j].day.text()) == j,
        i < j,
{
    if j < i {
        assert(days[j].day.precedes(days[i].day));
    }
    lemma_day_position(days, i);
    lemma_day_position(days, j);
}

/// The member of day `i` is the first, and the only one, under its key.
pub proof fn lemma_day_position(days: Seq<DayEntry>, i: int)
    requires
        days_wf(days),
        0 <= i < days.len(),
    ensures
        days_doc(days).position(days[i].day.text()) == i,
        forall|k: int|
            0 <= k < days.len() && k != i ==> (#[trigger] days_doc(days).members()[k]).0
                != days[i].day.text(),
{
    let doc = days_doc(days);
    let key = days[i].day.text();
    assert forall|k: int| 0 <= k < days.len() && k != i implies (#[trigger] doc.members()[k]).0
        != key by {
        assert(days[k].day.wf() && days[i].day.wf());
        if k < i {
            assert(days[k].day.precedes(days[i].day));
        } else {
            assert(days[i].day.precedes(days[k].day));
        }
        if doc.members()[k].0 == key {
            lemma_day_text_injective(days[k].day, days[i].day);
        }
    }
    assert(doc.members()[i].0 == key);
    lemma_get_first(doc, key, i);
}

/// The names of a recording's members, as far as telling `growing` from
/// the others needs them.
proof fn lemma_recording_keys_differ()
    ensures
        "growing"@.len() == 7 && "growing"@[0] == 'g',
        "startTime90k"@.len() == 12,
        "endTime90k"@.len() == 10,
        "sampleFileBytes"@.len() == 15,
        "videoSamples"@.len() == 12,
        "videoSampleEntrySha1"@.len() == 20,
        "startId"@.len() == 7 && "startId"@[0] == 's',
        "openId"@.len() == 6,
        "firstUncommitted"@.len() == 16,
        "endId"@.len() == 5,
        "videoSampleEntryWidth"@.len() == 21,
        "videoSampleEntryHeight"@.len() == 22,
{
    reveal_strlit("growing");
    reveal_strlit("startTime90k");
    reveal_strlit("endTime90k");
    reveal_strlit("sampleFileBytes");
    reveal_strlit("videoSamples");
    reveal_strlit("videoSampleEntrySha1");
    reveal_strlit("startId");
    reveal_strlit("openId");
    reveal_strlit("firstUncommitted");
    reveal_strlit("endId");
    reveal_strlit("videoSampleEntryWidth");
    reveal_strlit("videoSampleEntryHeight");
}

/// A recording that is still growing says so, and one that is not says
/// nothing: `growing` is a member exactly where the flag is set, and never
/// with the value false.
pub proof fn law_growing_only_when_set(recording: Recording)
    ensures
        recording.growing ==> recording.wire().get("growing"@) == Some(Doc::Bool(true)),
        !recording.growing ==> !recording.wire().has_key("growing"@),
        forall|i: int|
            0 <= i < recording.wire().members().len() ==> (#[trigger] recording.wire().members()[i])
                != ("growing"@, Doc::Bool(false)),
{
    lemma_recording_keys_differ();
    let doc = recording.wire();
    let members = doc.members();
    let last = members.len() - 1;
    assert forall|i: int| 0 <= i < members.len() && (#[trigger] members[i]).0
        == "growing"@ implies recording.growing && i == last && members[i].1 == Doc::Bool(
        true,
    ) by {}
    if recording.growing {
        assert(members[last].0 == "growing"@);
        lemma_get_first(doc, "growing"@, last);
    }
}

/// A body that is written and then decoded gives back its path.
pub proof fn law_path_round_trip(body: SampleFileDirPath)
    ensures
        SampleFileDirPath::decoded(body.wire()) == Ok::<_, crate::json::DecodeError>(body.path@),
{
    let doc = body.wire();
    assert(doc.members()[0].0 == "path"@);
    lemma_get_first(doc, "path"@, 0);
    assert(!SampleFileDirPath::repeated(doc, 0));
}

/// A session's token goes on the wire as 22 characters of the base64
/// alphabet: it is always valid text.
pub proof fn law_csrf_is_text(session: Session)
    ensures
        session.wire().get("csrf"@) matches Some(Doc::Str(text)) && {
            &&& text.len() == 22
            &&& forall|i: int| 0 <= i < 22 ==> base64_alphabet().contains(#[trigger] text[i])
            &&& vstd::utf8::is_ascii_chars(text)
        },
{
    reveal_strlit("username");
    reveal_strlit("csrf");
    let doc = session.wire();
    assert(doc.members()[0].0 == "username"@);
    assert(doc.members()[1].0 == "csrf"@);
    lemma_get_first(doc, "csrf"@, 1);
    lemma_base64_of_sixteen(session.csrf@);
}

/// The session is a member of the root document exactly where the caller
/// supplied one.
pub proof fn law_session_only_when_supplied(top: TopLevel)
    requires
        TopLevel::first_failure(top.cameras.0) is None,
    ensures
        top.wire().has_key("session"@) <==> top.session is Some,
{
    reveal_strlit("timeZoneName");
    reveal_strlit("cameras");
    reveal_strlit("session");
    let members = top.wire().members();
    assert("cameras"@[0] != "session"@[0]);
    if top.session is Some {
        assert(members[2].0 == "session"@);
    } else {
        assert(members.len() == 2);
        assert(members[0].0 == "timeZoneName"@);
        assert(members[1].0 == "cameras"@);
    }
}

/// The cameras are listed in ascending order of their ids: each camera of
/// the snapshot has its document in the list, at the place of its id among
/// the ids, and of two cameras the one with the smaller id comes first.
pub proof fn law_cameras_in_id_order(db: &LockedDatabase, include_days: bool, a: i32, b: i32)
    requires
        db.cameras().contains_key(a),
        db.cameras().contains_key(b),
        a < b,
    ensures
        ({
            let list = TopLevel::cameras_doc(db, include_days)->List_0;
            let ids = db.cameras().dom();
            &&& rank(ids, a) < rank(ids, b) < list.len()
            &&& list[rank(ids, a) as int] == Camera::wire_of(&db.cameras()[a], db, include_days)
            &&& list[rank(ids, b) as int] == Camera::wire_of(&db.cameras()[b], db, include_days)
        }),
{
    db.lemma_finite();
    let ids = db.cameras().dom();
    lemma_rank_strict(ids, a, b);
    lemma_rank_in_range(ids, b);
    lemma_key_at_rank(ids, a);
    lemma_key_at_rank(ids, b);
}

/// A camera's view is built, and rendered, exactly where every stream that
/// it names is in the snapshot; the streams it then shows are those of its
/// filled slots.
pub proof fn law_camera_streams(c: &crate::db::Camera, db: &LockedDatabase, include_days: bool)
    requires
        Camera::missing_stream(c, db) is None,
    ensures
        Camera::wire_of(c, db, include_days).get("streams"@) matches Some(streams) && {
            &&& streams.has_key(StreamType::MAIN.name()) <==> c.streams[0] is Some
            &&& streams.has_key(StreamType::SUB.name()) <==> c.streams[1] is Some
        },
{
    reveal_strlit("uuid");
    reveal_strlit("shortName");
    reveal_strlit("description");
    reveal_strlit("streams");
    let doc = Camera::wire_of(c, db, include_days);
    assert(doc.members().len() == 4);
    assert(doc.members()[0].0 == "uuid"@);
    assert(doc.members()[1].0 == "shortName"@);
    assert(doc.members()[2].0 == "description"@);
    let slots = seq![
        Stream::wrapped(db, c.streams[0], include_days)->Ok_0,
        Stream::wrapped(db, c.streams[1], include_days)->Ok_0,
    ];
    assert(doc.members()[3] == ("streams"@, streams_doc(slots)));
    lemma_get_first(doc, "streams"@, 3);
    law_streams_keyed_by_filled_slots(slots);
}

} // verus!
