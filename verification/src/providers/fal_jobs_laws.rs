//! What the reading of fal.ai's answers promises: which videos are found in a result, which of them
//! become artifacts, and what is said of a job.

use crate::domain::{LocatorView, StatusView};
use crate::json::JsonView;
use crate::providers::fal_jobs::Candidate;
use vstd::prelude::*;

verus! {

/// Whether a URL is among those found.
pub open spec fn shows(list: Seq<Candidate>, url: Seq<char>) -> bool {
    exists|i: int| 0 <= i < list.len() && (#[trigger] list[i]).0 == url
}

proof fn placed_shows(list: Seq<Candidate>, c: Candidate, url: Seq<char>)
    ensures
        shows(crate::providers::fal_jobs::placed(list, c), url) <==> c.0 == url || shows(list, url),
    decreases list.len(),
{
    let after = crate::providers::fal_jobs::placed(list, c);
    if list.len() == 0 || crate::providers::fal_jobs::before(c, list[0]) {
        assert(after == seq![c] + list);
        assert(after[0] == c);
        if shows(list, url) {
            let i = choose|i: int| 0 <= i < list.len() && (#[trigger] list[i]).0 == url;
            assert(after[i + 1].0 == url);
        }
        if shows(after, url) {
            let i = choose|i: int| 0 <= i < after.len() && (#[trigger] after[i]).0 == url;
            if i > 0 {
                assert(list[i - 1].0 == url);
            }
        }
    } else {
        let tail = list.skip(1);
        placed_shows(tail, c, url);
        let rest = crate::providers::fal_jobs::placed(tail, c);
        assert(after == seq![list[0]] + rest);
        assert(after[0] == list[0]);
        if shows(rest, url) {
            let i = choose|i: int| 0 <= i < rest.len() && (#[trigger] rest[i]).0 == url;
            assert(after[i + 1].0 == url);
        }
        if shows(list, url) {
            let i = choose|i: int| 0 <= i < list.len() && (#[trigger] list[i]).0 == url;
            if i > 0 {
                assert(tail[i - 1].0 == url);
            }
        }
        if shows(tail, url) {
            let i = choose|i: int| 0 <= i < tail.len() && (#[trigger] tail[i]).0 == url;
            assert(list[i + 1].0 == url);
        }
        if shows(after, url) {
            let i = choose|i: int| 0 <= i < after.len() && (#[trigger] after[i]).0 == url;
            if i > 0 {
                assert(rest[i - 1].0 == url);
            } else {
                assert(list[0].0 == url);
            }
        }
    }
}

proof fn ascending_shows(list: Seq<Candidate>, url: Seq<char>)
    ensures
        shows(crate::providers::fal_jobs::ascending(list), url) <==> shows(list, url),
    decreases list.len(),
{
    if list.len() > 0 {
        let rest = list.drop_last();
        ascending_shows(rest, url);
        placed_shows(crate::providers::fal_jobs::ascending(rest), list.last(), url);
        split_shows(list, url);
    }
}

proof fn split_shows(list: Seq<Candidate>, url: Seq<char>)
    requires
        list.len() > 0,
    ensures
        shows(list, url) <==> list.last().0 == url || shows(list.drop_last(), url),
{
    let rest = list.drop_last();
    if shows(list, url) {
        let i = choose|i: int| 0 <= i < list.len() && (#[trigger] list[i]).0 == url;
        if i < rest.len() {
            assert(rest[i].0 == url);
        }
    }
    if shows(rest, url) {
        let i = choose|i: int| 0 <= i < rest.len() && (#[trigger] rest[i]).0 == url;
        assert(list[i].0 == url);
    }
    assert(list[list.len() - 1] == list.last());
}

proof fn distinct_shows(list: Seq<Candidate>, url: Seq<char>)
    ensures
        shows(crate::providers::fal_jobs::distinct(list), url) <==> shows(list, url),
    decreases list.len(),
{
    if list.len() > 0 {
        let rest = list.drop_last();
        distinct_shows(rest, url);
        split_shows(list, url);
        let kept = crate::providers::fal_jobs::distinct(rest);
        let all = crate::providers::fal_jobs::distinct(list);
        if kept.len() > 0 && kept.last().0 == list.last().0 {
            assert(all == kept);
            assert(kept[kept.len() - 1].0 == list.last().0);
        } else {
            assert(all == kept.push(list.last()));
            assert(all.drop_last() =~= kept);
            split_shows(all, url);
        }
    }
}

proof fn videos_show(value: JsonView, url: Seq<char>)
    ensures
        shows(crate::providers::fal_jobs::videos(value), url) <==> shows(
            crate::providers::fal_jobs::candidates(value, false),
            url,
        ),
{
    let all = crate::providers::fal_jobs::candidates(value, false);
    ascending_shows(all, url);
    distinct_shows(crate::providers::fal_jobs::ascending(all), url);
}

proof fn joined_shows(left: Seq<Candidate>, right: Seq<Candidate>, url: Seq<char>)
    ensures
        shows(left + right, url) <==> shows(left, url) || shows(right, url),
{
    let all = left + right;
    if shows(left, url) {
        let i = choose|i: int| 0 <= i < left.len() && (#[trigger] left[i]).0 == url;
        assert(all[i].0 == url);
    }
    if shows(right, url) {
        let i = choose|i: int| 0 <= i < right.len() && (#[trigger] right[i]).0 == url;
        assert(all[left.len() + i].0 == url);
    }
    if shows(all, url) {
        let i = choose|i: int| 0 <= i < all.len() && (#[trigger] all[i]).0 == url;
        if i < left.len() {
            assert(left[i].0 == url);
        } else {
            assert(right[i - left.len()].0 == url);
        }
    }
}

/// Whether a key speaks of a video.
pub open spec fn names_video(key: Seq<char>) -> bool {
    crate::text::occurs(crate::text::lower_text(key), "video"@)
}

proof fn members_show(
    members: Seq<(Seq<char>, JsonView)>,
    video: bool,
    url: Seq<char>,
)
    ensures
        shows(crate::providers::fal_jobs::member_candidates(members, video), url) <==> exists|
            i: int,
        |
            0 <= i < members.len() && shows(
                crate::providers::fal_jobs::candidates(
                    (#[trigger] members[i]).1,
                    video || names_video(members[i].0),
                ),
                url,
            ),
    decreases members.len(),
{
    if members.len() > 0 {
        let rest = members.drop_last();
        members_show(rest, video, url);
        let last = crate::providers::fal_jobs::candidates(
            members.last().1,
            video || names_video(members.last().0),
        );
        joined_shows(crate::providers::fal_jobs::member_candidates(rest, video), last, url);
        if shows(crate::providers::fal_jobs::member_candidates(rest, video), url) {
            let i = choose|i: int|
                0 <= i < rest.len() && shows(
                    crate::providers::fal_jobs::candidates(
                        (#[trigger] rest[i]).1,
                        video || names_video(rest[i].0),
                    ),
                    url,
                );
            assert(members[i] == rest[i]);
        }
        assert(members[members.len() - 1] == members.last());
        if exists|i: int|
            0 <= i < members.len() && shows(
                crate::providers::fal_jobs::candidates(
                    (#[trigger] members[i]).1,
                    video || names_video(members[i].0),
                ),
                url,
            ) {
            let i = choose|i: int|
                0 <= i < members.len() && shows(
                    crate::providers::fal_jobs::candidates(
                        (#[trigger] members[i]).1,
                        video || names_video(members[i].0),
                    ),
                    url,
                );
            if i < rest.len() {
                assert(rest[i] == members[i]);
            }
        }
    }
}

proof fn items_show(items: Seq<JsonView>, video: bool, url: Seq<char>)
    ensures
        shows(crate::providers::fal_jobs::item_candidates(items, video), url) <==> exists|i: int|
            0 <= i < items.len() && shows(
                crate::providers::fal_jobs::candidates(#[trigger] items[i], video),
                url,
            ),
    decreases items.len(),
{
    if items.len() > 0 {
        let rest = items.drop_last();
        items_show(rest, video, url);
        joined_shows(
            crate::providers::fal_jobs::item_candidates(rest, video),
            crate::providers::fal_jobs::candidates(items.last(), video),
            url,
        );
        if shows(crate::providers::fal_jobs::item_candidates(rest, video), url) {
            let i = choose|i: int|
                0 <= i < rest.len() && shows(
                    crate::providers::fal_jobs::candidates(#[trigger] rest[i], video),
                    url,
                );
            assert(items[i] == rest[i]);
        }
        assert(items[items.len() - 1] == items.last());
        if exists|i: int|
            0 <= i < items.len() && shows(
                crate::providers::fal_jobs::candidates(#[trigger] items[i], video),
                url,
            ) {
            let i = choose|i: int|
                0 <= i < items.len() && shows(
                    crate::providers::fal_jobs::candidates(#[trigger] items[i], video),
                    url,
                );
            if i < rest.len() {
                assert(rest[i] == items[i]);
            }
        }
    }
}

/// The result of an answer is what stands under `data`, and the whole answer where nothing does.
pub proof fn results_stand_in_their_answers(payload: JsonView)
    ensures
        crate::json::field(payload, "data"@) is None ==> crate::providers::fal_jobs::videos(
            crate::providers::fal_jobs::result_data(payload),
        ) == crate::providers::fal_jobs::videos(payload),
        crate::json::field(payload, "data"@) matches Some(data)
            ==> crate::providers::fal_jobs::videos(
            crate::providers::fal_jobs::result_data(payload),
        ) == crate::providers::fal_jobs::videos(data),
{
}

/// The URL of an object under a key that speaks of a video is found in the answer that holds it,
/// whatever the URL looks like; so is an `https` URL that stands under such a key itself, and every
/// such URL in a list there.
pub proof fn named_videos_are_found(
    answer: JsonView,
    key: Seq<char>,
    value: JsonView,
    url: Seq<char>,
    item: int,
)
    requires
        crate::json::field(answer, "data"@) is None,
        crate::json::field(answer, key) == Some(value),
        names_video(key),
    ensures
        ({
            let found = crate::providers::fal_jobs::videos(
                crate::providers::fal_jobs::result_data(answer),
            );
            &&& crate::json::field(value, "url"@) == Some(JsonView::Text(url)) ==> shows(found, url)
            &&& value == JsonView::Text(url) && "https://"@.is_prefix_of(url) ==> shows(found, url)
            &&& value matches JsonView::Array(items) ==> (0 <= item < items.len() && (
            crate::json::field(items[item], "url"@) == Some(JsonView::Text(url)) || (items[item]
                == JsonView::Text(url) && "https://"@.is_prefix_of(url))) ==> shows(found, url))
        }),
{
    let members = answer->Object_0;
    let i = crate::json::lookup_position(members, key);
    videos_show(answer, url);
    let kind = crate::providers::fal_jobs::content_type(answer);
    let inside = kind matches Some(k) && "video/"@.is_prefix_of(k);
    members_show(members, inside, url);
    joined_shows(own_candidate(answer, false), crate::providers::fal_jobs::member_candidates(members, inside), url);
    assert(members[i].1 == value && members[i].0 == key);
    under_video(value, url);
    if let JsonView::Array(items) = value {
        if 0 <= item < items.len() {
            under_video(items[item], url);
            items_show(items, true, url);
        }
    }
}

/// The candidate that an object is itself.
spec fn own_candidate(value: JsonView, video: bool) -> Seq<Candidate> {
    let kind = crate::providers::fal_jobs::content_type(value);
    let inside = video || (kind matches Some(k) && "video/"@.is_prefix_of(k));
    match crate::json::text_field(value, "url"@) {
        Some(url) => if inside || crate::providers::fal_jobs::video_extension(url) {
            seq![(url, kind)]
        } else {
            Seq::empty()
        },
        None => Seq::empty(),
    }
}

proof fn under_video(value: JsonView, url: Seq<char>)
    ensures
        crate::json::field(value, "url"@) == Some(JsonView::Text(url)) ==> shows(
            crate::providers::fal_jobs::candidates(value, true),
            url,
        ),
        value == JsonView::Text(url) && "https://"@.is_prefix_of(url) ==> shows(
            crate::providers::fal_jobs::candidates(value, true),
            url,
        ),
{
    let list = crate::providers::fal_jobs::candidates(value, true);
    if crate::json::field(value, "url"@) == Some(JsonView::Text(url)) {
        assert(list[0].0 == url);
    }
    if value == JsonView::Text(url) && "https://"@.is_prefix_of(url) {
        assert(list[0].0 == url);
    }
}

/// Whether a URL, without its query, ends like a video file.
pub open spec fn ends_like_a_video(url: Seq<char>) -> bool {
    exists|n: int|
        0 <= n <= url.len() && (n == url.len() || url[n] == '?') && (forall|i: int|
            0 <= i < n ==> #[trigger] url[i] != '?') && (".mp4"@.is_suffix_of(
            #[trigger] url.take(n),
        ) || ".webm"@.is_suffix_of(url.take(n)) || ".mov"@.is_suffix_of(url.take(n))
            || ".mkv"@.is_suffix_of(url.take(n)))
}

proof fn query_start(url: Seq<char>)
    ensures
        ({
            let n = crate::text::before_char(url, '?');
            &&& n <= url.len()
            &&& n < url.len() ==> url[n as int] == '?'
            &&& forall|i: int| 0 <= i < n ==> #[trigger] url[i] != '?'
        }),
    decreases url.len(),
{
    if url.len() > 0 && url[0] != '?' {
        query_start(url.skip(1));
        let n = crate::text::before_char(url, '?');
        assert forall|i: int| 0 <= i < n implies #[trigger] url[i] != '?' by {
            if i > 0 {
                assert(url.skip(1)[i - 1] == url[i]);
            }
        }
    }
}

proof fn extension_is_recognised(url: Seq<char>)
    ensures
        crate::providers::fal_jobs::video_extension(url) <==> ends_like_a_video(url),
{
    query_start(url);
    let n = crate::text::before_char(url, '?') as int;
    if ends_like_a_video(url) {
        let k = choose|k: int|
            0 <= k <= url.len() && (k == url.len() || url[k] == '?') && (forall|i: int|
                0 <= i < k ==> #[trigger] url[i] != '?') && (".mp4"@.is_suffix_of(
                #[trigger] url.take(k),
            ) || ".webm"@.is_suffix_of(url.take(k)) || ".mov"@.is_suffix_of(url.take(k))
                || ".mkv"@.is_suffix_of(url.take(k)));
        if k < n {
            assert(url[k] != '?');
        }
        if n < k {
            assert(url[n] != '?');
        }
        assert(k == n);
    }
    if crate::providers::fal_jobs::video_extension(url) {
        assert(url.take(n) == url.take(n));
    }
}

/// Whether an object says that it is a video.
pub open spec fn says_video(value: JsonView) -> bool {
    match crate::json::field(value, "content_type"@) {
        Some(JsonView::Text(kind)) => "video/"@.is_prefix_of(kind),
        Some(_) => false,
        None => crate::json::field(value, "mime_type"@) matches Some(JsonView::Text(kind))
            && "video/"@.is_prefix_of(kind),
    }
}

/// The videos of a list are those of its items; those of an object that does not itself say that it
/// is a video are its own URL, where that ends like one, those of its members, and whatever stands
/// under a key that speaks of a video. Nothing else is found.
pub proof fn videos_are_found_in_parts(value: JsonView, url: Seq<char>)
    ensures
        value matches JsonView::Array(items) ==> (shows(
            crate::providers::fal_jobs::videos(value),
            url,
        ) <==> exists|i: int|
            0 <= i < items.len() && shows(
                crate::providers::fal_jobs::videos(#[trigger] items[i]),
                url,
            )),
        value matches JsonView::Object(members) ==> (!says_video(value) ==> (shows(
            crate::providers::fal_jobs::videos(value),
            url,
        ) <==> (crate::json::field(value, "url"@) == Some(JsonView::Text(url))
            && ends_like_a_video(url)) || exists|i: int|
            0 <= i < members.len() && (if names_video((#[trigger] members[i]).0) {
                shows(crate::providers::fal_jobs::candidates(members[i].1, true), url)
            } else {
                shows(crate::providers::fal_jobs::videos(members[i].1), url)
            }))),
        says_video(value) && crate::json::field(value, "url"@) == Some(JsonView::Text(url))
            ==> shows(crate::providers::fal_jobs::videos(value), url),
        !(value is Array) && !(value is Object) ==> !shows(
            crate::providers::fal_jobs::videos(value),
            url,
        ),
{
    videos_show(value, url);
    extension_is_recognised(url);
    match value {
        JsonView::Array(items) => {
            items_show(items, false, url);
            assert forall|i: int| 0 <= i < items.len() implies (shows(
                crate::providers::fal_jobs::videos(#[trigger] items[i]),
                url,
            ) <==> shows(crate::providers::fal_jobs::candidates(items[i], false), url)) by {
                videos_show(items[i], url);
            }
        },
        JsonView::Object(members) => {
            let inside = says_video(value);
            let own = own_candidate(value, false);
            members_show(members, inside, url);
            joined_shows(own, crate::providers::fal_jobs::member_candidates(members, inside), url);
            assert forall|i: int| 0 <= i < members.len() implies (shows(
                crate::providers::fal_jobs::videos((#[trigger] members[i]).1),
                url,
            ) <==> shows(crate::providers::fal_jobs::candidates(members[i].1, false), url)) by {
                videos_show(members[i].1, url);
            }
            if own.len() > 0 {
                extension_is_recognised(own[0].0);
            }
            if crate::json::field(value, "url"@) == Some(JsonView::Text(url)) && own.len() > 0 {
                assert(own[0].0 == url);
            }
            if shows(own, url) {
                assert(own[0].0 == url);
            }
        },
        _ => {},
    }
}

/// The artifacts are the found videos that are safe to fetch, all of them and no others, in the
/// order in which they were found; each knows its place among all that were found.
pub proof fn artifacts_are_the_safe_videos(found: Seq<Candidate>, safe: Seq<bool>)
    requires
        safe.len() == found.len(),
    ensures
        ({
            let made = crate::providers::fal_jobs::numbered(found, safe);
            &&& forall|k: int|
                0 <= k < made.len() ==> (#[trigger] made[k]).1 < found.len() && safe[made[k].1 as int]
                    && made[k].0 == found[made[k].1 as int]
            &&& forall|i: int|
                0 <= i < found.len() && #[trigger] safe[i] ==> made.contains((found[i], i as nat))
            &&& forall|j: int, k: int|
                0 <= j < k < made.len() ==> (#[trigger] made[j]).1 < (#[trigger] made[k]).1
        }),
{
    safe_videos(found, safe);
}

proof fn safe_videos(found: Seq<Candidate>, safe: Seq<bool>)
    requires
        safe.len() >= found.len(),
    ensures
        ({
            let made = crate::providers::fal_jobs::numbered(found, safe);
            &&& forall|k: int|
                0 <= k < made.len() ==> (#[trigger] made[k]).1 < found.len() && safe[made[k].1 as int]
                    && made[k].0 == found[made[k].1 as int]
            &&& forall|i: int|
                0 <= i < found.len() && #[trigger] safe[i] ==> made.contains((found[i], i as nat))
            &&& forall|j: int, k: int|
                0 <= j < k < made.len() ==> (#[trigger] made[j]).1 < (#[trigger] made[k]).1
        }),
    decreases found.len(),
{
    if found.len() > 0 {
        let rest = found.drop_last();
        safe_videos(rest, safe);
        let before = crate::providers::fal_jobs::numbered(rest, safe);
        let made = crate::providers::fal_jobs::numbered(found, safe);
        let last = (found.len() - 1) as nat;
        assert forall|i: int| 0 <= i < found.len() && #[trigger] safe[i] implies made.contains(
            (found[i], i as nat),
        ) by {
            if i < last {
                assert(rest[i] == found[i]);
                let k = before.index_of((found[i], i as nat));
                assert(before.contains((found[i], i as nat)));
                assert(made[k] == before[k]);
            } else {
                assert(made[before.len() as int] == (found.last(), last));
            }
        }
    }
}

/// The states that fal.ai names, in letters of either case; any other is kept under its name in
/// small letters.
pub proof fn named_states_are_recognised(raw: Seq<char>)
    ensures
        crate::text::upper_text(raw) == "IN_QUEUE"@ ==> crate::providers::fal_jobs::named_status(raw)
            == StatusView::Pending,
        crate::text::upper_text(raw) == "IN_PROGRESS"@ ==> crate::providers::fal_jobs::named_status(
            raw,
        ) == StatusView::InProgress,
        crate::text::upper_text(raw) == "COMPLETED"@ <==> crate::providers::fal_jobs::named_status(
            raw,
        ) == StatusView::Completed,
        crate::text::upper_text(raw) == "CANCELLED"@ || crate::text::upper_text(raw) == "CANCELED"@
            <==> crate::providers::fal_jobs::named_status(raw) == StatusView::Cancelled,
        crate::text::upper_text(raw) == "FAILED"@ <==> crate::providers::fal_jobs::named_status(raw)
            == StatusView::Failed,
        crate::providers::fal_jobs::named_status(raw) matches StatusView::Unknown(name)
            ==> crate::text::lower_text(raw) == name,
        crate::providers::fal_jobs::named_status(raw) == StatusView::Pending
            ==> crate::text::upper_text(raw) == "IN_QUEUE"@,
        crate::providers::fal_jobs::named_status(raw) == StatusView::InProgress
            ==> crate::text::upper_text(raw) == "IN_PROGRESS"@,
{
    reveal_strlit("IN_QUEUE");
    reveal_strlit("IN_PROGRESS");
    reveal_strlit("COMPLETED");
    reveal_strlit("CANCELLED");
    reveal_strlit("CANCELED");
    reveal_strlit("FAILED");
    assert("IN_QUEUE"@.len() == 8 && "IN_PROGRESS"@.len() == 11 && "COMPLETED"@.len() == 9);
    assert("CANCELLED"@.len() == 9 && "CANCELED"@.len() == 8 && "FAILED"@.len() == 6);
    assert("COMPLETED"@[1] != "CANCELLED"@[1]);
    assert("IN_QUEUE"@[0] != "CANCELED"@[0]);
}

/// A job is reported as failed where its answer reports an error, whatever state it names, and
/// otherwise in the state that the answer names.
pub proof fn errors_are_failures(payload: JsonView)
    ensures
        crate::providers::fal_jobs::payload_error(payload) is Some
            ==> crate::providers::fal_jobs::reported_status(payload) == StatusView::Failed,
        crate::providers::fal_jobs::payload_error(payload) is None ==> (crate::json::field(
            payload,
            "status"@,
        ) matches Some(JsonView::Text(name)) ==> crate::providers::fal_jobs::reported_status(
            payload,
        ) == crate::providers::fal_jobs::named_status(name)),
        crate::providers::fal_jobs::payload_error(payload) is None && crate::json::field(
            payload,
            "status"@,
        ) is None ==> crate::providers::fal_jobs::reported_status(payload) is Unknown,
        crate::providers::fal_jobs::result_ready(payload) ==> (crate::json::field(
            payload,
            "status"@,
        ) matches Some(JsonView::Text(name)) && crate::text::upper_text(name) == "COMPLETED"@),
        crate::providers::fal_jobs::payload_error(payload) is None ==> (crate::json::field(
            payload,
            "status"@,
        ) matches Some(JsonView::Text(name)) ==> (crate::text::upper_text(name) == "COMPLETED"@
            ==> crate::providers::fal_jobs::result_ready(payload))),
        crate::providers::fal_jobs::payload_error(payload) is Some
            ==> !crate::providers::fal_jobs::result_ready(payload),
{
    reveal_strlit("UNKNOWN");
    reveal_strlit("IN_QUEUE");
    reveal_strlit("IN_PROGRESS");
    reveal_strlit("COMPLETED");
    reveal_strlit("CANCELLED");
    reveal_strlit("CANCELED");
    reveal_strlit("FAILED");
    assert(crate::text::upper_text("UNKNOWN"@).len() == 7);
    assert("IN_QUEUE"@.len() == 8 && "IN_PROGRESS"@.len() == 11 && "COMPLETED"@.len() == 9);
    assert("CANCELLED"@.len() == 9 && "CANCELED"@.len() == 8 && "FAILED"@.len() == 6);
}

/// What an answer says of its error: the text or the message under `error`, else the kind of error,
/// else its own message or detail. An answer without any of these reports no error.
pub proof fn errors_are_told(payload: JsonView, error: JsonView)
    requires
        crate::json::field(payload, "error"@) == Some(error),
    ensures
        error matches JsonView::Text(text) ==> (text.len() > 0 && text != "{}"@
            ==> crate::providers::fal_jobs::payload_error(payload) == Some(text)),
        crate::json::field(error, "message"@) matches Some(JsonView::Text(text)) ==> (text.len() > 0
            && text != "{}"@ ==> crate::providers::fal_jobs::payload_error(payload) == Some(text)
            && crate::providers::fal_jobs::error_texts(payload).0 == text),
        error == JsonView::Null ==> (crate::json::field(payload, "error_type"@) matches Some(
            JsonView::Text(kind),
        ) ==> (kind.len() > 0 ==> crate::providers::fal_jobs::payload_error(payload) == Some(
            kind,
        ))),
        error == JsonView::Null && crate::json::field(payload, "error_type"@) is None
            && crate::json::field(payload, "detail"@) is None
            ==> crate::providers::fal_jobs::payload_error(payload) is None,
        crate::json::field(error, "type"@) matches Some(JsonView::Text(code))
            ==> crate::providers::fal_jobs::error_texts(payload).1 == Some(code),
        crate::json::field(error, "type"@) is None ==> (crate::json::field(
            error,
            "code"@,
        ) matches Some(JsonView::Text(code)) ==> crate::providers::fal_jobs::error_texts(payload).1
            == Some(code)),
        crate::json::field(error, "type"@) is None && crate::json::field(error, "code"@) is None
            ==> crate::providers::fal_jobs::error_texts(payload).1 is None,
        crate::json::field(error, "message"@) is None ==> (crate::json::field(
            payload,
            "detail"@,
        ) matches Some(JsonView::Text(text)) ==> crate::providers::fal_jobs::error_texts(payload).0
            == text),
{
}

/// An answer without an `error` member reports the kind of error that it names, else its message,
/// else its detail, and none where it has none of these.
pub proof fn plain_answers_tell_their_errors(payload: JsonView)
    requires
        crate::json::field(payload, "error"@) is None,
    ensures
        crate::json::field(payload, "error_type"@) matches Some(JsonView::Text(kind)) ==> (
        kind.len() > 0 ==> crate::providers::fal_jobs::payload_error(payload) == Some(kind)),
        crate::json::field(payload, "error_type"@) is None ==> (crate::json::field(
            payload,
            "message"@,
        ) matches Some(JsonView::Text(text)) ==> (text.len() > 0
            ==> crate::providers::fal_jobs::payload_error(payload) == Some(text))),
        crate::json::field(payload, "error_type"@) is None && crate::json::field(
            payload,
            "message"@,
        ) is None ==> (crate::json::field(payload, "detail"@) matches Some(JsonView::Text(text))
            ==> (text.len() > 0 ==> crate::providers::fal_jobs::payload_error(payload) == Some(
            text,
        ))),
        crate::json::field(payload, "error_type"@) is None && crate::json::field(
            payload,
            "message"@,
        ) is None && crate::json::field(payload, "detail"@) is None
            ==> crate::providers::fal_jobs::payload_error(payload) is None,
{
}

/// A job is looked for where its answer says, under its model and its identifier.
pub proof fn answers_say_where_jobs_are(
    endpoint_id: Seq<char>,
    request_id: Seq<char>,
    payload: JsonView,
)
    ensures
        crate::providers::fal_jobs::answered_locator(
            endpoint_id,
            request_id,
            payload,
        ) matches LocatorView::Fal {
            endpoint_id: model,
            request_id: id,
            status_url,
            response_url,
        } && model == endpoint_id && id == request_id && (match crate::json::field(
            payload,
            "status_url"@,
        ) {
            Some(JsonView::Text(url)) => status_url == Some(url),
            _ => status_url is None,
        }) && (match crate::json::field(payload, "response_url"@) {
            Some(JsonView::Text(url)) => response_url == Some(url),
            _ => response_url is None,
        }),
        match crate::json::field(payload, "metrics"@) {
            Some(JsonView::Object(members)) => crate::providers::fal_jobs::metrics(payload)
                == JsonView::Object(members),
            _ => crate::providers::fal_jobs::metrics(payload) == JsonView::Object(Seq::empty()),
        },
{
}

proof fn placed_holds(list: Seq<Candidate>, c: Candidate, x: Candidate)
    ensures
        crate::providers::fal_jobs::placed(list, c).contains(x) ==> x == c || list.contains(x),
    decreases list.len(),
{
    let after = crate::providers::fal_jobs::placed(list, c);
    if after.contains(x) {
        let i = after.index_of(x);
        if list.len() == 0 || crate::providers::fal_jobs::before(c, list[0]) {
            if i > 0 {
                assert(list[i - 1] == x);
            }
        } else {
            let tail = list.skip(1);
            let rest = crate::providers::fal_jobs::placed(tail, c);
            placed_holds(tail, c, x);
            if i > 0 {
                assert(rest[i - 1] == x);
                if tail.contains(x) {
                    assert(list[tail.index_of(x) + 1] == x);
                }
            } else {
                assert(list[0] == x);
            }
        }
    }
}

proof fn found_are_candidates(list: Seq<Candidate>, x: Candidate)
    ensures
        crate::providers::fal_jobs::ascending(list).contains(x) ==> list.contains(x),
        crate::providers::fal_jobs::distinct(list).contains(x) ==> list.contains(x),
    decreases list.len(),
{
    if list.len() > 0 {
        let rest = list.drop_last();
        found_are_candidates(rest, x);
        placed_holds(crate::providers::fal_jobs::ascending(rest), list.last(), x);
        assert(list[list.len() - 1] == list.last());
        if rest.contains(x) {
            assert(list[rest.index_of(x)] == x);
        }
        let kept = crate::providers::fal_jobs::distinct(rest);
        let all = crate::providers::fal_jobs::distinct(list);
        if all.contains(x) && all != kept {
            let i = all.index_of(x);
            if i < kept.len() {
                assert(kept[i] == x);
            }
        }
    }
}

/// A found video is told with what its own object says that it contains, under either name; a video
/// that is found is never made up.
pub proof fn videos_keep_their_content_type(value: JsonView, url: Seq<char>, found: Candidate)
    ensures
        crate::providers::fal_jobs::videos(value).contains(found)
            ==> crate::providers::fal_jobs::candidates(value, false).contains(found),
        crate::json::field(value, "url"@) == Some(JsonView::Text(url)) ==> (crate::json::field(
            value,
            "content_type"@,
        ) matches Some(JsonView::Text(kind)) ==> crate::providers::fal_jobs::candidates(
            value,
            true,
        )[0] == (url, Some(kind))),
        crate::json::field(value, "url"@) == Some(JsonView::Text(url)) && crate::json::field(
            value,
            "content_type"@,
        ) is None ==> (crate::json::field(value, "mime_type"@) matches Some(JsonView::Text(kind))
            ==> crate::providers::fal_jobs::candidates(value, true)[0] == (url, Some(kind))),
        crate::json::field(value, "url"@) == Some(JsonView::Text(url)) && crate::json::field(
            value,
            "content_type"@,
        ) is None && crate::json::field(value, "mime_type"@) is None
            ==> crate::providers::fal_jobs::candidates(value, true)[0] == (
            url,
            None::<Seq<char>>,
        ),
{
    let all = crate::providers::fal_jobs::candidates(value, false);
    let sorted = crate::providers::fal_jobs::ascending(all);
    found_are_candidates(sorted, found);
    found_are_candidates(all, found);
}

} // verus!
