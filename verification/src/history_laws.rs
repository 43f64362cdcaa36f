//! What the saved history promises of its rows: what a report changes in a row and what it leaves
//! alone, and which rows a listing shows.

use crate::domain::{LocatorView, StatusView, VideoJob};
use crate::history::{GenerationRow, LegacyView, RowView};
use crate::json::JsonView;
use vstd::prelude::*;

verus! {

/// What a report gives replaces what a row has: the output, the cost and the identifier of the
/// generation that come with it, its status, its place, its error and its time. What it does not
/// give stays, and so do the row's key, its request and the time of its creation.
pub proof fn updates_take_what_is_given(
    row: RowView,
    job: VideoJob,
    locator: LocatorView,
    output_path: Option<Seq<char>>,
    cost: Option<Seq<char>>,
    now: Seq<char>,
    updated: RowView,
)
    requires
        updated == crate::history::updated_row(
            row,
            crate::history::report(job, locator, cost),
            output_path,
            now,
        ),
    ensures
        output_path is Some ==> updated.output_path == output_path,
        output_path is None ==> updated.output_path == row.output_path,
        cost is Some ==> updated.cost == cost && updated.currency is Some,
        cost is None ==> updated.cost == row.cost,
        job.generation_id matches Some(id) ==> updated.generation_id == Some(id@),
        job.generation_id is None ==> updated.generation_id == row.generation_id,
        job.error matches Some(error) ==> updated.error == Some(error@),
        job.error is None ==> updated.error is None,
        updated.status == job.status@.name(),
        updated.locator == locator,
        updated.updated_at == now,
        updated.provider_id == row.provider_id,
        updated.remote_job_id == row.remote_job_id,
        updated.request_json == row.request_json,
        updated.created_at == row.created_at,
        crate::json::field(job.usage@, "currency"@) is None && cost is Some ==> updated.currency
            == Some("USD"@),
        crate::json::field(job.usage@, "currency"@) is None && cost is None ==> updated.currency
            == row.currency,
{
}

/// A job that is saved for the first time gets a row of its own, with what it says and without an
/// output; one that has a row keeps the row's key, output and time of creation, and the request
/// that the row has.
pub proof fn submissions_take_what_is_given(
    saved: Option<RowView>,
    job: VideoJob,
    provider_id: Seq<char>,
    locator: LocatorView,
    request_json: Option<Seq<char>>,
    cost: Option<Seq<char>>,
    now: Seq<char>,
    row: RowView,
)
    requires
        row == crate::history::submitted_row(
            saved,
            provider_id,
            job.id@,
            crate::history::report(job, locator, cost),
            request_json,
            now,
        ),
    ensures
        row.status == job.status@.name(),
        row.locator == locator,
        row.updated_at == now,
        row.error == crate::domain::opt_view(job.error),
        cost is Some ==> row.cost == cost && row.currency is Some,
        job.generation_id matches Some(id) ==> row.generation_id == Some(id@),
        match saved {
            None => {
                &&& row.provider_id == provider_id
                &&& row.remote_job_id == job.id@
                &&& row.request_json == request_json
                &&& row.output_path is None
                &&& row.created_at == now
                &&& cost is None ==> row.cost is None
                &&& job.generation_id is None ==> row.generation_id is None
            },
            Some(before) => {
                &&& row.provider_id == before.provider_id
                &&& row.remote_job_id == before.remote_job_id
                &&& row.output_path == before.output_path
                &&& row.created_at == before.created_at
                &&& before.request_json is Some ==> row.request_json == before.request_json
                &&& before.request_json is None ==> row.request_json == request_json
                &&& cost is None ==> row.cost == before.cost
                &&& job.generation_id is None ==> row.generation_id == before.generation_id
                &&& cost is None && crate::json::field(job.usage@, "currency"@) is None
                    ==> row.currency == before.currency
            },
        },
{
}

/// Whether an older row and a row say the same of a job.
pub open spec fn agree(older: LegacyView, row: RowView) -> bool {
    &&& older.job_id == row.remote_job_id
    &&& older.status == row.status
    &&& older.request_json == row.request_json
    &&& older.generation_id == row.generation_id
    &&& older.output_path == row.output_path
    &&& older.cost == row.cost
    &&& older.error == row.error
    &&& older.created_at == row.created_at
    &&& older.updated_at == row.updated_at
}

/// The two tables say the same: rows that agree still agree after the same submission and after the
/// same update, and the rows of a new job agree. The older row shows where the job is to be found.
pub proof fn tables_stay_in_step(
    older: LegacyView,
    row: RowView,
    job: VideoJob,
    locator: LocatorView,
    polling_url: Seq<char>,
    request_json: Option<Seq<char>>,
    output_path: Option<Seq<char>>,
    cost: Option<Seq<char>>,
    now: Seq<char>,
)
    requires
        agree(older, row),
    ensures
        ({
            let here = crate::history::report(job, locator, cost);
            let there = crate::history::report(job, job.locator@, cost);
            let fresh = crate::history::submitted_legacy(
                None,
                job.id@,
                polling_url,
                there,
                request_json,
                now,
            );
            let again = crate::history::submitted_legacy(
                Some(older),
                job.id@,
                polling_url,
                there,
                request_json,
                now,
            );
            let updated = crate::history::updated_legacy(
                older,
                polling_url,
                there,
                output_path,
                now,
            );
            &&& agree(
                fresh,
                crate::history::submitted_row(
                    None,
                    row.provider_id,
                    job.id@,
                    here,
                    request_json,
                    now,
                ),
            )
            &&& agree(
                again,
                crate::history::submitted_row(
                    Some(row),
                    row.provider_id,
                    job.id@,
                    here,
                    request_json,
                    now,
                ),
            )
            &&& agree(updated, crate::history::updated_row(row, here, output_path, now))
            &&& fresh.polling_url == polling_url
            &&& again.polling_url == polling_url
            &&& updated.polling_url == polling_url
        }),
{
}

/// An older row that is later than the saved one gives its row whatever it has; what it lacks
/// stays. Without a saved one there is a row that agrees with it, at OpenRouter.
pub proof fn later_rows_are_taken_over(
    saved: Option<RowView>,
    older: LegacyView,
    request_json: Option<Seq<char>>,
    row: RowView,
)
    requires
        row == crate::history::reconciled(saved, older, request_json),
        saved matches Some(before) ==> crate::text::precedes(before.updated_at, older.updated_at),
    ensures
        row.locator == (LocatorView::OpenRouter { polling_url: older.polling_url }),
        row.status == older.status,
        row.error == older.error,
        row.updated_at == older.updated_at,
        request_json is Some ==> row.request_json == request_json,
        older.generation_id is Some ==> row.generation_id == older.generation_id,
        older.output_path is Some ==> row.output_path == older.output_path,
        older.cost is Some ==> row.cost == older.cost && row.currency == Some("USD"@),
        match saved {
            None => {
                &&& row.provider_id == "openrouter"@
                &&& agree(LegacyView { request_json, ..older }, row)
                &&& older.cost is None ==> row.currency is None
            },
            Some(before) => {
                &&& row.provider_id == before.provider_id
                &&& row.remote_job_id == before.remote_job_id
                &&& row.created_at == before.created_at
                &&& request_json is None ==> row.request_json == before.request_json
                &&& older.generation_id is None ==> row.generation_id == before.generation_id
                &&& older.output_path is None ==> row.output_path == before.output_path
                &&& older.cost is None ==> row.cost == before.cost && row.currency
                    == before.currency
            },
        },
{
}

/// The currency of a cost is the one that the usage names, without white space around it and in
/// capitals; it is dollars where the usage names none, and there is none without a cost.
pub proof fn costs_have_a_currency(usage: JsonView, has_cost: bool)
    ensures
        has_cost ==> crate::history::currency_in(usage, has_cost) is Some,
        !(crate::json::field(usage, "currency"@) is Some) && has_cost
            ==> crate::history::currency_in(usage, has_cost) == Some("USD"@),
        !(crate::json::field(usage, "currency"@) is Some) && !has_cost
            ==> crate::history::currency_in(usage, has_cost) is None,
        crate::json::field(usage, "currency"@) matches Some(JsonView::Text(name)) ==> (
        crate::text::trimmed(name).len() > 0 ==> (crate::history::currency_in(
            usage,
            has_cost,
        ) matches Some(currency) && currency.len() == crate::text::trimmed(name).len() && forall|
            i: int,
        |
            0 <= i < currency.len() ==> #[trigger] currency[i] == crate::text::upper(
                crate::text::trimmed(name)[i],
            ))),
{
}

/// What a usage says of the cost is read as a decimal: a text as it stands, a number as it is
/// written; without a cost there is none.
pub proof fn costs_are_decimals(usage: JsonView)
    ensures
        crate::json::field(usage, "cost"@) matches Some(JsonView::Text(text))
            ==> crate::history::stated_cost(usage) == crate::outside::decimal_of(text),
        crate::json::field(usage, "cost"@) matches Some(JsonView::Number(n))
            ==> crate::history::stated_cost(usage) == crate::outside::decimal_of(
            crate::outside::rendering_of(JsonView::Number(n)),
        ),
        crate::json::field(usage, "cost"@) is None ==> crate::history::stated_cost(usage) is None,
{
}

proof fn names_of_requests_differ()
    ensures
        "provider"@ != "provider_id"@,
        "provider"@ != "adapter_options"@,
        "provider_id"@ != "adapter_options"@,
{
    reveal_strlit("provider");
    reveal_strlit("provider_id");
    reveal_strlit("adapter_options");
    assert("provider"@.len() == 8 && "provider_id"@.len() == 11 && "adapter_options"@.len() == 15);
}

/// Taking out a key leaves every other key its value.
proof fn without_keeps_others(
    members: Seq<(Seq<char>, JsonView)>,
    key: Seq<char>,
    other: Seq<char>,
)
    requires
        crate::json::sorted_keys(members),
    ensures
        crate::json::sorted_keys(crate::json::without(members, key)),
        crate::json::lookup(crate::json::without(members, key), key) is None,
        other != key ==> crate::json::lookup(crate::json::without(members, key), other)
            == crate::json::lookup(members, other),
        forall|i: int|
            0 <= i < crate::json::without(members, key).len() ==> members.contains(
                #[trigger] crate::json::without(members, key)[i],
            ),
    decreases members.len(),
{
    let left = crate::json::without(members, key);
    if members.len() > 0 {
        let tail = members.skip(1);
        assert forall|i: int, j: int| 0 <= i < j < tail.len() implies crate::text::precedes(
            (#[trigger] tail[i]).0,
            (#[trigger] tail[j]).0,
        ) by {
            assert(members[i + 1].0 == tail[i].0 && members[j + 1].0 == tail[j].0);
        }
        without_keeps_others(tail, key, other);
        if members[0].0 == key {
            if crate::json::lookup(tail, key) is Some {
                let k = crate::json::lookup_position(tail, key);
                assert(members[k + 1].0 == key);
                crate::text::precedes_orders(members[0].0, members[k + 1].0);
            }
            assert(left == tail);
            assert forall|i: int| 0 <= i < left.len() implies members.contains(
                #[trigger] left[i],
            ) by {
                assert(members[i + 1] == left[i]);
            }
        } else {
            let rest = crate::json::without(tail, key);
            assert(left == seq![members[0]] + rest);
            assert(left.skip(1) =~= rest);
            assert forall|i: int| 0 <= i < left.len() implies members.contains(
                #[trigger] left[i],
            ) by {
                if i == 0 {
                    assert(members[0] == left[0]);
                } else {
                    assert(left[i] == rest[i - 1]);
                    let k = tail.index_of(rest[i - 1]);
                    assert(tail.contains(rest[i - 1]));
                    assert(members[k + 1] == left[i]);
                }
            }
            assert forall|i: int, j: int| 0 <= i < j < left.len() implies crate::text::precedes(
                (#[trigger] left[i]).0,
                (#[trigger] left[j]).0,
            ) by {
                assert(left[j] == rest[j - 1]);
                if i > 0 {
                    assert(left[i] == rest[i - 1]);
                } else {
                    assert(tail.contains(rest[j - 1]));
                    let k = tail.index_of(rest[j - 1]);
                    assert(members[k + 1] == left[j]);
                }
            }
        }
    }
}

/// A saved request names its provider; the options that a provider's own names put under
/// `provider` stand under `adapter_options`, and everything else is as it was.
pub proof fn saved_requests_keep_their_members(
    members: Seq<(Seq<char>, JsonView)>,
    provider_id: Seq<char>,
    other: Seq<char>,
)
    requires
        crate::json::sorted_keys(members),
        other != "provider"@ && other != "provider_id"@ && other != "adapter_options"@,
    ensures
        ({
            let saved = crate::history::normalized_request(members, provider_id);
            &&& crate::json::lookup(saved, "provider_id"@) == Some(JsonView::Text(provider_id))
            &&& crate::json::lookup(saved, "provider"@) is None
            &&& crate::json::lookup(saved, other) == crate::json::lookup(members, other)
            &&& match crate::json::lookup(members, "provider"@) {
                Some(options) => crate::json::lookup(saved, "adapter_options"@) == Some(options),
                None => crate::json::lookup(saved, "adapter_options"@) == crate::json::lookup(
                    members,
                    "adapter_options"@,
                ),
            }
        }),
{
    names_of_requests_differ();
    let bare = crate::json::without(members, "provider"@);
    without_keeps_others(members, "provider"@, other);
    let (moved, has) = match crate::json::lookup(members, "provider"@) {
        Some(options) => (crate::json::inserted(bare, "adapter_options"@, options), true),
        None => (members, false),
    };
    if has {
        let options = crate::json::lookup(members, "provider"@)->0;
        crate::json::inserted_sorted(bare, "adapter_options"@, options);
        crate::json::inserted_lookup(bare, "adapter_options"@, options, other);
        crate::json::inserted_lookup(bare, "adapter_options"@, options, "provider"@);
    }
    let name = JsonView::Text(provider_id);
    crate::json::inserted_lookup(moved, "provider_id"@, name, other);
    crate::json::inserted_lookup(moved, "provider_id"@, name, "provider"@);
    crate::json::inserted_lookup(moved, "provider_id"@, name, "adapter_options"@);
}

/// An older request that can be read is saved with the name of its provider; one that cannot is
/// kept as it is, and none is made up.
pub proof fn older_requests_are_kept(text: Option<Seq<char>>, payload: Option<JsonView>)
    ensures
        text is None ==> crate::history::legacy_request(text, payload) is None,
        !(payload matches Some(JsonView::Object(members))) ==> crate::history::legacy_request(
            text,
            payload,
        ) == text,
        text is Some ==> crate::history::legacy_request(text, payload) is Some,
        payload matches Some(JsonView::Object(members)) ==> (text is Some
            ==> crate::history::legacy_request(text, payload) == Some(
            crate::outside::rendering_of(
                JsonView::Object(crate::history::normalized_request(members, "openrouter"@)),
            ),
        )),
{
}

/// A job of fal.ai is shown at the URL for its status, else at the one for its answer, else by its
/// model and its identifier; one of OpenRouter is shown at its URL.
pub proof fn jobs_are_shown_where_they_are(
    endpoint_id: Seq<char>,
    request_id: Seq<char>,
    status_url: Option<Seq<char>>,
    response_url: Option<Seq<char>>,
    polling_url: Seq<char>,
)
    ensures
        crate::history::shown_url(LocatorView::OpenRouter { polling_url }) == polling_url,
        ({
            let shown = crate::history::shown_url(
                LocatorView::Fal { endpoint_id, request_id, status_url, response_url },
            );
            &&& status_url is Some ==> Some(shown) == status_url
            &&& status_url is None && response_url is Some ==> Some(shown) == response_url
            &&& status_url is None && response_url is None ==> shown == endpoint_id
                + "/requests/"@ + request_id
        }),
{
}

/// An imported job is looked for where it says, and at OpenRouter, where it says nothing, under
/// its identifier.
pub proof fn imported_jobs_are_looked_for_where_they_say(provider_id: Seq<char>, job: VideoJob)
    ensures
        provider_id != "openrouter"@ || job.polling_url@.len() > 0
            ==> crate::history::imported_locator(provider_id, job) == job.locator@,
        provider_id == "openrouter"@ && job.polling_url@.len() == 0
            ==> crate::history::imported_locator(provider_id, job) == (LocatorView::OpenRouter {
            polling_url: "/api/v1/videos/"@ + job.id@,
        }),
{
}

/// Every status has a name of its own, so that a saved status tells them apart.
pub proof fn statuses_have_their_own_names(a: StatusView, b: StatusView)
    requires
        a !is Unknown,
        b !is Unknown,
        a.name() == b.name(),
    ensures
        a == b,
{
    reveal_strlit("completed");
    reveal_strlit("failed");
    reveal_strlit("cancelled");
    reveal_strlit("expired");
    reveal_strlit("pending");
    reveal_strlit("in_progress");
    assert("pending"@.len() == 7 && "in_progress"@.len() == 11 && "completed"@.len() == 9);
    assert("failed"@.len() == 6 && "cancelled"@.len() == 9 && "expired"@.len() == 7);
    assert("pending"@[0] != "expired"@[0]);
    assert("completed"@[1] != "cancelled"@[1]);
}

proof fn wanted_positions(rows: Seq<GenerationRow>, provider_id: Option<Seq<char>>, pending: bool)
    ensures
        forall|k: nat|
            #[trigger] crate::history::wanted(rows, provider_id, pending).contains(k) <==> k
                < rows.len() && crate::history::wanted_row(rows[k as int], provider_id, pending),
        crate::history::wanted(rows, provider_id, pending).no_duplicates(),
    decreases rows.len(),
{
    let list = crate::history::wanted(rows, provider_id, pending);
    if rows.len() > 0 {
        let rest = rows.drop_last();
        wanted_positions(rest, provider_id, pending);
        let before = crate::history::wanted(rest, provider_id, pending);
        let last = (rows.len() - 1) as nat;
        assert forall|k: nat| #[trigger] list.contains(k) <==> k < rows.len()
            && crate::history::wanted_row(rows[k as int], provider_id, pending) by {
            assert(before.contains(k) <==> k < rest.len() && crate::history::wanted_row(
                rest[k as int],
                provider_id,
                pending,
            ));
            if crate::history::wanted_row(rows.last(), provider_id, pending) {
                assert(list == before.push(last));
                if list.contains(k) {
                    let i = list.index_of(k);
                    if i < before.len() {
                        assert(before[i] == k);
                    }
                }
                if before.contains(k) {
                    let i = before.index_of(k);
                    assert(list[i] == k);
                }
                assert(list[before.len() as int] == last);
            }
        }
        assert(!before.contains(last));
        if crate::history::wanted_row(rows.last(), provider_id, pending) {
            assert forall|i: int, j: int| 0 <= i < list.len() && 0 <= j < list.len() && i
                != j implies list[i] != list[j] by {
                if i < before.len() {
                    assert(before.contains(before[i]));
                }
                if j < before.len() {
                    assert(before.contains(before[j]));
                }
            }
        }
    }
}

proof fn ranked_positions(rows: Seq<GenerationRow>, list: Seq<nat>, at: nat)
    requires
        list.no_duplicates(),
        !list.contains(at),
    ensures
        forall|k: nat|
            #[trigger] crate::history::ranked(rows, list, at).contains(k) <==> k == at
                || list.contains(k),
        crate::history::ranked(rows, list, at).no_duplicates(),
    decreases list.len(),
{
    let after = crate::history::ranked(rows, list, at);
    if list.len() == 0 || crate::text::precedes(
        rows[list[0] as int].created_at@,
        rows[at as int].created_at@,
    ) {
        assert(after == seq![at] + list);
        assert forall|k: nat| #[trigger] after.contains(k) <==> k == at || list.contains(k) by {
            if list.contains(k) {
                assert(after[list.index_of(k) + 1] == k);
            }
            if after.contains(k) {
                let i = after.index_of(k);
                if i > 0 {
                    assert(list[i - 1] == k);
                }
            }
            assert(after[0] == at);
        }
        assert forall|i: int, j: int| 0 <= i < after.len() && 0 <= j < after.len() && i
            != j implies after[i] != after[j] by {
            if i > 0 {
                assert(list.contains(list[i - 1]));
            }
            if j > 0 {
                assert(list.contains(list[j - 1]));
            }
        }
    } else {
        let tail = list.skip(1);
        assert forall|k: nat| tail.contains(k) implies list.contains(k) by {
            assert(list[tail.index_of(k) + 1] == k);
        }
        ranked_positions(rows, tail, at);
        let rest = crate::history::ranked(rows, tail, at);
        assert(after == seq![list[0]] + rest);
        assert(!tail.contains(list[0])) by {
            if tail.contains(list[0]) {
                assert(list[tail.index_of(list[0]) + 1] == list[0]);
            }
        }
        assert(list.contains(list[0]));
        assert(!rest.contains(list[0]));
        assert forall|k: nat| #[trigger] after.contains(k) <==> k == at || list.contains(k) by {
            if after.contains(k) {
                let i = after.index_of(k);
                if i > 0 {
                    assert(rest[i - 1] == k);
                    assert(rest.contains(k));
                }
            }
            if list.contains(k) && k != list[0] {
                assert(tail[list.index_of(k) - 1] == k);
            }
            if rest.contains(k) {
                assert(after[rest.index_of(k) + 1] == k);
            }
            assert(after[0] == list[0]);
            assert(rest.contains(k) <==> k == at || tail.contains(k));
        }
        assert forall|i: int, j: int| 0 <= i < after.len() && 0 <= j < after.len() && i
            != j implies after[i] != after[j] by {
            if i > 0 {
                assert(rest.contains(rest[i - 1]));
            }
            if j > 0 {
                assert(rest.contains(rest[j - 1]));
            }
        }
    }
}

proof fn ordered_positions(rows: Seq<GenerationRow>, list: Seq<nat>)
    requires
        list.no_duplicates(),
    ensures
        forall|k: nat|
            #[trigger] crate::history::newest_first(rows, list).contains(k) <==> list.contains(k),
        crate::history::newest_first(rows, list).no_duplicates(),
    decreases list.len(),
{
    if list.len() > 0 {
        let rest = list.drop_last();
        ordered_positions(rows, rest);
        let before = crate::history::newest_first(rows, rest);
        assert(!rest.contains(list.last())) by {
            if rest.contains(list.last()) {
                assert(list[rest.index_of(list.last())] == list[list.len() - 1]);
            }
        }
        assert(!before.contains(list.last()));
        ranked_positions(rows, before, list.last());
        let after = crate::history::newest_first(rows, list);
        assert forall|k: nat| #[trigger] after.contains(k) <==> list.contains(k) by {
            assert(before.contains(k) <==> rest.contains(k));
            if list.contains(k) && k != list.last() {
                assert(rest[list.index_of(k)] == k);
            }
            if rest.contains(k) {
                assert(list[rest.index_of(k)] == k);
            }
            assert(list[list.len() - 1] == list.last());
        }
    }
}

/// Whether a listing asks for a row: it is the provider's where one is named, and still going on
/// where only such rows are asked for.
pub open spec fn asked_for(row: GenerationRow, provider_id: Option<Seq<char>>, pending: bool) -> bool {
    &&& provider_id matches Some(id) ==> row.provider_id@ == id
    &&& pending ==> row.status@ != "completed"@ && row.status@ != "failed"@ && row.status@
        != "cancelled"@ && row.status@ != "expired"@
}

/// A listing shows only rows that are asked for, none of them twice, and no more than its limit;
/// where the limit leaves room it shows every row that is asked for.
pub proof fn listings_show_what_is_asked_for(
    rows: Seq<GenerationRow>,
    provider_id: Option<Seq<char>>,
    pending: bool,
    limit: Option<nat>,
)
    ensures
        ({
            let shown = crate::history::limited(
                crate::history::newest_first(
                    rows,
                    crate::history::wanted(rows, provider_id, pending),
                ),
                limit,
            );
            &&& shown.no_duplicates()
            &&& limit matches Some(n) ==> shown.len() <= n
            &&& forall|k: nat| #[trigger]
                shown.contains(k) ==> k < rows.len() && asked_for(
                    rows[k as int],
                    provider_id,
                    pending,
                )
            &&& (limit matches Some(n) ==> shown.len() < n) ==> forall|k: nat|
                k < rows.len() && asked_for(rows[k as int], provider_id, pending)
                    ==> #[trigger] shown.contains(k)
        }),
{
    let list = crate::history::wanted(rows, provider_id, pending);
    wanted_positions(rows, provider_id, pending);
    ordered_positions(rows, list);
    let all = crate::history::newest_first(rows, list);
    let shown = crate::history::limited(all, limit);
    assert forall|k: nat| #[trigger] shown.contains(k) implies k < rows.len() && asked_for(
        rows[k as int],
        provider_id,
        pending,
    ) by {
        assert(all[shown.index_of(k)] == k);
        assert(all.contains(k));
        assert(list.contains(k));
    }
    if limit matches Some(n) ==> shown.len() < n {
        assert(shown == all);
        assert forall|k: nat| k < rows.len() && asked_for(
            rows[k as int],
            provider_id,
            pending,
        ) implies #[trigger] shown.contains(k) by {
            assert(list.contains(k));
            assert(all.contains(k));
        }
    }
}

/// A job is one provider's where it, its request and its place all are.
pub proof fn jobs_belong_to_one_provider(
    provider_id: Seq<char>,
    request: &crate::domain::VideoRequest,
    job: VideoJob,
)
    ensures
        crate::history::one_provider(provider_id, Some(request), job) <==> job.provider_id@
            == provider_id && request.provider_id@ == provider_id && job.locator@.provider()
            == provider_id,
        crate::history::one_provider(provider_id, None, job) <==> job.provider_id@ == provider_id
            && job.locator@.provider() == provider_id,
{
}

/// A saved row is read back with its request where that can be read, its cost where it is a decimal,
/// and its times where they are such.
pub proof fn rows_are_read_back(text: Seq<char>, now: crate::domain::Timestamp)
    ensures
        crate::history::kept_payload(None) is None,
        crate::outside::document_of(text) matches Ok(document) ==> crate::history::kept_payload(
            Some(text),
        ) == Some(document),
        crate::outside::document_of(text) is Err ==> crate::history::kept_payload(Some(text))
            is None,
        crate::history::amount_or_none(None) is None,
        crate::history::amount_or_none(Some(text)) == crate::outside::decimal_of(text),
        crate::outside::moment_of(text) matches Some(moment) ==> crate::history::moment_or(text, now)
            == moment,
        crate::outside::moment_of(text) is None ==> crate::history::moment_or(text, now) == now,
{
}

} // verus!
