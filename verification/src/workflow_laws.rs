//! What the service promises: which commands it starts and which it refuses, what it reports, and in
//! which order a job is handled.

use crate::domain::{LocatorView, ProviderId, ProviderJobKey, VideoJob, VideoRequest};
use crate::providers::{ProviderError, ProviderErrorKind};
use crate::workflow::{
    HistoryTask, MonitorStep, ServiceCommand, ServiceScope, ServiceStep, ServiceView, TaskPhase,
    TaskResult, TaskStep,
};
use vstd::prelude::*;

verus! {

/// A generation starts if and only if nothing else is running and the provider's key is there, and
/// then with the request as it was given, under that provider.
pub proof fn generations_start_when_they_can(
    service: ServiceView,
    op_id: u64,
    provider_id: ProviderId,
    request: VideoRequest,
    step: ServiceStep,
)
    requires
        crate::workflow::fitting_step(
            service,
            ServiceCommand::Generate { op_id, provider_id, request },
            step,
        ),
    ensures
        step is Generate <==> service.active is None && service.connected.contains_key(
            provider_id@,
        ) && service.connected[provider_id@],
        step matches ServiceStep::Generate { op_id: o, provider_id: p, request: r } ==> o == op_id
            && p@ == provider_id@ && r.provider_id@ == provider_id@ && r.prompt@ == request.prompt@
            && r.model@ == request.model@ && r.duration == request.duration && r.seed
            == request.seed && r.frame_images == request.frame_images && r.input_references
            == request.input_references && r.adapter_options == request.adapter_options,
        !(step is Generate) ==> (step matches ServiceStep::Fail(failure) && failure.op_id == op_id
            && failure.recoverable && failure@.provider_id == Some(provider_id@)),
        service.active is Some ==> (step matches ServiceStep::Fail(failure) && failure.scope
            == ServiceScope::Generation),
        service.active is None && !(step is Generate) ==> (step matches ServiceStep::Fail(failure)
            && failure.scope == ServiceScope::Credential),
{
}

/// A saved job is taken up if and only if nothing else is running and its provider's key is there;
/// so is a job from elsewhere, which must be the provider's own besides.
pub proof fn jobs_are_taken_up_when_they_can_be(
    service: ServiceView,
    op_id: u64,
    key: ProviderJobKey,
    provider_id: ProviderId,
    locator: crate::domain::JobLocator,
    resumed: ServiceStep,
    imported: ServiceStep,
)
    requires
        crate::workflow::fitting_step(service, ServiceCommand::Resume { op_id, key }, resumed),
        crate::workflow::fitting_step(
            service,
            ServiceCommand::Import { op_id, provider_id, locator },
            imported,
        ),
    ensures
        resumed is Resume <==> service.active is None && service.connected.contains_key(
            key.provider_id@,
        ) && service.connected[key.provider_id@],
        resumed matches ServiceStep::Resume { op_id: o, key: k } ==> o == op_id && k == key,
        !(resumed is Resume) ==> (resumed matches ServiceStep::Fail(failure) && failure@.job_id
            == Some(key.remote_job_id@)),
        imported is Import <==> service.active is None && locator@.provider() == provider_id@
            && service.connected.contains_key(provider_id@) && service.connected[provider_id@],
        imported matches ServiceStep::Import { op_id: o, provider_id: p, locator: l } ==> o == op_id
            && p == provider_id && l == locator,
        service.active is None && locator@.provider() != provider_id@ ==> (
        imported matches ServiceStep::Fail(failure) && !failure.recoverable && failure.scope
            == ServiceScope::Import),
{
}

/// The other commands do what they say: a key is tried without the white space around it, a catalog
/// is loaded with the key where there is one, a price needs the key, and only known providers can be
/// forgotten or made the default.
pub proof fn commands_do_what_they_say(
    service: ServiceView,
    op_id: u64,
    provider_id: ProviderId,
    key: String,
    persist: bool,
    request: VideoRequest,
    tried: ServiceStep,
    loaded: ServiceStep,
    priced: ServiceStep,
    forgotten: ServiceStep,
    chosen: ServiceStep,
)
    requires
        crate::workflow::fitting_step(
            service,
            ServiceCommand::ConnectApiKey { op_id, provider_id, key, persist_on_success: persist },
            tried,
        ),
        crate::workflow::fitting_step(
            service,
            ServiceCommand::RefreshCatalog { op_id, provider_id },
            loaded,
        ),
        crate::workflow::fitting_step(
            service,
            ServiceCommand::Quote { op_id, provider_id, request },
            priced,
        ),
        crate::workflow::fitting_step(
            service,
            ServiceCommand::ForgetApiKey { op_id, provider_id },
            forgotten,
        ),
        crate::workflow::fitting_step(
            service,
            ServiceCommand::SaveDefaultProvider { op_id, provider_id },
            chosen,
        ),
    ensures
        tried matches ServiceStep::Validate { provider_id: p, key: k, persist_on_success: s, .. }
            && p@ == provider_id@ && k@ == crate::text::trimmed(key@) && s == persist,
        loaded matches ServiceStep::Refresh { provider_id: p, with_key, .. } && p@ == provider_id@
            && with_key == (service.connected.contains_key(provider_id@)
            && service.connected[provider_id@]),
        priced is Quote <==> service.connected.contains_key(provider_id@)
            && service.connected[provider_id@],
        priced matches ServiceStep::Quote { request: r, .. } ==> r == request,
        forgotten is Forget <==> service.connected.contains_key(provider_id@),
        chosen is SaveDefaultProvider <==> service.connected.contains_key(provider_id@),
        !(priced is Quote) ==> priced is Fail,
        !(forgotten is Forget) ==> (forgotten matches ServiceStep::Fail(failure)
            && !failure.recoverable),
{
}

/// Stopping cancels what is running and waits for it; without anything running the service stops at
/// once. Cancelling stops what is running, and reports where nothing is.
pub proof fn the_service_stops_in_order(
    service: ServiceView,
    op_id: u64,
    stopped: ServiceStep,
    cancelled: ServiceStep,
)
    requires
        crate::workflow::fitting_step(service, ServiceCommand::Shutdown, stopped),
        crate::workflow::fitting_step(
            service,
            ServiceCommand::CancelCurrent { op_id },
            cancelled,
        ),
    ensures
        service.active is Some ==> stopped is Wait && cancelled is Cancel,
        service.active is None ==> stopped is Stop && (
        cancelled matches ServiceStep::ReportIdle { op_id: o } && o == op_id),
        ({
            let after = crate::workflow::after_command(service, ServiceCommand::Shutdown);
            &&& after.shutting_down
            &&& after.active == service.active
            &&& after.connected == service.connected
            &&& service.active is Some ==> after.cancelled
            &&& service.active is None ==> after.cancelled == service.cancelled
        }),
        ({
            let after = crate::workflow::after_command(
                service,
                ServiceCommand::CancelCurrent { op_id },
            );
            &&& after.shutting_down == service.shutting_down
            &&& after.active == service.active
            &&& after.connected == service.connected
            &&& service.active is Some ==> after.cancelled
            &&& service.active is None ==> after.cancelled == service.cancelled
        }),
{
}

/// Forgetting a key forgets that key alone.
pub proof fn one_key_is_forgotten(service: ServiceView, op_id: u64, provider_id: ProviderId)
    ensures
        ({
            let after = crate::workflow::after_command(
                service,
                ServiceCommand::ForgetApiKey { op_id, provider_id },
            );
            &&& !after.has_key(provider_id@)
            &&& forall|other: Seq<char>|
                other != provider_id@ ==> #[trigger] after.has_key(other) == service.has_key(other)
            &&& after.active == service.active
            &&& after.cancelled == service.cancelled
        }),
{
}

/// A failure of a provider is reported under its name with its message, and is recoverable where
/// the trouble can pass.
pub proof fn failures_are_reported(
    op_id: u64,
    scope: ServiceScope,
    error: ProviderError,
    job_id: Option<Seq<char>>,
    provider_id: Seq<char>,
)
    ensures
        ({
            let said = crate::workflow::provider_failure(op_id, scope, error, job_id);
            &&& said.op_id == op_id && said.scope == scope && said.job_id == job_id
            &&& said.provider_id == Some(error.provider_id@)
            &&& said.message == error.message@
            &&& said.recoverable <==> error.kind is Network || error.kind is RateLimit
                || error.kind is Unavailable || error.kind is Download
        }),
        ({
            let said = crate::workflow::missing_key(op_id, provider_id, scope, job_id);
            &&& said.op_id == op_id && said.scope == scope && said.job_id == job_id
            &&& said.provider_id == Some(provider_id) && said.recoverable
            &&& provider_id == "fal"@ ==> said.message == "Connect a "@ + "fal.ai"@
                + " API key first"@
            &&& provider_id != "fal"@ ==> said.message == "Connect a "@ + "OpenRouter"@
                + " API key first"@
        }),
        ({
            let said = crate::workflow::unknown_provider(op_id, provider_id, scope);
            &&& said.op_id == op_id && said.scope == scope && said.job_id is None
            &&& said.provider_id == Some(provider_id) && !said.recoverable
            &&& said.message == "Unsupported video provider "@ + provider_id
        }),
{
}

/// A task goes through its phases in order and watches the job at the end; whatever goes wrong ends
/// it.
pub proof fn tasks_go_on_in_order(result: TaskResult)
    ensures
        crate::workflow::next_phase(TaskPhase::Submitting, TaskResult::Done)
            == TaskPhase::Announcing,
        crate::workflow::next_phase(TaskPhase::Announcing, TaskResult::Done) == TaskPhase::Saving,
        crate::workflow::next_phase(TaskPhase::Saving, TaskResult::Done) == TaskPhase::Watching,
        crate::workflow::next_phase(TaskPhase::Fetching, TaskResult::Done)
            == TaskPhase::SavingImported,
        crate::workflow::next_phase(TaskPhase::SavingImported, TaskResult::Done)
            == TaskPhase::Watching,
        crate::workflow::next_phase(TaskPhase::LookingUp, TaskResult::Done) == TaskPhase::Checking,
        crate::workflow::next_phase(TaskPhase::Checking, TaskResult::Done) == TaskPhase::Updating,
        crate::workflow::next_phase(TaskPhase::Updating, TaskResult::Done) == TaskPhase::Watching,
        forall|phase: TaskPhase|
            !(result is Done) ==> #[trigger] crate::workflow::next_phase(phase, result)
                == TaskPhase::Ended,
{
}

/// What a task does next fits its phase, and what it reports fits what went wrong: a refused paid
/// request has no job yet, a refusal later names the job, and trouble with the history is told as
/// such.
pub proof fn tasks_tell_what_went_wrong(
    phase: TaskPhase,
    result: TaskResult,
    key: ProviderJobKey,
    step: TaskStep,
)
    requires
        crate::workflow::possible(phase, result),
        crate::workflow::follows(phase, result, key, step),
    ensures
        result is Done ==> ({
            &&& phase is Submitting <==> step is Announce
            &&& phase is Announcing <==> step is Save
            &&& phase is Fetching <==> step is SaveImported
            &&& phase is LookingUp <==> step is Check
            &&& phase is Checking <==> step is Update
            &&& phase is Saving || phase is SavingImported || phase is Updating <==> step is Monitor
        }),
        result is AlreadySaved <==> step is Present,
        step is Fail <==> result is ProviderRefused || result is HistoryRefused
            || result is HistoryBroke || result is Missing,
        result matches TaskResult::ProviderRefused(error) ==> (step matches TaskStep::Fail(failure)
            && failure@.message == error.message@ && failure@.provider_id == error.provider_id@ && (
        failure@.job_id is None <==> phase is Submitting) && (failure@.job_id matches Some(id)
            ==> id == key.remote_job_id@) && (failure.scope == ServiceScope::Import <==> phase
            is Fetching) && (failure.recoverable <==> crate::providers::kind_retryable(
            error.kind,
        ))),
        result is HistoryRefused || result is HistoryBroke || result is Missing ==> (
        step matches TaskStep::Fail(failure) && failure.scope == ServiceScope::History
            && failure@.job_id == Some(key.remote_job_id@) && failure@.provider_id
            == key.provider_id@),
        result is HistoryRefused ==> (step matches TaskStep::Fail(failure) && !failure.recoverable),
        result is HistoryBroke ==> (step matches TaskStep::Fail(failure) && (failure.recoverable
            <==> !(phase is Saving))),
        result is Missing ==> (step matches TaskStep::Fail(failure) && failure.recoverable),
{
}

/// A job is watched until it ends, is stopped, or has been asked about often enough; a completed one
/// is collected, and one that ended otherwise is told with the provider's own words where there are
/// any.
pub proof fn jobs_are_watched_to_their_end(
    job: VideoJob,
    provider_id: Seq<char>,
    attempts: usize,
    max_attempts: usize,
    cancelled: bool,
    step: MonitorStep,
)
    requires
        crate::workflow::monitors(job, provider_id, attempts, max_attempts, cancelled, step),
    ensures
        cancelled <==> step is Stop,
        !cancelled && job.status is Completed <==> step is Collect,
        !cancelled && !(job.status is Completed) && !(job.status is Failed) && !(job.status
            is Cancelled) && !(job.status is Expired) && attempts < max_attempts
            <==> step is Wait,
        step matches MonitorStep::Wait { attempt } ==> attempt == attempts + 1,
        step matches MonitorStep::Fail(failure) ==> failure@.job_id == Some(job.id@)
            && failure@.provider_id == provider_id && failure.scope == ServiceScope::Generation && (
        failure.recoverable <==> !job.status@.terminal()),
        step matches MonitorStep::Fail(failure) ==> (job.status@.terminal() ==> (
        job.error matches Some(message) ==> failure@.message == message@)),
{
}

/// Between two questions every second is announced, and the rest of the last one.
pub proof fn waits_are_announced_by_the_second(remaining: u64)
    ensures
        remaining == 0 ==> crate::workflow::announced(remaining).len() == 0,
        remaining > 0 ==> crate::workflow::announced(remaining)[0] == remaining,
        remaining > 1000 ==> crate::workflow::announced(remaining) == seq![remaining]
            + crate::workflow::announced((remaining - 1000) as u64),
        0 < remaining <= 1000 ==> crate::workflow::announced(remaining) == seq![remaining],
{
    reveal_with_fuel(crate::workflow::announced, 2);
    if 0 < remaining <= 1000 {
        assert(seq![remaining] + Seq::<u64>::empty() =~= seq![remaining]);
    }
}

/// What a task of the history says when it breaks: only that after a paid request cannot be
/// recovered.
pub proof fn broken_tasks_are_told(task: HistoryTask)
    ensures
        crate::workflow::broken_task(task).1 <==> !(task is Create),
{
}

/// A text of a job's answer is read by its own name first, then in its nested place, and is the
/// fallback where neither holds a text.
pub proof fn texts_of_answers_are_read(
    raw: crate::json::JsonView,
    key: Seq<char>,
    pointer: Seq<char>,
    fallback: Seq<char>,
)
    ensures
        crate::json::field(raw, key) matches Some(crate::json::JsonView::Text(text))
            ==> crate::workflow::raw_text(raw, key, pointer, fallback) == text,
        crate::json::field(raw, key) is None ==> (crate::json::pointed(raw, pointer) matches Some(
            crate::json::JsonView::Text(text),
        ) ==> crate::workflow::raw_text(raw, key, pointer, fallback) == text),
        crate::json::field(raw, key) is None && crate::json::pointed(raw, pointer) is None
            ==> crate::workflow::raw_text(raw, key, pointer, fallback) == fallback,
{
}

} // verus!
