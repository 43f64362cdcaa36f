//! The card that the window shows for each job.

use crate::domain::{copy_text, ProviderJobKey, VideoJob};
use crate::gui::media_list::provider_name;
use crate::history::JobRecord;
use crate::text::{concat, concat3, decimal, replace_text, trim_text};
use vstd::prelude::*;

verus! {

/// How far a job's bar is filled.
#[derive(Debug, Clone, Copy, PartialEq, Eq, Structural)]
pub enum Progress {
    Empty,
    Full,
    Part { written: u64, total: u64 },
}

/// What the window shows of a job.
#[derive(Debug)]
pub struct JobCard {
    pub title: String,
    pub status: String,
    pub detail: String,
    pub animation: String,
    pub progress: Progress,
    /// Where the video is, once it is on this machine.
    pub video: Option<String>,
    pub can_pause: bool,
    pub can_resume: bool,
    /// Whether the job is being watched.
    pub active: bool,
}

/// The mathematical value of a card.
pub struct CardView {
    pub title: Seq<char>,
    pub status: Seq<char>,
    pub detail: Seq<char>,
    pub animation: Seq<char>,
    pub progress: Progress,
    pub video: Option<Seq<char>>,
    pub can_pause: bool,
    pub can_resume: bool,
    pub active: bool,
}

impl View for JobCard {
    type V = CardView;

    open spec fn view(&self) -> CardView {
        CardView {
            title: self.title@,
            status: self.status@,
            detail: self.detail@,
            animation: self.animation@,
            progress: self.progress,
            video: crate::domain::opt_view(self.video),
            can_pause: self.can_pause,
            can_resume: self.can_resume,
            active: self.active,
        }
    }
}

/// The line that tells whose job a card is: the provider and the job's identifier.
pub open spec fn identity(key: (Seq<char>, Seq<char>)) -> Seq<char> {
    crate::gui::media_list::provider_title(key.0) + " • "@ + key.1
}

/// The line that tells whose job a card is.
pub fn identity_line(key: &ProviderJobKey) -> (s: String)
    ensures
        s@ == identity(key@),
{
    concat3(provider_name(&key.provider_id), " • ", key.remote_job_id.as_str())
}

/// What is said of a job in a state.
pub open spec fn status_detail(job: VideoJob) -> Seq<char> {
    let name = job.status@.name();
    if name == "pending"@ {
        "Queued by the provider"@
    } else if name == "in_progress"@ {
        "The provider is generating your video"@
    } else if name == "completed"@ {
        "Generation complete; preparing the download"@
    } else if name == "failed"@ {
        match job.error {
            Some(message) => message@,
            None => "The provider reported a failure"@,
        }
    } else {
        name
    }
}

fn status_text(job: &VideoJob) -> (s: String)
    ensures
        s@ == status_detail(*job),
{
    let name = job.status.as_str();
    if crate::text::same_text(name, "pending") {
        "Queued by the provider".to_owned()
    } else if crate::text::same_text(name, "in_progress") {
        "The provider is generating your video".to_owned()
    } else if crate::text::same_text(name, "completed") {
        "Generation complete; preparing the download".to_owned()
    } else if crate::text::same_text(name, "failed") {
        match &job.error {
            Some(message) => message.clone(),
            None => "The provider reported a failure".to_owned(),
        }
    } else {
        name.to_owned()
    }
}

/// What is said of a saved job.
pub open spec fn record_detail(record: JobRecord) -> Seq<char> {
    match record.error {
        Some(error) => error@,
        None => match record.output_path {
            Some(path) => "Saved to "@ + path@,
            None => if crate::history::terminal_name(record.status@) {
                "Remote job finished without a local video"@
            } else {
                "Remote job saved — press Resume to continue monitoring"@
            },
        },
    }
}

impl CardView {
    /// The card of a job that the window has just heard of.
    pub open spec fn fresh(title: Seq<char>) -> CardView {
        CardView {
            title,
            status: "saved"@,
            detail: "Saved remote job"@,
            animation: "·"@,
            progress: Progress::Empty,
            video: None,
            can_pause: false,
            can_resume: true,
            active: false,
        }
    }

    /// The card with a title, unless that is blank.
    pub open spec fn titled(self, title: Seq<char>) -> CardView {
        if crate::text::trimmed(title).len() == 0 {
            self
        } else {
            CardView { title, ..self }
        }
    }

    /// The provider has accepted the job.
    pub open spec fn accepted(self, job: VideoJob) -> CardView {
        CardView {
            status: job.status@.name(),
            detail: "Accepted. Saving the recovery record locally…"@,
            active: !job.status@.terminal(),
            can_pause: !job.status@.terminal(),
            can_resume: false,
            ..self
        }
    }

    /// The job's record could not be saved.
    pub open spec fn lost(self) -> CardView {
        CardView {
            status: "recovery failed"@,
            detail:
                "The provider accepted this job, but its recovery record could not be saved. Copy the remote ID now."@,
            active: false,
            can_pause: false,
            can_resume: false,
            ..self
        }
    }

    /// The provider has told how the job stands.
    pub open spec fn updated(self, job: VideoJob) -> CardView {
        let active = !job.status@.terminal();
        let done = job.status is Completed;
        CardView {
            status: job.status@.name(),
            detail: status_detail(job),
            active,
            can_pause: active,
            animation: if active {
                self.animation
            } else if done {
                "✓"@
            } else {
                "!"@
            },
            progress: if active {
                self.progress
            } else if done {
                Progress::Full
            } else {
                Progress::Empty
            },
            ..self
        }
    }

    /// The job is checked again after a while.
    pub open spec fn waiting(self, attempt: usize, seconds: u64) -> CardView {
        CardView {
            status: "monitoring"@,
            detail: "Provider check "@ + crate::text::numeral(attempt as nat)
                + " complete; checking again in "@ + (crate::text::numeral(seconds as nat)
                + " seconds"@),
            active: true,
            ..self
        }
    }

    /// The video is being downloaded.
    pub open spec fn downloading(
        self,
        written: u64,
        total: Option<u64>,
        written_text: Seq<char>,
        total_text: Option<Seq<char>>,
    ) -> CardView {
        CardView {
            status: "downloading"@,
            detail: match total_text {
                Some(text) => "Saving video… "@ + written_text + (" / "@ + text),
                None => "Saving video… "@ + written_text,
            },
            progress: match total {
                Some(total) => if total > 0 {
                    Progress::Part { written, total }
                } else {
                    self.progress
                },
                None => self.progress,
            },
            active: true,
            ..self
        }
    }

    /// The video is on this machine.
    pub open spec fn stored(self, path: Seq<char>) -> CardView {
        CardView {
            status: "saved"@,
            detail: "Saved to "@ + path,
            progress: Progress::Full,
            animation: "✓"@,
            active: false,
            can_pause: false,
            can_resume: false,
            video: Some(path),
            ..self
        }
    }

    /// The job is no longer watched, and can be watched again.
    pub open spec fn paused(self) -> CardView {
        CardView {
            active: false,
            can_pause: false,
            can_resume: true,
            status: "monitoring paused"@,
            animation: "Ⅱ"@,
            ..self
        }
    }

    /// The job is watched again.
    pub open spec fn resuming(self) -> CardView {
        CardView { active: true, can_pause: true, can_resume: false, status: "resuming"@, ..self }
    }

    /// The job is one that a former session left.
    pub open spec fn left_over(self, monitoring_paused: bool) -> CardView {
        CardView {
            status: if monitoring_paused {
                "monitoring paused"@
            } else {
                "remote job"@
            },
            detail: "Resume to check the provider and download completed output"@,
            can_resume: true,
            ..self
        }
    }

    /// The task that watched the job has stopped.
    pub open spec fn stopped(self, remote_continues: bool) -> CardView {
        CardView {
            active: false,
            status: "monitoring stopped"@,
            detail: if remote_continues {
                "Local monitoring stopped; the provider job continues"@
            } else {
                "Stopped"@
            },
            ..self
        }
    }

    /// Something went wrong with the job.
    pub open spec fn faulty(self, message: Seq<char>, recoverable: bool) -> CardView {
        CardView {
            status: "needs attention"@,
            detail: message,
            active: false,
            can_pause: false,
            can_resume: recoverable,
            ..self
        }
    }

    /// The job is one of the history; its video is shown where it still exists.
    pub open spec fn restored(self, record: JobRecord, output_exists: bool) -> CardView {
        let named = CardView {
            status: crate::text::replaced(record.status@, "_"@, " "@),
            detail: record_detail(record),
            ..self
        };
        if record.output_path is Some && output_exists {
            CardView {
                video: Some(record.output_path->0@),
                progress: Progress::Full,
                animation: "✓"@,
                ..named
            }
        } else if !crate::history::terminal_name(record.status@) {
            CardView { can_resume: true, animation: "Ⅱ"@, ..named }
        } else {
            named
        }
    }
}

impl JobCard {
    /// The card of a job that the window has just heard of.
    pub fn new(title: &str) -> (card: JobCard)
        ensures
            card@ == CardView::fresh(title@),
    {
        JobCard {
            title: title.to_owned(),
            status: "saved".to_owned(),
            detail: "Saved remote job".to_owned(),
            animation: "·".to_owned(),
            progress: Progress::Empty,
            video: None,
            can_pause: false,
            can_resume: true,
            active: false,
        }
    }

    /// The same card again.
    pub fn copy(&self) -> (card: JobCard)
        ensures
            card@ == self@,
    {
        JobCard {
            title: self.title.clone(),
            status: self.status.clone(),
            detail: self.detail.clone(),
            animation: self.animation.clone(),
            progress: self.progress,
            video: copy_text(&self.video),
            can_pause: self.can_pause,
            can_resume: self.can_resume,
            active: self.active,
        }
    }

    /// Gives the card a title, unless that is blank.
    pub fn set_title(&mut self, title: &str)
        ensures
            final(self)@ == old(self)@.titled(title@),
    {
        if trim_text(title).unicode_len() != 0 {
            self.title = title.to_owned();
        }
    }

    /// Shows that the provider has accepted the job.
    pub fn accept(&mut self, job: &VideoJob)
        ensures
            final(self)@ == old(self)@.accepted(*job),
    {
        let terminal = job.status.terminal();
        self.status = job.status.as_str().to_owned();
        self.detail = "Accepted. Saving the recovery record locally…".to_owned();
        self.active = !terminal;
        self.can_pause = !terminal;
        self.can_resume = false;
    }

    /// Says something of the job.
    pub fn say(&mut self, detail: &str)
        ensures
            final(self)@ == (CardView { detail: detail@, ..old(self)@ }),
    {
        self.detail = detail.to_owned();
    }

    /// Shows that the job's record could not be saved.
    pub fn lose(&mut self)
        ensures
            final(self)@ == old(self)@.lost(),
    {
        self.status = "recovery failed".to_owned();
        self.detail =
        "The provider accepted this job, but its recovery record could not be saved. Copy the remote ID now.".to_owned();
        self.active = false;
        self.can_pause = false;
        self.can_resume = false;
    }

    /// Shows how the job stands at the provider.
    pub fn update(&mut self, job: &VideoJob)
        ensures
            final(self)@ == old(self)@.updated(*job),
    {
        let active = !job.status.terminal();
        self.status = job.status.as_str().to_owned();
        self.detail = status_text(job);
        self.active = active;
        self.can_pause = active;
        if !active {
            if let crate::domain::JobStatus::Completed = job.status {
                self.animation = "✓".to_owned();
                self.progress = Progress::Full;
            } else {
                self.animation = "!".to_owned();
                self.progress = Progress::Empty;
            }
        }
    }

    /// Shows that the job is checked again after a while.
    pub fn wait(&mut self, attempt: usize, seconds: u64)
        ensures
            final(self)@ == old(self)@.waiting(attempt, seconds),
    {
        let attempt = decimal(attempt as u64);
        let seconds = decimal(seconds);
        let head = concat3(
            "Provider check ",
            attempt.as_str(),
            " complete; checking again in ",
        );
        let tail = concat(seconds.as_str(), " seconds");
        self.status = "monitoring".to_owned();
        self.detail = concat(head.as_str(), tail.as_str());
        self.active = true;
    }

    /// Shows how far the download has come. The texts tell the sizes.
    pub fn download(
        &mut self,
        written: u64,
        total: Option<u64>,
        written_text: &str,
        total_text: &Option<String>,
    )
        ensures
            final(self)@ == old(self)@.downloading(
                written,
                total,
                written_text@,
                crate::domain::opt_view(*total_text),
            ),
    {
        let head = concat("Saving video… ", written_text);
        let detail = match total_text {
            Some(text) => {
                let tail = concat(" / ", text.as_str());
                concat(head.as_str(), tail.as_str())
            },
            None => head,
        };
        self.status = "downloading".to_owned();
        self.detail = detail;
        if let Some(total) = total {
            if total > 0 {
                self.progress = Progress::Part { written, total };
            }
        }
        self.active = true;
    }

    /// Shows that the video is on this machine.
    pub fn store(&mut self, path: &str)
        ensures
            final(self)@ == old(self)@.stored(path@),
    {
        self.status = "saved".to_owned();
        self.detail = concat("Saved to ", path);
        self.progress = Progress::Full;
        self.animation = "✓".to_owned();
        self.active = false;
        self.can_pause = false;
        self.can_resume = false;
        self.video = Some(path.to_owned());
    }

    /// Shows that the job is no longer watched.
    pub fn pause(&mut self)
        ensures
            final(self)@ == old(self)@.paused(),
    {
        self.active = false;
        self.can_pause = false;
        self.can_resume = true;
        self.status = "monitoring paused".to_owned();
        self.animation = "Ⅱ".to_owned();
    }

    /// Shows that the job is watched again.
    pub fn resume(&mut self)
        ensures
            final(self)@ == old(self)@.resuming(),
    {
        self.active = true;
        self.can_pause = true;
        self.can_resume = false;
        self.status = "resuming".to_owned();
    }

    /// Shows that a former session left the job.
    pub fn leave_over(&mut self, monitoring_paused: bool)
        ensures
            final(self)@ == old(self)@.left_over(monitoring_paused),
    {
        self.status = if monitoring_paused {
            "monitoring paused".to_owned()
        } else {
            "remote job".to_owned()
        };
        self.detail = "Resume to check the provider and download completed output".to_owned();
        self.can_resume = true;
    }

    /// Shows that the task that watched the job has stopped.
    pub fn stop(&mut self, remote_continues: bool)
        ensures
            final(self)@ == old(self)@.stopped(remote_continues),
    {
        self.active = false;
        self.status = "monitoring stopped".to_owned();
        self.detail = if remote_continues {
            "Local monitoring stopped; the provider job continues".to_owned()
        } else {
            "Stopped".to_owned()
        };
    }

    /// Shows that something went wrong with the job.
    pub fn fault(&mut self, message: &str, recoverable: bool)
        ensures
            final(self)@ == old(self)@.faulty(message@, recoverable),
    {
        self.status = "needs attention".to_owned();
        self.detail = message.to_owned();
        self.active = false;
        self.can_pause = false;
        self.can_resume = recoverable;
    }

    /// Shows a job of the history.
    pub fn restore(&mut self, record: &JobRecord, output_exists: bool)
        ensures
            final(self)@ == old(self)@.restored(*record, output_exists),
    {
        proof {
            reveal_strlit("_");
        }
        let terminal = record.terminal();
        self.status = replace_text(record.status.as_str(), "_", " ");
        self.detail = match &record.error {
            Some(error) => error.clone(),
            None => match &record.output_path {
                Some(path) => concat("Saved to ", path.as_str()),
                None => if terminal {
                    "Remote job finished without a local video".to_owned()
                } else {
                    "Remote job saved — press Resume to continue monitoring".to_owned()
                },
            },
        };
        match &record.output_path {
            Some(path) if output_exists => {
                self.video = Some(path.clone());
                self.progress = Progress::Full;
                self.animation = "✓".to_owned();
            },
            _ => {
                if !terminal {
                    self.can_resume = true;
                    self.animation = "Ⅱ".to_owned();
                }
            },
        }
    }
}

/// A paused job that is resumed is watched, can be paused and cannot be resumed once more; pausing
/// it again shows it as it was.
pub proof fn pausing_and_resuming_undo_each_other(card: CardView)
    ensures
        card.paused().resuming().active,
        card.paused().resuming().can_pause,
        !card.paused().resuming().can_resume,
        card.paused().resuming().paused() == card.paused(),
{
}

/// How many signs a watched job shows in turn.
pub const ANIMATION_FRAMES: usize = 8;

/// The sign with this number.
pub open spec fn frame_sign(frame: usize) -> Seq<char> {
    match frame {
        1 | 7 => "✦"@,
        2 => "· ✧"@,
        3 => "✦ ·"@,
        4 => "✧"@,
        5 => "· ✦"@,
        6 => "✧ ·"@,
        _ => "·"@,
    }
}

/// The sign with this number.
pub fn animation_sign(frame: usize) -> (s: &'static str)
    ensures
        s@ == frame_sign(frame),
{
    match frame {
        1 | 7 => "✦",
        2 => "· ✧",
        3 => "✦ ·",
        4 => "✧",
        5 => "· ✦",
        6 => "✧ ·",
        _ => "·",
    }
}

/// The number of the sign after this one; after the last comes the first.
pub fn next_frame(frame: usize) -> (next: usize)
    requires
        frame < ANIMATION_FRAMES,
    ensures
        next == (frame + 1) % 8,
        next < ANIMATION_FRAMES,
{
    (frame + 1) % ANIMATION_FRAMES
}

impl JobCard {
    /// Shows a sign, where the job is being watched.
    pub fn animate(&mut self, frame: usize)
        ensures
            final(self)@ == (if old(self)@.active {
                CardView { animation: frame_sign(frame), ..old(self)@ }
            } else {
                old(self)@
            }),
    {
        if self.active {
            self.animation = animation_sign(frame).to_owned();
        }
    }
}

} // verus!
