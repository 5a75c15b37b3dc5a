//! The page session: what is asked of the rendering engine, in which order, and
//! what becomes of a render when a step fails.
//!
//! The engine itself is outside this library. A [`RenderJob`] decides; its owner
//! performs each [`Action`] and reports back with an [`Event`].

use vstd::prelude::*;
use vstd::string::StringExecFns;
use vstd::utf8::encode_utf8;
use crate::raster::png_decoding;
use crate::render::{
    assets_dir, display_sized, process, process_outcome, result_view, Artifacts, ArtifactsView, RenderError,
    RenderErrorView, RenderedImage, RenderedImageView, DISPLAY_HEIGHT, DISPLAY_WIDTH,
};

verus! {

/// A byte that is written as it is: an ASCII letter or digit, or one of `-`,
/// `.`, `_` and `~`.
pub open spec fn is_unreserved(b: u8) -> bool {
    (0x30 <= b <= 0x39) || (0x41 <= b <= 0x5a) || (0x61 <= b <= 0x7a) || b == 0x2d || b == 0x2e
        || b == 0x5f || b == 0x7e
}

/// The upper-case hexadecimal digit of a number below 16.
pub open spec fn hex_upper(n: int) -> char {
    if n < 10 {
        (0x30 + n) as char
    } else {
        (0x41 + n - 10) as char
    }
}

/// One byte, percent-encoded.
pub open spec fn encoded_byte(b: u8) -> Seq<char> {
    if is_unreserved(b) {
        seq![b as char]
    } else {
        seq!['%', hex_upper(b as int / 16), hex_upper(b as int % 16)]
    }
}

/// A byte sequence, percent-encoded byte by byte.
pub open spec fn percent_encoded(bytes: Seq<u8>) -> Seq<char>
    decreases bytes.len(),
{
    if bytes.len() == 0 {
        Seq::empty()
    } else {
        encoded_byte(bytes[0]) + percent_encoded(bytes.drop_first())
    }
}

/// Calls `urlencoding::encode`.
///
/// Trusted: every byte of the text's UTF-8 form is kept where it is unreserved
/// and replaced by `%` and its two upper-case hexadecimal digits where not.
#[verifier::external_body]
fn percent_encode(text: &str) -> (r: String)
    ensures
        r@ == percent_encoded(encode_utf8(text@)),
{
    urlencoding::encode(text).into_owned()
}

/// The address under which an inline document is handed to the engine.
pub open spec fn inline_address(html: Seq<char>) -> Seq<char> {
    "data:text/html;charset=utf-8,"@ + percent_encoded(encode_utf8(html))
}

/// Encodes an inline document as a data address.
pub fn data_url(html: &str) -> (r: String)
    ensures
        r@ == inline_address(html@),
{
    let encoded = percent_encode(html);
    String::from_str("data:text/html;charset=utf-8,").concat(encoded.as_str())
}

/// Where the document to render comes from.
#[derive(Debug, Clone, PartialEq, Eq)]
pub enum DocumentSource {
    /// A document that the engine fetches itself.
    Url(String),
    /// A document given inline, as HTML text.
    Html(String),
}

/// The address that the engine is sent to for a source.
pub open spec fn target_of(source: DocumentSource) -> Seq<char> {
    match source {
        DocumentSource::Url(url) => url@,
        DocumentSource::Html(html) => inline_address(html@),
    }
}

/// Computes the address that the engine is sent to.
pub fn navigation_target(source: &DocumentSource) -> (r: String)
    ensures
        r@ == target_of(*source),
{
    match source {
        DocumentSource::Url(url) => url.clone(),
        DocumentSource::Html(html) => data_url(html.as_str()),
    }
}

/// What the owner of a job reports after performing an action.
///
/// A screenshot counts as success for every action; only the capture reads it.
/// Success without a screenshot counts, for the capture, as a failure.
#[derive(Debug, Clone, PartialEq, Eq)]
pub enum Event {
    /// The action was performed.
    Succeeded,
    /// The action could not be performed.
    Failed,
    /// The page was captured; the data is the screenshot.
    Captured(Vec<u8>),
}

/// Mathematical view of an [`Event`].
pub enum EventView {
    Succeeded,
    Failed,
    Captured(Seq<u8>),
}

impl View for Event {
    type V = EventView;

    open spec fn view(&self) -> EventView {
        match self {
            Event::Succeeded => EventView::Succeeded,
            Event::Failed => EventView::Failed,
            Event::Captured(data) => EventView::Captured(data@),
        }
    }
}

/// What the owner of a job is asked to do next.
#[derive(Debug, Clone, PartialEq, Eq)]
pub enum Action {
    /// Start a fresh, isolated session with a window of the given size.
    Launch { width: u32, height: u32 },
    /// Open a page in the session.
    OpenTab,
    /// Fix the viewport to the given size, at scale one, with mobile emulation
    /// as stated.
    SetViewport { width: u32, height: u32, mobile: bool },
    /// Send the page to the address.
    Navigate { target: String },
    /// Wait until the page has loaded.
    AwaitLoad,
    /// Capture the page as a lossless screenshot.
    Capture,
    /// Tear the session down.
    Release,
    /// Create the directory if it is absent.
    EnsureDirectory { path: String },
    /// Write the data to the file.
    Write { path: String, data: Vec<u8> },
    /// Nothing is left to do: the job has its outcome.
    Finish,
}

/// Mathematical view of an [`Action`].
pub enum ActionView {
    Launch { width: int, height: int },
    OpenTab,
    SetViewport { width: int, height: int, mobile: bool },
    Navigate { target: Seq<char> },
    AwaitLoad,
    Capture,
    Release,
    EnsureDirectory { path: Seq<char> },
    Write { path: Seq<char>, data: Seq<u8> },
    Finish,
}

impl View for Action {
    type V = ActionView;

    open spec fn view(&self) -> ActionView {
        match self {
            Action::Launch { width, height } => ActionView::Launch {
                width: *width as int,
                height: *height as int,
            },
            Action::OpenTab => ActionView::OpenTab,
            Action::SetViewport { width, height, mobile } => ActionView::SetViewport {
                width: *width as int,
                height: *height as int,
                mobile: *mobile,
            },
            Action::Navigate { target } => ActionView::Navigate { target: target@ },
            Action::AwaitLoad => ActionView::AwaitLoad,
            Action::Capture => ActionView::Capture,
            Action::Release => ActionView::Release,
            Action::EnsureDirectory { path } => ActionView::EnsureDirectory { path: path@ },
            Action::Write { path, data } => ActionView::Write { path: path@, data: data@ },
            Action::Finish => ActionView::Finish,
        }
    }
}

/// What a job is waiting for.
pub enum Phase {
    /// Nothing was asked for yet.
    Created,
    /// The session is being started.
    Launching,
    /// The page is being opened.
    OpeningTab,
    /// The viewport is being fixed.
    SettingViewport,
    /// The page is being sent to its address.
    Navigating,
    /// The page is loading.
    Loading,
    /// The page is being captured.
    Capturing,
    /// The session is being torn down; `result` is what the render came to.
    Releasing { result: Result<Artifacts, RenderError> },
    /// The directory of the files is being created.
    PreparingDirectory { files: Artifacts },
    /// The lossless raster is being written; the bitmap is still to come.
    WritingPng { bmp: Vec<u8> },
    /// The bitmap is being written.
    WritingBmp,
    /// The job is over, with a failure or without.
    Finished { failure: Option<RenderError> },
}

/// Mathematical view of a [`Phase`].
pub enum PhaseView {
    Created,
    Launching,
    OpeningTab,
    SettingViewport,
    Navigating,
    Loading,
    Capturing,
    Releasing { result: Result<ArtifactsView, RenderErrorView> },
    PreparingDirectory { files: ArtifactsView },
    WritingPng { bmp: Seq<u8> },
    WritingBmp,
    Finished { failure: Option<RenderErrorView> },
}

impl View for Phase {
    type V = PhaseView;

    open spec fn view(&self) -> PhaseView {
        match self {
            Phase::Created => PhaseView::Created,
            Phase::Launching => PhaseView::Launching,
            Phase::OpeningTab => PhaseView::OpeningTab,
            Phase::SettingViewport => PhaseView::SettingViewport,
            Phase::Navigating => PhaseView::Navigating,
            Phase::Loading => PhaseView::Loading,
            Phase::Capturing => PhaseView::Capturing,
            Phase::Releasing { result } => PhaseView::Releasing { result: result_view(*result) },
            Phase::PreparingDirectory { files } => PhaseView::PreparingDirectory { files: files@ },
            Phase::WritingPng { bmp } => PhaseView::WritingPng { bmp: bmp@ },
            Phase::WritingBmp => PhaseView::WritingBmp,
            Phase::Finished { failure } => PhaseView::Finished {
                failure: match failure {
                    Some(e) => Some(e@),
                    None => None,
                },
            },
        }
    }
}

/// One render from start to end: the address, the files it is to leave, whether
/// its session is alive, and what it is waiting for.
pub struct RenderJob {
    pub target: String,
    pub image: RenderedImage,
    pub session_open: bool,
    pub phase: Phase,
}

/// Mathematical view of a [`RenderJob`].
pub struct JobView {
    pub target: Seq<char>,
    pub image: RenderedImageView,
    pub session_open: bool,
    pub phase: PhaseView,
}

impl View for RenderJob {
    type V = JobView;

    open spec fn view(&self) -> JobView {
        JobView {
            target: self.target@,
            image: self.image@,
            session_open: self.session_open,
            phase: self.phase@,
        }
    }
}

/// The job in another phase.
pub open spec fn in_phase(job: JobView, phase: PhaseView) -> JobView {
    JobView { phase, ..job }
}

/// The job once its session is being torn down, with what the render came to.
pub open spec fn releasing(job: JobView, result: Result<ArtifactsView, RenderErrorView>) -> (
    JobView,
    ActionView,
) {
    (in_phase(job, PhaseView::Releasing { result }), ActionView::Release)
}

/// The job once it is over.
pub open spec fn finished(job: JobView, failure: Option<RenderErrorView>) -> (JobView, ActionView) {
    (in_phase(job, PhaseView::Finished { failure }), ActionView::Finish)
}

/// The step of a job: from what it waits for and what was reported, to what it
/// waits for next and what is asked of its owner.
///
/// The viewport is fixed to the display's 800 by 480 pixels, without mobile
/// emulation. A failure before the session is alive ends the job. A failure while it is
/// alive tears the session down first. A failure after it is gone ends the job
/// as a failure to write. The screenshot is processed as soon as it arrives.
pub open spec fn transition(job: JobView, event: EventView) -> (JobView, ActionView) {
    let failed = event is Failed;
    match job.phase {
        PhaseView::Created => (
            in_phase(job, PhaseView::Launching),
            ActionView::Launch { width: 800, height: 480 },
        ),
        PhaseView::Launching => if failed {
            finished(job, Some(RenderErrorView::SessionLaunch))
        } else {
            (
                JobView { session_open: true, phase: PhaseView::OpeningTab, ..job },
                ActionView::OpenTab,
            )
        },
        PhaseView::OpeningTab => if failed {
            releasing(job, Err(RenderErrorView::SessionLaunch))
        } else {
            (
                in_phase(job, PhaseView::SettingViewport),
                ActionView::SetViewport { width: 800, height: 480, mobile: false },
            )
        },
        PhaseView::SettingViewport => if failed {
            releasing(job, Err(RenderErrorView::Navigation))
        } else {
            (in_phase(job, PhaseView::Navigating), ActionView::Navigate { target: job.target })
        },
        PhaseView::Navigating => if failed {
            releasing(job, Err(RenderErrorView::Navigation))
        } else {
            (in_phase(job, PhaseView::Loading), ActionView::AwaitLoad)
        },
        PhaseView::Loading => if failed {
            releasing(job, Err(RenderErrorView::Navigation))
        } else {
            (in_phase(job, PhaseView::Capturing), ActionView::Capture)
        },
        PhaseView::Capturing => match event {
            EventView::Captured(data) => releasing(job, process_outcome(data)),
            _ => releasing(job, Err(RenderErrorView::Capture)),
        },
        PhaseView::Releasing { result } => match result {
            Ok(files) => (
                JobView {
                    session_open: false,
                    phase: PhaseView::PreparingDirectory { files },
                    ..job
                },
                ActionView::EnsureDirectory { path: assets_dir() },
            ),
            Err(e) => finished(JobView { session_open: false, ..job }, Some(e)),
        },
        PhaseView::PreparingDirectory { files } => if failed {
            finished(job, Some(RenderErrorView::Io))
        } else {
            (
                in_phase(job, PhaseView::WritingPng { bmp: files.bmp }),
                ActionView::Write { path: job.image.png_path, data: files.png },
            )
        },
        PhaseView::WritingPng { bmp } => if failed {
            finished(job, Some(RenderErrorView::Io))
        } else {
            (
                in_phase(job, PhaseView::WritingBmp),
                ActionView::Write { path: job.image.bmp_path, data: bmp },
            )
        },
        PhaseView::WritingBmp => if failed {
            finished(job, Some(RenderErrorView::Io))
        } else {
            finished(job, None)
        },
        PhaseView::Finished { failure } => (job, ActionView::Finish),
    }
}

/// A job that has asked for nothing yet.
pub open spec fn created(target: Seq<char>, image: RenderedImageView) -> JobView {
    JobView { target, image, session_open: false, phase: PhaseView::Created }
}

impl RenderJob {
    /// A job that renders `source` into the files of `image`.
    pub fn new(source: &DocumentSource, image: RenderedImage) -> (job: RenderJob)
        ensures
            job@ == created(target_of(*source), image@),
    {
        RenderJob {
            target: navigation_target(source),
            image,
            session_open: false,
            phase: Phase::Created,
        }
    }

    /// Takes what was reported and says what to do next.
    ///
    /// The first call starts the job, whatever it is given.
    pub fn step(self, event: Event) -> (r: (RenderJob, Action))
        ensures
            (r.0@, r.1@) == transition(self@, event@),
    {
        let RenderJob { target, image, session_open, phase } = self;
        let failed = match &event {
            Event::Failed => true,
            _ => false,
        };
        match phase {
            Phase::Created => (
                RenderJob { target, image, session_open, phase: Phase::Launching },
                Action::Launch { width: DISPLAY_WIDTH, height: DISPLAY_HEIGHT },
            ),
            Phase::Launching => if failed {
                (
                    RenderJob {
                        target,
                        image,
                        session_open,
                        phase: Phase::Finished { failure: Some(RenderError::SessionLaunch) },
                    },
                    Action::Finish,
                )
            } else {
                (
                    RenderJob { target, image, session_open: true, phase: Phase::OpeningTab },
                    Action::OpenTab,
                )
            },
            Phase::OpeningTab => if failed {
                (
                    RenderJob {
                        target,
                        image,
                        session_open,
                        phase: Phase::Releasing { result: Err(RenderError::SessionLaunch) },
                    },
                    Action::Release,
                )
            } else {
                (
                    RenderJob { target, image, session_open, phase: Phase::SettingViewport },
                    Action::SetViewport {
                        width: DISPLAY_WIDTH,
                        height: DISPLAY_HEIGHT,
                        mobile: false,
                    },
                )
            },
            Phase::SettingViewport => if failed {
                (
                    RenderJob {
                        target,
                        image,
                        session_open,
                        phase: Phase::Releasing { result: Err(RenderError::Navigation) },
                    },
                    Action::Release,
                )
            } else {
                let address = target.clone();
                (
                    RenderJob { target, image, session_open, phase: Phase::Navigating },
                    Action::Navigate { target: address },
                )
            },
            Phase::Navigating => if failed {
                (
                    RenderJob {
                        target,
                        image,
                        session_open,
                        phase: Phase::Releasing { result: Err(RenderError::Navigation) },
                    },
                    Action::Release,
                )
            } else {
                (
                    RenderJob { target, image, session_open, phase: Phase::Loading },
                    Action::AwaitLoad,
                )
            },
            Phase::Loading => if failed {
                (
                    RenderJob {
                        target,
                        image,
                        session_open,
                        phase: Phase::Releasing { result: Err(RenderError::Navigation) },
                    },
                    Action::Release,
                )
            } else {
                (
                    RenderJob { target, image, session_open, phase: Phase::Capturing },
                    Action::Capture,
                )
            },
            Phase::Capturing => {
                let result = match event {
                    Event::Captured(data) => process(data.as_slice()),
                    _ => Err(RenderError::Capture),
                };
                (
                    RenderJob { target, image, session_open, phase: Phase::Releasing { result } },
                    Action::Release,
                )
            },
            Phase::Releasing { result } => match result {
                Ok(files) => (
                    RenderJob {
                        target,
                        image,
                        session_open: false,
                        phase: Phase::PreparingDirectory { files },
                    },
                    Action::EnsureDirectory { path: String::from_str("assets/images/generated") },
                ),
                Err(e) => (
                    RenderJob {
                        target,
                        image,
                        session_open: false,
                        phase: Phase::Finished { failure: Some(e) },
                    },
                    Action::Finish,
                ),
            },
            Phase::PreparingDirectory { files } => if failed {
                (
                    RenderJob {
                        target,
                        image,
                        session_open,
                        phase: Phase::Finished { failure: Some(RenderError::Io) },
                    },
                    Action::Finish,
                )
            } else {
                let path = image.png_path.clone();
                let Artifacts { png, bmp } = files;
                (
                    RenderJob { target, image, session_open, phase: Phase::WritingPng { bmp } },
                    Action::Write { path, data: png },
                )
            },
            Phase::WritingPng { bmp } => if failed {
                (
                    RenderJob {
                        target,
                        image,
                        session_open,
                        phase: Phase::Finished { failure: Some(RenderError::Io) },
                    },
                    Action::Finish,
                )
            } else {
                let path = image.bmp_path.clone();
                (
                    RenderJob { target, image, session_open, phase: Phase::WritingBmp },
                    Action::Write { path, data: bmp },
                )
            },
            Phase::WritingBmp => {
                let failure = if failed {
                    Some(RenderError::Io)
                } else {
                    None
                };
                (
                    RenderJob { target, image, session_open, phase: Phase::Finished { failure } },
                    Action::Finish,
                )
            },
            Phase::Finished { failure } => (
                RenderJob { target, image, session_open, phase: Phase::Finished { failure } },
                Action::Finish,
            ),
        }
    }
}

impl RenderJob {
    /// Whether the job is over.
    pub fn is_finished(&self) -> (r: bool)
        ensures
            r == (self@.phase is Finished),
    {
        match &self.phase {
            Phase::Finished { .. } => true,
            _ => false,
        }
    }

    /// What the job came to: nothing while it runs, then the pair of files that
    /// it wrote, or why it wrote none.
    pub fn outcome(self) -> (r: Option<Result<RenderedImage, RenderError>>)
        ensures
            match self@.phase {
                PhaseView::Finished { failure: None } => r matches Some(Ok(image)) && image@
                    == self@.image,
                PhaseView::Finished { failure: Some(e) } => r matches Some(Err(f)) && f@ == e,
                _ => r is None,
            },
    {
        match self.phase {
            Phase::Finished { failure: None } => Some(Ok(self.image)),
            Phase::Finished { failure: Some(e) } => Some(Err(e)),
            _ => None,
        }
    }
}

/// How far a job has come: 0 before its first step, 11 when it is over.
pub open spec fn rank(phase: PhaseView) -> nat {
    match phase {
        PhaseView::Created => 0,
        PhaseView::Launching => 1,
        PhaseView::OpeningTab => 2,
        PhaseView::SettingViewport => 3,
        PhaseView::Navigating => 4,
        PhaseView::Loading => 5,
        PhaseView::Capturing => 6,
        PhaseView::Releasing { .. } => 7,
        PhaseView::PreparingDirectory { .. } => 8,
        PhaseView::WritingPng { .. } => 9,
        PhaseView::WritingBmp => 10,
        PhaseView::Finished { .. } => 11,
    }
}

/// The session is alive exactly from the opening of the page to the step that
/// tears it down.
pub open spec fn session_consistent(job: JobView) -> bool {
    job.session_open <==> 2 <= rank(job.phase) <= 7
}

/// The job after the given reports, one step for each.
pub open spec fn run(job: JobView, events: Seq<EventView>) -> JobView
    decreases events.len(),
{
    if events.len() == 0 {
        job
    } else {
        run(transition(job, events[0]).0, events.drop_first())
    }
}

/// Every step of a job that is not over brings it further, whatever is reported;
/// no step changes where the job navigates to or which files it is to leave.
pub proof fn lemma_step_advances(job: JobView, event: EventView)
    ensures
        job.phase !is Finished ==> rank(transition(job, event).0.phase) > rank(job.phase),
        job.phase is Finished ==> transition(job, event) == (job, ActionView::Finish),
        transition(job, event).0.target == job.target,
        transition(job, event).0.image == job.image,
{
}

/// The session never outlives the job. A step asks for a session only when none
/// is alive, asks for its release only when one is, and a job that is over has
/// none; on every path on which a session was started, its release is asked for
/// before the job is over.
pub proof fn lemma_session_discipline(job: JobView, event: EventView)
    requires
        session_consistent(job),
    ensures
        session_consistent(transition(job, event).0),
        transition(job, event).1 is Launch ==> !job.session_open,
        transition(job, event).1 is Release ==> job.session_open && transition(
            job,
            event,
        ).0.session_open,
        job.session_open && !transition(job, event).0.session_open ==> job.phase is Releasing,
        transition(job, event).0.phase is Finished ==> !transition(job, event).0.session_open,
{
}

/// A failure is reported under the stage in which it arose: starting the session
/// or opening its page as a failure to launch, fixing the viewport, navigating
/// or loading as a failure to navigate, capturing as a failure to capture, and
/// anything after the session is gone as a failure to write.
pub proof fn lemma_failure_is_classified(job: JobView)
    ensures
        ({
            let next = transition(job, EventView::Failed).0.phase;
            match job.phase {
                PhaseView::Created => next is Launching,
                PhaseView::Launching => next == PhaseView::Finished {
                    failure: Some(RenderErrorView::SessionLaunch),
                },
                PhaseView::OpeningTab => next == PhaseView::Releasing {
                    result: Err(RenderErrorView::SessionLaunch),
                },
                PhaseView::SettingViewport | PhaseView::Navigating | PhaseView::Loading => next
                    == PhaseView::Releasing { result: Err(RenderErrorView::Navigation) },
                PhaseView::Capturing => next == PhaseView::Releasing {
                    result: Err(RenderErrorView::Capture),
                },
                PhaseView::Releasing { result: Err(e) } => next == PhaseView::Finished {
                    failure: Some(e),
                },
                PhaseView::Releasing { result: Ok(files) } => next
                    == PhaseView::PreparingDirectory { files },
                PhaseView::PreparingDirectory { .. }
                | PhaseView::WritingPng { .. }
                | PhaseView::WritingBmp => next == PhaseView::Finished {
                    failure: Some(RenderErrorView::Io),
                },
                PhaseView::Finished { .. } => next == job.phase,
            }
        }),
{
}

/// A job is over after as many steps as its rank is short of 11, whatever is
/// reported, and then its session is gone.
pub proof fn lemma_job_finishes(job: JobView, events: Seq<EventView>)
    requires
        session_consistent(job),
        events.len() + rank(job.phase) >= 11,
    ensures
        run(job, events).phase is Finished,
        !run(job, events).session_open,
        run(job, events).target == job.target,
        run(job, events).image == job.image,
    decreases events.len(),
{
    lemma_step_advances(job, if events.len() > 0 {
        events[0]
    } else {
        EventView::Succeeded
    });
    if events.len() > 0 {
        lemma_session_discipline(job, events[0]);
        lemma_job_finishes(transition(job, events[0]).0, events.drop_first());
    }
}

/// What is asked of the owner of a job along the given reports, one action for
/// each.
pub open spec fn requests(job: JobView, events: Seq<EventView>) -> Seq<ActionView>
    decreases events.len(),
{
    if events.len() == 0 {
        Seq::empty()
    } else {
        seq![transition(job, events[0]).1] + requests(
            transition(job, events[0]).0,
            events.drop_first(),
        )
    }
}

/// The request to write the lossless raster of a job.
pub open spec fn write_png(job: JobView, files: ArtifactsView) -> ActionView {
    ActionView::Write { path: job.image.png_path, data: files.png }
}

/// The request to write the bitmap of a job.
pub open spec fn write_bmp(job: JobView, files: ArtifactsView) -> ActionView {
    ActionView::Write { path: job.image.bmp_path, data: files.bmp }
}

/// A job that is over stays as it is.
pub proof fn lemma_finished_stays(job: JobView, events: Seq<EventView>)
    requires
        job.phase is Finished,
    ensures
        run(job, events) == job,
    decreases events.len(),
{
    if events.len() > 0 {
        lemma_finished_stays(job, events.drop_first());
    }
}

proof fn lemma_requested_later(first: ActionView, later: Seq<ActionView>, wanted: ActionView)
    requires
        later.contains(wanted),
    ensures
        (seq![first] + later).contains(wanted),
{
    let i = choose|i: int| 0 <= i < later.len() && later[i] == wanted;
    assert((seq![first] + later)[i + 1] == wanted);
}

proof fn lemma_reported_later(events: Seq<EventView>, wanted: EventView)
    requires
        events.len() > 0,
        events.drop_first().contains(wanted),
    ensures
        events.contains(wanted),
{
    let i = choose|i: int| 0 <= i < events.drop_first().len() && events.drop_first()[i] == wanted;
    assert(events[i + 1] == wanted);
}

/// The files that a job holds once its screenshot is processed, if it holds any.
pub open spec fn held_files(job: JobView) -> Option<ArtifactsView> {
    match job.phase {
        PhaseView::Releasing { result: Ok(files) } => Some(files),
        PhaseView::PreparingDirectory { files } => Some(files),
        _ => None,
    }
}

/// A job that holds files and ends without failure was asked to write both.
proof fn lemma_held_files_are_written(job: JobView, events: Seq<EventView>)
    requires
        held_files(job) is Some || job.phase is WritingPng,
        run(job, events).phase == (PhaseView::Finished { failure: None }),
    ensures
        held_files(job) matches Some(files) ==> requests(job, events).contains(
            write_png(job, files),
        ) && requests(job, events).contains(write_bmp(job, files)),
        job.phase matches PhaseView::WritingPng { bmp } ==> requests(job, events).contains(
            ActionView::Write { path: job.image.bmp_path, data: bmp },
        ),
    decreases events.len(),
{
    if events.len() > 0 {
        let next = transition(job, events[0]).0;
        let action = transition(job, events[0]).1;
        let rest = events.drop_first();
        let later = requests(next, rest);
        if next.phase is Finished {
            lemma_finished_stays(next, rest);
        } else {
            match job.phase {
                PhaseView::Releasing { result: Ok(files) } => {
                    lemma_held_files_are_written(next, rest);
                    lemma_requested_later(action, later, write_png(job, files));
                    lemma_requested_later(action, later, write_bmp(job, files));
                },
                PhaseView::PreparingDirectory { files } => {
                    lemma_held_files_are_written(next, rest);
                    assert((seq![action] + later)[0] == write_png(job, files));
                    lemma_requested_later(action, later, write_bmp(job, files));
                },
                PhaseView::WritingPng { bmp } => {
                    assert((seq![action] + later)[0] == ActionView::Write {
                        path: job.image.bmp_path,
                        data: bmp,
                    });
                },
                _ => {},
            }
        }
    }
}

/// A job ends without failure only if a screenshot was reported to it that
/// processes into two files, and it was asked to write these two files under the
/// two paths of its image. A job that leaves its image behind has left none of
/// the two files out.
pub proof fn lemma_success_wrote_both(job: JobView, events: Seq<EventView>)
    requires
        rank(job.phase) <= 6,
        run(job, events).phase == (PhaseView::Finished { failure: None }),
    ensures
        exists|data: Seq<u8>|
            #![trigger process_outcome(data)]
            events.contains(EventView::Captured(data)) && (process_outcome(data) matches Ok(files)
                && requests(job, events).contains(write_png(job, files)) && requests(
                job,
                events,
            ).contains(write_bmp(job, files))),
    decreases events.len(),
{
    if events.len() > 0 {
        let next = transition(job, events[0]).0;
        let action = transition(job, events[0]).1;
        let rest = events.drop_first();
        let later = requests(next, rest);
        if next.phase is Finished {
            lemma_finished_stays(next, rest);
        } else if next.phase is Releasing {
            match next.phase->Releasing_result {
                Ok(files) => {
                    let data = events[0]->Captured_0;
                    assert(events[0] == EventView::Captured(data));
                    assert(process_outcome(data) == Ok::<ArtifactsView, RenderErrorView>(files));
                    lemma_held_files_are_written(next, rest);
                    lemma_requested_later(action, later, write_png(job, files));
                    lemma_requested_later(action, later, write_bmp(job, files));
                },
                Err(e) => {
                    let ended = transition(next, if rest.len() > 0 {
                        rest[0]
                    } else {
                        EventView::Succeeded
                    }).0;
                    if rest.len() > 0 {
                        lemma_finished_stays(ended, rest.drop_first());
                    }
                },
            }
        } else {
            lemma_success_wrote_both(next, rest);
            let data = choose|data: Seq<u8>|
                #![trigger process_outcome(data)]
                rest.contains(EventView::Captured(data)) && (process_outcome(data) matches Ok(files)
                    && requests(next, rest).contains(write_png(next, files)) && requests(
                    next,
                    rest,
                ).contains(write_bmp(next, files)));
            let files = process_outcome(data)->Ok_0;
            lemma_reported_later(events, EventView::Captured(data));
            lemma_requested_later(action, later, write_png(job, files));
            lemma_requested_later(action, later, write_bmp(job, files));
        }
    }
}

/// A job takes files only from a screenshot of the display's dimensions: what
/// the engine captured is processed only where it decodes to 800 by 480 pixels.
pub proof fn lemma_screenshot_is_display_sized(job: JobView, data: Seq<u8>)
    requires
        job.phase is Capturing,
        held_files(transition(job, EventView::Captured(data)).0) is Some,
    ensures
        png_decoding(data) matches Some(color) && display_sized(color),
{
}

} // verus!
