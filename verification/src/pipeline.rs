//! The download as a state machine.
//!
//! The machine never touches the network, the disk or the encoder. Each step
//! hands out one `Action` for the caller to carry out and takes the `Event`
//! that came of it. Stages follow one another in a fixed order; a failure
//! ends the run where it happens and nothing that was written is taken back.

use vstd::prelude::*;
use reqwest::header::HeaderMap;
use crate::bilibili::{
    audio_request_url, audio_url_outcome, fetch_audio_url, fetch_video_info, is_success,
    spec_audio_request_url, spec_is_success, spec_video_info_url, video_info_outcome,
    video_info_url, VideoData, VideoModel, AUDIO_QUALITY,
};
use crate::catalog::{
    catalog_line, ends_lines, is_already_downloaded, is_cataloged, lemma_saved_is_found,
    save_audio_info,
};
use crate::error::DownloadError;
use crate::text::has_char;
use crate::headers::{
    create_request_headers, default_header_fields, header_fields, is_header_value,
    segment_request_headers,
};

verus! {

/// The directory of temporary segments and of the catalog.
pub const DOWNLOAD_DIR: &'static str = "downloads";

/// The directory of finished artifacts.
pub const OUTPUT_DIR: &'static str = "output";

/// The catalog file.
pub const CATALOG_PATH: &'static str = "downloads/info.txt";

/// Where the segment named `file_name` is kept until it is transcoded.
pub open spec fn spec_segment_path(file_name: Seq<char>) -> Seq<char> {
    "downloads/"@ + file_name
}

/// Where the artifact of `bvid` is written.
pub open spec fn spec_artifact_path(bvid: Seq<char>) -> Seq<char> {
    "output/"@ + bvid + ".mp3"@
}

/// Where the segment named `file_name` is kept until it is transcoded.
pub fn segment_path(file_name: &str) -> (path: String)
    ensures
        path@ == spec_segment_path(file_name@),
{
    let mut path = String::from_str("downloads/");
    path.append(file_name);
    path
}

/// Where the artifact of `bvid` is written.
pub fn artifact_path(bvid: &str) -> (path: String)
    ensures
        path@ == spec_artifact_path(bvid@),
{
    let mut path = String::from_str("output/");
    path.append(bvid);
    path.append(".mp3");
    path
}

/// How far a download has come. Each stage but the last three waits for the
/// outcome of one action.
#[derive(Debug, Clone, Copy, PartialEq, Eq, Structural)]
pub enum Stage {
    /// The metadata was asked for.
    Start,
    /// The video is known; the catalog is being read.
    Metadata,
    /// The video is new; the stream address was asked for.
    DedupeCheck,
    /// The audio address is known; the download directory is being made.
    StreamResolved,
    /// The segment was asked for.
    Fetching,
    /// The segment is being written.
    Storing,
    /// The segment is on disk; the download directory is made sure of.
    Fetched,
    /// The output directory is being made.
    Preparing,
    /// The encoder is running.
    Encoding,
    /// The artifact exists; the segment is being removed.
    Transcoded,
    /// The catalog line is being appended.
    Cataloging,
    /// The artifact exists and is cataloged.
    Done,
    /// The video was in the catalog already.
    Duplicate,
    /// The run failed.
    Failed(DownloadError),
}

/// What the caller reports back.
#[derive(Debug, Clone, PartialEq, Eq)]
pub enum Event {
    /// A request was answered.
    Response { status: u16, body: Vec<u8> },
    /// The catalog was read.
    Catalog(String),
    /// There is no catalog file.
    Missing,
    /// The action was carried out and has no result.
    Completed,
    /// The action failed.
    Failed,
}

/// How a run ended.
#[derive(Debug, Clone, PartialEq, Eq)]
pub enum Outcome {
    /// The artifact was written to this path and cataloged.
    Saved(String),
    /// This BVID was in the catalog already; nothing was done.
    Duplicate(String),
    /// The run stopped with this error.
    Failed(DownloadError),
}

/// What the caller is to do next.
#[derive(Debug)]
pub enum Action {
    /// Send a GET request with exactly these headers; report the status and
    /// the whole body, whatever the status.
    Request { url: String, headers: HeaderMap },
    /// Read the file as text; report `Missing` where it does not exist.
    ReadCatalog { path: String },
    /// Make the directory, with its parents, unless it exists.
    EnsureDir { path: String },
    /// Create the file and write the bytes.
    WriteFile { path: String, contents: Vec<u8> },
    /// Run the MP3 encoder from `input` to `output`.
    Transcode { input: String, output: String, debug: bool },
    /// Remove the file.
    RemoveFile { path: String },
    /// Put the line at the end of the file, creating the file if need be.
    AppendLine { path: String, line: String },
    /// The run is over.
    Finish(Outcome),
    /// The run was over before; there is nothing to do.
    Idle,
}

/// An `Event` with its contents as sequences.
pub enum EventModel {
    Response { status: u16, body: Seq<u8> },
    Catalog(Seq<char>),
    Missing,
    Completed,
    Failed,
}

/// An `Outcome` with its strings as sequences.
pub enum OutcomeModel {
    Saved(Seq<char>),
    Duplicate(Seq<char>),
    Failed(DownloadError),
}

/// An `Action` with its contents as sequences and its headers as fields.
pub enum ActionModel {
    Request { url: Seq<char>, headers: Map<Seq<char>, Seq<char>> },
    ReadCatalog { path: Seq<char> },
    EnsureDir { path: Seq<char> },
    WriteFile { path: Seq<char>, contents: Seq<u8> },
    Transcode { input: Seq<char>, output: Seq<char>, debug: bool },
    RemoveFile { path: Seq<char> },
    AppendLine { path: Seq<char>, line: Seq<char> },
    Finish(OutcomeModel),
    Idle,
}

impl View for Event {
    type V = EventModel;

    open spec fn view(&self) -> EventModel {
        match self {
            Event::Response { status, body } => EventModel::Response {
                status: *status,
                body: body@,
            },
            Event::Catalog(text) => EventModel::Catalog(text@),
            Event::Missing => EventModel::Missing,
            Event::Completed => EventModel::Completed,
            Event::Failed => EventModel::Failed,
        }
    }
}

impl View for Outcome {
    type V = OutcomeModel;

    open spec fn view(&self) -> OutcomeModel {
        match self {
            Outcome::Saved(path) => OutcomeModel::Saved(path@),
            Outcome::Duplicate(bvid) => OutcomeModel::Duplicate(bvid@),
            Outcome::Failed(e) => OutcomeModel::Failed(*e),
        }
    }
}

impl OutcomeModel {
    /// The kind of error that an outcome stands for: none for a saved
    /// artifact, `Duplicate` for a video that was there already.
    pub open spec fn error(self) -> Option<DownloadError> {
        match self {
            OutcomeModel::Saved(_) => None,
            OutcomeModel::Duplicate(_) => Some(DownloadError::Duplicate),
            OutcomeModel::Failed(e) => Some(e),
        }
    }
}

impl Outcome {
    /// The kind of error that the outcome stands for, if any.
    pub fn error(&self) -> (kind: Option<DownloadError>)
        ensures
            kind == self@.error(),
    {
        match self {
            Outcome::Saved(_) => None,
            Outcome::Duplicate(_) => Some(DownloadError::Duplicate),
            Outcome::Failed(e) => Some(*e),
        }
    }
}

impl View for Action {
    type V = ActionModel;

    open spec fn view(&self) -> ActionModel {
        match self {
            Action::Request { url, headers } => ActionModel::Request {
                url: url@,
                headers: header_fields(*headers),
            },
            Action::ReadCatalog { path } => ActionModel::ReadCatalog { path: path@ },
            Action::EnsureDir { path } => ActionModel::EnsureDir { path: path@ },
            Action::WriteFile { path, contents } => ActionModel::WriteFile {
                path: path@,
                contents: contents@,
            },
            Action::Transcode { input, output, debug } => ActionModel::Transcode {
                input: input@,
                output: output@,
                debug: *debug,
            },
            Action::RemoveFile { path } => ActionModel::RemoveFile { path: path@ },
            Action::AppendLine { path, line } => ActionModel::AppendLine {
                path: path@,
                line: line@,
            },
            Action::Finish(outcome) => ActionModel::Finish(outcome@),
            Action::Idle => ActionModel::Idle,
        }
    }
}

/// A download in progress.
#[derive(Debug)]
pub struct Pipeline {
    /// How far the run has come.
    pub stage: Stage,
    /// Whether the encoder is to report what it does.
    pub debug: bool,
    /// The video; before the metadata is known, only the BVID as asked for.
    pub video: VideoData,
    /// The address of the segment; empty before the stream is resolved.
    pub audio_url: String,
    /// Whether the segment could not be removed.
    pub cleanup_failed: bool,
}

/// A `Pipeline` with its contents as sequences.
pub struct PipelineModel {
    pub stage: Stage,
    pub debug: bool,
    pub video: VideoModel,
    pub audio_url: Seq<char>,
    pub cleanup_failed: bool,
}

impl View for Pipeline {
    type V = PipelineModel;

    open spec fn view(&self) -> PipelineModel {
        PipelineModel {
            stage: self.stage,
            debug: self.debug,
            video: self.video@,
            audio_url: self.audio_url@,
            cleanup_failed: self.cleanup_failed,
        }
    }
}

impl PipelineModel {
    /// The same run at another stage.
    pub open spec fn at(self, stage: Stage) -> PipelineModel {
        PipelineModel { stage, ..self }
    }

    /// The run ended by an error.
    pub open spec fn fail(self, e: DownloadError) -> (PipelineModel, ActionModel) {
        (self.at(Stage::Failed(e)), ActionModel::Finish(OutcomeModel::Failed(e)))
    }

    /// The address of the stream request, which the segment request names as
    /// its referer.
    pub open spec fn page_url(self) -> Seq<char> {
        spec_audio_request_url(self.video.bvid, self.video.cid, AUDIO_QUALITY)
    }

    /// Where the segment is kept.
    pub open spec fn segment_path(self) -> Seq<char> {
        spec_segment_path(self.video.bvid)
    }

    /// Where the artifact is written.
    pub open spec fn artifact_path(self) -> Seq<char> {
        spec_artifact_path(self.video.bvid)
    }

    /// The line that records the artifact.
    pub open spec fn record(self) -> Seq<char> {
        catalog_line(self.video.bvid, self.video.title, self.artifact_path())
    }
}

/// The request for the segment: the audio address, with the default headers
/// but the page address as referer.
pub open spec fn segment_request(audio_url: Seq<char>, page_url: Seq<char>) -> ActionModel {
    ActionModel::Request {
        url: audio_url,
        headers: default_header_fields().insert("referer"@, page_url),
    }
}

/// The encoder's job for a segment: to the artifact path of `bvid`.
pub open spec fn transcode_job(input: Seq<char>, bvid: Seq<char>, debug: bool) -> ActionModel {
    ActionModel::Transcode { input, output: spec_artifact_path(bvid), debug }
}

/// A new run, and its first action: the metadata request.
pub open spec fn start(bvid: Seq<char>, debug: bool) -> (PipelineModel, ActionModel) {
    (
        PipelineModel {
            stage: Stage::Start,
            debug,
            video: VideoModel { bvid, title: Seq::empty(), cid: 0 },
            audio_url: Seq::empty(),
            cleanup_failed: false,
        },
        ActionModel::Request { url: spec_video_info_url(bvid), headers: default_header_fields() },
    )
}

/// After the metadata request: the video is known and the catalog is read
/// next, or the run fails as `video_info_outcome` says. A request that got
/// no answer is a failed request.
pub open spec fn on_metadata(state: PipelineModel, event: EventModel) -> (
    PipelineModel,
    ActionModel,
) {
    match event {
        EventModel::Response { status, body } => match video_info_outcome(status, body) {
            Ok(video) => (
                PipelineModel { stage: Stage::Metadata, video, ..state },
                ActionModel::ReadCatalog { path: CATALOG_PATH@ },
            ),
            Err(e) => state.fail(e),
        },
        _ => state.fail(DownloadError::RemoteRequest),
    }
}

/// After the catalog was read: a video that it records ends the run as a
/// duplicate, before anything else is asked for; for any other the stream
/// address is requested. No catalog file is an empty catalog.
pub open spec fn on_catalog(state: PipelineModel, event: EventModel) -> (
    PipelineModel,
    ActionModel,
) {
    let proceed = (
        state.at(Stage::DedupeCheck),
        ActionModel::Request { url: state.page_url(), headers: default_header_fields() },
    );
    match event {
        EventModel::Catalog(text) => if is_cataloged(text, state.video.bvid) {
            (
                state.at(Stage::Duplicate),
                ActionModel::Finish(OutcomeModel::Duplicate(state.video.bvid)),
            )
        } else {
            proceed
        },
        EventModel::Missing => proceed,
        _ => state.fail(DownloadError::Io),
    }
}

/// After the stream request: the audio address is kept and the download
/// directory is made, or the run fails as `audio_url_outcome` says. A page
/// address that cannot be a header value makes the segment request
/// impossible, which is a failed request; it fails here, before anything
/// local is touched.
pub open spec fn on_stream(state: PipelineModel, event: EventModel) -> (
    PipelineModel,
    ActionModel,
) {
    match event {
        EventModel::Response { status, body } => match audio_url_outcome(status, body) {
            Ok(audio_url) => if is_header_value(state.page_url()) {
                (
                    PipelineModel { stage: Stage::StreamResolved, audio_url, ..state },
                    ActionModel::EnsureDir { path: DOWNLOAD_DIR@ },
                )
            } else {
                state.fail(DownloadError::RemoteRequest)
            },
            Err(e) => state.fail(e),
        },
        _ => state.fail(DownloadError::RemoteRequest),
    }
}

/// After the download directory was made: the segment is requested from the
/// audio address, with the page address as referer.
pub open spec fn on_download_dir(state: PipelineModel, event: EventModel) -> (
    PipelineModel,
    ActionModel,
) {
    match event {
        EventModel::Completed => if is_header_value(state.page_url()) {
            (state.at(Stage::Fetching), segment_request(state.audio_url, state.page_url()))
        } else {
            state.fail(DownloadError::RemoteRequest)
        },
        _ => state.fail(DownloadError::Io),
    }
}

/// After the segment request: with a 2xx status the body is written to the
/// segment's file; no file is made for any other answer.
pub open spec fn on_segment(state: PipelineModel, event: EventModel) -> (
    PipelineModel,
    ActionModel,
) {
    match event {
        EventModel::Response { status, body } => if spec_is_success(status) {
            (
                state.at(Stage::Storing),
                ActionModel::WriteFile { path: state.segment_path(), contents: body },
            )
        } else {
            state.fail(DownloadError::RemoteRequest)
        },
        _ => state.fail(DownloadError::RemoteRequest),
    }
}

/// A step that only waits for an action on the disk: on to `target` with
/// `action`, or an `Io` failure.
pub open spec fn on_disk(
    state: PipelineModel,
    event: EventModel,
    target: Stage,
    action: ActionModel,
) -> (PipelineModel, ActionModel) {
    match event {
        EventModel::Completed => (state.at(target), action),
        _ => state.fail(DownloadError::Io),
    }
}

/// After the encoder ran: the segment is removed, or the run fails with
/// `Transcode` and the segment stays.
pub open spec fn on_encoded(state: PipelineModel, event: EventModel) -> (
    PipelineModel,
    ActionModel,
) {
    match event {
        EventModel::Completed => (
            state.at(Stage::Transcoded),
            ActionModel::RemoveFile { path: state.segment_path() },
        ),
        _ => state.fail(DownloadError::Transcode),
    }
}

/// After the removal: the catalog line is appended whether or not the
/// segment could be removed; the run remembers a failed removal.
pub open spec fn on_removed(state: PipelineModel, event: EventModel) -> (
    PipelineModel,
    ActionModel,
) {
    (
        PipelineModel {
            stage: Stage::Cataloging,
            cleanup_failed: !(event is Completed),
            ..state
        },
        ActionModel::AppendLine { path: CATALOG_PATH@, line: state.record() },
    )
}

/// After the append: the run is done, or fails with `Cleanup` where the
/// segment is still there, or with `Io` where the line could not be written.
pub open spec fn on_cataloged(state: PipelineModel, event: EventModel) -> (
    PipelineModel,
    ActionModel,
) {
    match event {
        EventModel::Completed => if state.cleanup_failed {
            state.fail(DownloadError::Cleanup)
        } else {
            (
                state.at(Stage::Done),
                ActionModel::Finish(OutcomeModel::Saved(state.artifact_path())),
            )
        },
        _ => state.fail(DownloadError::Io),
    }
}

/// The step of the machine: the state and the action that follow a state
/// and the event that the last action led to.
pub open spec fn next(state: PipelineModel, event: EventModel) -> (PipelineModel, ActionModel) {
    match state.stage {
        Stage::Start => on_metadata(state, event),
        Stage::Metadata => on_catalog(state, event),
        Stage::DedupeCheck => on_stream(state, event),
        Stage::StreamResolved => on_download_dir(state, event),
        Stage::Fetching => on_segment(state, event),
        Stage::Storing => on_disk(
            state,
            event,
            Stage::Fetched,
            ActionModel::EnsureDir { path: DOWNLOAD_DIR@ },
        ),
        Stage::Fetched => on_disk(
            state,
            event,
            Stage::Preparing,
            ActionModel::EnsureDir { path: OUTPUT_DIR@ },
        ),
        Stage::Preparing => on_disk(
            state,
            event,
            Stage::Encoding,
            transcode_job(state.segment_path(), state.video.bvid, state.debug),
        ),
        Stage::Encoding => on_encoded(state, event),
        Stage::Transcoded => on_removed(state, event),
        Stage::Cataloging => on_cataloged(state, event),
        Stage::Done | Stage::Duplicate | Stage::Failed(_) => (state, ActionModel::Idle),
    }
}

/// The request that downloads the audio file: to `audio_url`, with the
/// default headers but `playurl` as referer. It cannot be made where
/// `playurl` cannot be a header value.
pub fn download_audio_file(audio_url: &str, playurl: &str) -> (r: Result<Action, DownloadError>)
    ensures
        is_header_value(playurl@) ==> (r matches Ok(action) && action@ == segment_request(
            audio_url@,
            playurl@,
        )),
        !is_header_value(playurl@) ==> r == Err::<Action, DownloadError>(
            DownloadError::RemoteRequest,
        ),
{
    match segment_request_headers(playurl) {
        Some(headers) => Ok(Action::Request { url: String::from_str(audio_url), headers }),
        None => Err(DownloadError::RemoteRequest),
    }
}

/// The encoder's job that turns the segment `input_file` into the artifact
/// of `bvid`.
pub fn convert_audio_to_mp3(input_file: &str, bvid: &str, debug_mode: bool) -> (job: Action)
    ensures
        job@ == transcode_job(input_file@, bvid@, debug_mode),
{
    Action::Transcode {
        input: String::from_str(input_file),
        output: artifact_path(bvid),
        debug: debug_mode,
    }
}

/// Begins the download of `bvid`: the new run and its first action, the
/// metadata request.
pub fn download_audio_from_bvid(bvid: &str, debug_mode: bool) -> (r: (Pipeline, Action))
    ensures
        r.0@ == start(bvid@, debug_mode).0,
        r.1@ == start(bvid@, debug_mode).1,
{
    let state = Pipeline {
        stage: Stage::Start,
        debug: debug_mode,
        video: VideoData { bvid: String::from_str(bvid), title: String::new(), cid: 0 },
        audio_url: String::new(),
        cleanup_failed: false,
    };
    let action = Action::Request { url: video_info_url(bvid), headers: create_request_headers() };
    (state, action)
}

impl Pipeline {
    /// Whether the run is over.
    pub fn is_finished(&self) -> (over: bool)
        ensures
            over == (self.stage is Done || self.stage is Duplicate || self.stage is Failed),
    {
        match self.stage {
            Stage::Done | Stage::Duplicate | Stage::Failed(_) => true,
            _ => false,
        }
    }

    fn fail(self, e: DownloadError) -> (r: (Pipeline, Action))
        ensures
            r.0@ == self@.fail(e).0,
            r.1@ == self@.fail(e).1,
    {
        let mut state = self;
        state.stage = Stage::Failed(e);
        (state, Action::Finish(Outcome::Failed(e)))
    }

    fn go(self, target: Stage, action: Action) -> (r: (Pipeline, Action))
        ensures
            r.0@ == self@.at(target),
            r.1 == action,
    {
        let mut state = self;
        state.stage = target;
        (state, action)
    }

    fn after_metadata(self, event: Event) -> (r: (Pipeline, Action))
        ensures
            r.0@ == on_metadata(self@, event@).0,
            r.1@ == on_metadata(self@, event@).1,
    {
        match event {
            Event::Response { status, body } => match fetch_video_info(status, body.as_slice()) {
                Ok(video) => {
                    let mut state = self;
                    state.video = video;
                    state.go(
                        Stage::Metadata,
                        Action::ReadCatalog { path: String::from_str(CATALOG_PATH) },
                    )
                },
                Err(e) => self.fail(e),
            },
            _ => self.fail(DownloadError::RemoteRequest),
        }
    }

    fn stream_request(&self) -> (action: Action)
        ensures
            action@ == (ActionModel::Request {
                url: self@.page_url(),
                headers: default_header_fields(),
            }),
    {
        Action::Request {
            url: audio_request_url(self.video.bvid.as_str(), self.video.cid, AUDIO_QUALITY),
            headers: create_request_headers(),
        }
    }

    fn after_catalog(self, event: Event) -> (r: (Pipeline, Action))
        ensures
            r.0@ == on_catalog(self@, event@).0,
            r.1@ == on_catalog(self@, event@).1,
    {
        match event {
            Event::Catalog(text) => {
                if is_already_downloaded(text.as_str(), self.video.bvid.as_str()) {
                    let bvid = self.video.bvid.clone();
                    self.go(Stage::Duplicate, Action::Finish(Outcome::Duplicate(bvid)))
                } else {
                    let action = self.stream_request();
                    self.go(Stage::DedupeCheck, action)
                }
            },
            Event::Missing => {
                let action = self.stream_request();
                self.go(Stage::DedupeCheck, action)
            },
            _ => self.fail(DownloadError::Io),
        }
    }

    fn after_stream(self, event: Event) -> (r: (Pipeline, Action))
        ensures
            r.0@ == on_stream(self@, event@).0,
            r.1@ == on_stream(self@, event@).1,
    {
        match event {
            Event::Response { status, body } => {
                let page_url = audio_request_url(
                    self.video.bvid.as_str(),
                    self.video.cid,
                    AUDIO_QUALITY,
                );
                match fetch_audio_url(status, body.as_slice(), page_url.as_str()) {
                    Ok((audio_url, referer)) => {
                        if segment_request_headers(referer.as_str()).is_some() {
                            let mut state = self;
                            state.audio_url = audio_url;
                            state.go(
                                Stage::StreamResolved,
                                Action::EnsureDir { path: String::from_str(DOWNLOAD_DIR) },
                            )
                        } else {
                            self.fail(DownloadError::RemoteRequest)
                        }
                    },
                    Err(e) => self.fail(e),
                }
            },
            _ => self.fail(DownloadError::RemoteRequest),
        }
    }

    fn after_download_dir(self, event: Event) -> (r: (Pipeline, Action))
        ensures
            r.0@ == on_download_dir(self@, event@).0,
            r.1@ == on_download_dir(self@, event@).1,
    {
        match event {
            Event::Completed => {
                let page_url = audio_request_url(
                    self.video.bvid.as_str(),
                    self.video.cid,
                    AUDIO_QUALITY,
                );
                match download_audio_file(self.audio_url.as_str(), page_url.as_str()) {
                    Ok(action) => self.go(Stage::Fetching, action),
                    Err(e) => self.fail(e),
                }
            },
            _ => self.fail(DownloadError::Io),
        }
    }

    fn after_segment(self, event: Event) -> (r: (Pipeline, Action))
        ensures
            r.0@ == on_segment(self@, event@).0,
            r.1@ == on_segment(self@, event@).1,
    {
        match event {
            Event::Response { status, body } => {
                if is_success(status) {
                    let path = segment_path(self.video.bvid.as_str());
                    self.go(Stage::Storing, Action::WriteFile { path, contents: body })
                } else {
                    self.fail(DownloadError::RemoteRequest)
                }
            },
            _ => self.fail(DownloadError::RemoteRequest),
        }
    }

    fn after_disk(self, event: Event, target: Stage, action: Action) -> (r: (Pipeline, Action))
        ensures
            r.0@ == on_disk(self@, event@, target, action@).0,
            r.1@ == on_disk(self@, event@, target, action@).1,
    {
        match event {
            Event::Completed => self.go(target, action),
            _ => self.fail(DownloadError::Io),
        }
    }

    fn after_encoded(self, event: Event) -> (r: (Pipeline, Action))
        ensures
            r.0@ == on_encoded(self@, event@).0,
            r.1@ == on_encoded(self@, event@).1,
    {
        match event {
            Event::Completed => {
                let path = segment_path(self.video.bvid.as_str());
                self.go(Stage::Transcoded, Action::RemoveFile { path })
            },
            _ => self.fail(DownloadError::Transcode),
        }
    }

    fn after_removed(self, event: Event) -> (r: (Pipeline, Action))
        ensures
            r.0@ == on_removed(self@, event@).0,
            r.1@ == on_removed(self@, event@).1,
    {
        let output = artifact_path(self.video.bvid.as_str());
        let line = save_audio_info(
            output.as_str(),
            self.video.title.as_str(),
            self.video.bvid.as_str(),
        );
        let removed = match event {
            Event::Completed => true,
            _ => false,
        };
        let mut state = self;
        state.cleanup_failed = !removed;
        state.go(
            Stage::Cataloging,
            Action::AppendLine { path: String::from_str(CATALOG_PATH), line },
        )
    }

    fn after_cataloged(self, event: Event) -> (r: (Pipeline, Action))
        ensures
            r.0@ == on_cataloged(self@, event@).0,
            r.1@ == on_cataloged(self@, event@).1,
    {
        match event {
            Event::Completed => {
                if self.cleanup_failed {
                    self.fail(DownloadError::Cleanup)
                } else {
                    let output = artifact_path(self.video.bvid.as_str());
                    self.go(Stage::Done, Action::Finish(Outcome::Saved(output)))
                }
            },
            _ => self.fail(DownloadError::Io),
        }
    }

    /// Takes the event that the last action led to, and hands out the next
    /// action. A run that is over stays as it is.
    pub fn advance(self, event: Event) -> (r: (Pipeline, Action))
        ensures
            r.0@ == next(self@, event@).0,
            r.1@ == next(self@, event@).1,
    {
        match self.stage {
            Stage::Start => self.after_metadata(event),
            Stage::Metadata => self.after_catalog(event),
            Stage::DedupeCheck => self.after_stream(event),
            Stage::StreamResolved => self.after_download_dir(event),
            Stage::Fetching => self.after_segment(event),
            Stage::Storing => self.after_disk(
                event,
                Stage::Fetched,
                Action::EnsureDir { path: String::from_str(DOWNLOAD_DIR) },
            ),
            Stage::Fetched => self.after_disk(
                event,
                Stage::Preparing,
                Action::EnsureDir { path: String::from_str(OUTPUT_DIR) },
            ),
            Stage::Preparing => {
                let input = segment_path(self.video.bvid.as_str());
                let job = convert_audio_to_mp3(
                    input.as_str(),
                    self.video.bvid.as_str(),
                    self.debug,
                );
                self.after_disk(event, Stage::Encoding, job)
            },
            Stage::Encoding => self.after_encoded(event),
            Stage::Transcoded => self.after_removed(event),
            Stage::Cataloging => self.after_cataloged(event),
            Stage::Done | Stage::Duplicate | Stage::Failed(_) => (self, Action::Idle),
        }
    }
}

impl Stage {
    /// Whether a run at this stage is over.
    pub open spec fn is_final(self) -> bool {
        self is Done || self is Duplicate || self is Failed
    }

    /// The place of the stage in the order of a run; the three ways to end
    /// come last.
    pub open spec fn rank(self) -> int {
        match self {
            Stage::Start => 0,
            Stage::Metadata => 1,
            Stage::DedupeCheck => 2,
            Stage::StreamResolved => 3,
            Stage::Fetching => 4,
            Stage::Storing => 5,
            Stage::Fetched => 6,
            Stage::Preparing => 7,
            Stage::Encoding => 8,
            Stage::Transcoded => 9,
            Stage::Cataloging => 10,
            Stage::Done => 11,
            Stage::Duplicate => 11,
            Stage::Failed(_) => 11,
        }
    }
}

/// The state that a run has reached from `state` after a row of events.
pub open spec fn run(state: PipelineModel, events: Seq<EventModel>) -> PipelineModel
    decreases events.len(),
{
    if events.len() == 0 {
        state
    } else {
        next(run(state, events.drop_last()), events.last()).0
    }
}

/// Stages come in order and one at a time: a step leads to the next stage
/// or ends the run, a run can end as a duplicate only at the catalog check
/// and as done only after the append, and a run that is over stays as it is
/// and asks for nothing. The video is fixed once the metadata is known. A
/// duplicate is an outcome of its own and never the error of a failed run.
pub proof fn lemma_steps_in_order(state: PipelineModel, event: EventModel)
    ensures
        state.stage.is_final() ==> next(state, event) == (state, ActionModel::Idle),
        !state.stage.is_final() ==> {
            let after = next(state, event).0.stage;
            after.rank() == state.stage.rank() + 1 || after is Failed || (after is Duplicate
                && state.stage == Stage::Metadata)
        },
        next(state, event).0.stage is Done && !(state.stage is Done) ==> state.stage
            == Stage::Cataloging,
        !(state.stage is Start) ==> next(state, event).0.video == state.video,
        next(state, event).0.debug == state.debug,
        next(state, event).1 is Finish <==> !state.stage.is_final() && next(
            state,
            event,
        ).0.stage.is_final(),
        !state.stage.is_final() ==> next(state, event).0.stage != Stage::Failed(
            DownloadError::Duplicate,
        ),
{
}

/// A run in which nothing fails goes through every stage once: for a video
/// that the catalog does not record, it makes the download directory, asks
/// for the segment, writes it, makes the two directories, encodes, removes
/// the segment, appends the record, and ends with the artifact's path.
pub proof fn lemma_successful_run(
    bvid: Seq<char>,
    debug: bool,
    video: VideoModel,
    audio_url: Seq<char>,
    metadata: EventModel,
    catalog: EventModel,
    stream: EventModel,
    segment: Seq<u8>,
)
    requires
        metadata matches EventModel::Response { status, body } && video_info_outcome(
            status,
            body,
        ) == Ok::<VideoModel, DownloadError>(video),
        catalog is Missing || (catalog matches EventModel::Catalog(text) && !is_cataloged(
            text,
            video.bvid,
        )),
        stream matches EventModel::Response { status, body } && audio_url_outcome(status, body)
            == Ok::<Seq<char>, DownloadError>(audio_url),
        is_header_value(spec_audio_request_url(video.bvid, video.cid, AUDIO_QUALITY)),
    ensures
        ({
            let page_url = spec_audio_request_url(video.bvid, video.cid, AUDIO_QUALITY);
            let temp = spec_segment_path(video.bvid);
            let output = spec_artifact_path(video.bvid);
            let done = EventModel::Completed;
            let s1 = next(start(bvid, debug).0, metadata);
            let s2 = next(s1.0, catalog);
            let s3 = next(s2.0, stream);
            let s4 = next(s3.0, done);
            let s5 = next(s4.0, EventModel::Response { status: 200, body: segment });
            let s6 = next(s5.0, done);
            let s7 = next(s6.0, done);
            let s8 = next(s7.0, done);
            let s9 = next(s8.0, done);
            let s10 = next(s9.0, done);
            let s11 = next(s10.0, done);
            &&& s1.1 == ActionModel::ReadCatalog { path: CATALOG_PATH@ }
            &&& s2.1 == ActionModel::Request { url: page_url, headers: default_header_fields() }
            &&& s3.1 == ActionModel::EnsureDir { path: DOWNLOAD_DIR@ }
            &&& s4.1 == segment_request(audio_url, page_url)
            &&& s5.1 == ActionModel::WriteFile { path: temp, contents: segment }
            &&& s6.1 == ActionModel::EnsureDir { path: DOWNLOAD_DIR@ }
            &&& s7.1 == ActionModel::EnsureDir { path: OUTPUT_DIR@ }
            &&& s8.1 == ActionModel::Transcode { input: temp, output, debug }
            &&& s9.1 == ActionModel::RemoveFile { path: temp }
            &&& s10.1 == ActionModel::AppendLine {
                path: CATALOG_PATH@,
                line: catalog_line(video.bvid, video.title, output),
            }
            &&& s11.1 == ActionModel::Finish(OutcomeModel::Saved(output))
            &&& s11.0.stage == Stage::Done
            &&& s11.0.video == video
        }),
{
}

/// A video that the catalog records is not downloaded again: the catalog
/// check ends the run as a duplicate that names the BVID, and no request,
/// file or encoder job follows, whatever is reported afterwards.
pub proof fn lemma_duplicate_stops(state: PipelineModel, text: Seq<char>, later: Seq<EventModel>)
    requires
        state.stage == Stage::Metadata,
        is_cataloged(text, state.video.bvid),
    ensures
        next(state, EventModel::Catalog(text)) == (
            state.at(Stage::Duplicate),
            ActionModel::Finish(OutcomeModel::Duplicate(state.video.bvid)),
        ),
        run(next(state, EventModel::Catalog(text)).0, later) == state.at(Stage::Duplicate),
        forall|event: EventModel|
            next(run(next(state, EventModel::Catalog(text)).0, later), event).1
                == ActionModel::Idle,
    decreases later.len(),
{
    if later.len() > 0 {
        lemma_duplicate_stops(state, text, later.drop_last());
    }
}

/// Whether a text holds neither `|` nor a line feed, so that it can be a
/// field of a catalog line.
pub open spec fn is_field(text: Seq<char>) -> bool {
    !has_char(text, '|') && !has_char(text, '\n')
}

/// The line that a run appends makes every later run for the same BVID a
/// duplicate. `first` is a run whose segment was just removed or not, and
/// `second` a run that has just learnt its video; the catalog that the
/// second reads is the one that the first appended to. This needs a BVID
/// without `|` and line feed, a title without line feed, and a catalog of
/// complete lines.
pub proof fn lemma_second_run_is_duplicate(
    first: PipelineModel,
    event: EventModel,
    second: PipelineModel,
    text: Seq<char>,
)
    requires
        first.stage == Stage::Transcoded,
        second.stage == Stage::Metadata,
        second.video.bvid == first.video.bvid,
        is_field(first.video.bvid),
        !has_char(first.video.title, '\n'),
        ends_lines(text),
    ensures
        next(first, event).1 == (ActionModel::AppendLine {
            path: CATALOG_PATH@,
            line: first.record(),
        }),
        next(second, EventModel::Catalog(text + first.record())) == (
            second.at(Stage::Duplicate),
            ActionModel::Finish(OutcomeModel::Duplicate(second.video.bvid)),
        ),
{
    let bvid = first.video.bvid;
    let path = first.artifact_path();
    assert(!has_char(path, '\n')) by {
        reveal_strlit("output/");
        reveal_strlit(".mp3");
        if has_char(path, '\n') {
            let i = choose|i: int| 0 <= i < path.len() && path[i] == '\n';
            if 7 <= i < 7 + bvid.len() {
                assert(bvid[i - 7] == '\n');
            }
        }
    }
    lemma_saved_is_found(text, bvid, first.video.title, path);
}

/// The files of a run are named after its BVID: the segment is written to,
/// encoded from and removed at `downloads/<bvid>`, the artifact is encoded
/// to `output/<bvid>.mp3`, and that is the path of a saved outcome, which
/// comes only when the catalog line was appended and the segment removed.
pub proof fn lemma_artifact_naming(state: PipelineModel, event: EventModel)
    ensures
        match next(state, event).1 {
            ActionModel::WriteFile { path, contents } => path == spec_segment_path(
                state.video.bvid,
            ) && event == (EventModel::Response { status: event->status, body: contents })
                && spec_is_success(event->status),
            ActionModel::Transcode { input, output, debug } => input == spec_segment_path(
                state.video.bvid,
            ) && output == spec_artifact_path(state.video.bvid),
            ActionModel::RemoveFile { path } => path == spec_segment_path(state.video.bvid),
            ActionModel::Finish(OutcomeModel::Saved(path)) => path == spec_artifact_path(
                state.video.bvid,
            ) && state.stage == Stage::Cataloging && !state.cleanup_failed && event is Completed,
            _ => true,
        },
        state.stage == Stage::Transcoded ==> next(state, event).0.cleanup_failed == !(event
            is Completed),
        !(state.stage == Stage::Transcoded) ==> next(state, event).0.cleanup_failed
            == state.cleanup_failed,
{
}

/// The catalog is only ever appended to: the one action that names the
/// catalog file puts the run's record at its end, and the file that a run
/// writes and removes is another one, unless the BVID is `info.txt`.
pub proof fn lemma_catalog_grows(state: PipelineModel, event: EventModel)
    ensures
        match next(state, event).1 {
            ActionModel::AppendLine { path, line } => path == CATALOG_PATH@ && line
                == state.record() && state.stage == Stage::Transcoded,
            ActionModel::WriteFile { path, contents } => state.video.bvid != "info.txt"@ ==> path
                != CATALOG_PATH@,
            ActionModel::RemoveFile { path } => state.video.bvid != "info.txt"@ ==> path
                != CATALOG_PATH@,
            ActionModel::Transcode { input, output, debug } => output != CATALOG_PATH@,
            _ => true,
        },
{
    reveal_strlit("downloads/");
    reveal_strlit("downloads/info.txt");
    reveal_strlit("info.txt");
    reveal_strlit("output/");
    let bvid = state.video.bvid;
    let temp = spec_segment_path(bvid);
    if temp == CATALOG_PATH@ {
        assert(bvid =~= temp.subrange(10, temp.len() as int));
        assert("info.txt"@ =~= CATALOG_PATH@.subrange(10, 18));
    }
    assert(spec_artifact_path(bvid)[0] == 'o');
    assert(CATALOG_PATH@[0] == 'd');
}

/// Before the stream is resolved nothing local is changed: until that point a step
/// only asks for a request or for the catalog to be read, or ends the run.
/// The first local change is the making of the download directory, and no
/// file is made before the segment was answered with 2xx: any other answer
/// ends the run as a failed request.
pub proof fn lemma_nothing_local_before_fetch(state: PipelineModel, event: EventModel)
    ensures
        state.stage.rank() <= 1 ==> (next(state, event).1 is Request || next(state, event).1
            is ReadCatalog || next(state, event).1 is Finish),
        state.stage.rank() <= 3 ==> !(next(state, event).1 is WriteFile || next(state, event).1
            is Transcode || next(state, event).1 is RemoveFile || next(state, event).1
            is AppendLine),
        state.stage == Stage::Fetching && !(event matches EventModel::Response { status, body }
            && spec_is_success(status)) ==> next(state, event) == state.fail(
            DownloadError::RemoteRequest,
        ),
{
}

/// Every request names a user agent, an origin and a referer. The segment
/// request, the one that follows the making of the download directory, goes
/// to the audio address and names the address of the stream request as its
/// referer; the two requests before it carry the default set.
pub proof fn lemma_request_headers(state: PipelineModel, event: EventModel)
    ensures
        next(state, event).1 matches ActionModel::Request { url, headers } ==> {
            &&& headers.dom().contains("user-agent"@)
            &&& headers.dom().contains("origin"@)
            &&& headers.dom().contains("referer"@)
            &&& state.stage == Stage::StreamResolved ==> url == state.audio_url
                && headers["referer"@] == state.page_url()
            &&& state.stage != Stage::StreamResolved ==> headers == default_header_fields()
        },
{
}

} // verus!
