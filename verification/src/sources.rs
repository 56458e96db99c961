use crate::messages::{InnerMessage, Message, Payload};
use crate::timeseries::{lemma_somes_len, somes, EnsembleList, MetaData, MetaView};
use bufkit_data::{BufkitDataErr, SiteInfo};
use std::path::PathBuf;
use strum::IntoEnumIterator;
use vstd::prelude::*;

verus! {

/// The texts of the runs of one site and model, each under the start time of
/// its run.
pub type StringData = EnsembleList<String>;

/// The error of the archive. The library carries it along and never looks
/// inside.
#[verifier::external_type_specification]
#[verifier::external_body]
pub struct ExBufkitDataErr(BufkitDataErr);

/// A path in the file system. The library carries it along and never looks
/// inside.
#[verifier::external_type_specification]
#[verifier::external_body]
pub struct ExPathBuf(PathBuf);

/// Why a loader has no data to give.
#[derive(Debug)]
pub enum SourceError {
    /// The archive or the file system failed; this is their error.
    Archive(BufkitDataErr),
    /// A text is not in the Bufkit format; this is the parser's message.
    Malformed(String),
    /// A text holds no sounding, or its first sounding has no valid time.
    NotEnoughData,
    /// The archive does not know the site.
    NotInIndex,
}

/// The models in the archive.
#[derive(Clone, Copy, Debug, PartialEq, Eq, Structural)]
pub enum Model {
    /// The U.S. Global Forecast System.
    GFS,
    /// The U.S. North American Model.
    NAM,
    /// The high resolution nest of the `NAM`.
    NAM4KM,
}

/// Information needed for making a plot from files on disk.
pub struct FileData {
    pub site: SiteInfo,
    pub model: String,
    pub start: i64,
    pub end: i64,
    pub files: Vec<PathBuf>,
}

/// The number of seconds in a day.
pub const SECONDS_PER_DAY: i64 = 86_400;

/// The number of days of forecast that each model offers.
pub open spec fn horizon_days(model: Model) -> int {
    match model {
        Model::GFS => 7,
        Model::NAM => 4,
        Model::NAM4KM => 3,
    }
}

/// The number of days of data available for each model.
pub fn num_days(model: Model) -> (days: i64)
    ensures
        days == horizon_days(model),
{
    match model {
        Model::GFS => 7,
        Model::NAM => 4,
        Model::NAM4KM => 3,
    }
}

/// The name under which the archive knows each model.
pub open spec fn model_label(model: Model) -> Seq<char> {
    match model {
        Model::GFS => "gfs"@,
        Model::NAM => "nam"@,
        Model::NAM4KM => "nam4km"@,
    }
}

/// Calls `bufkit_data::Model::as_static_str`, which gives the name that the
/// archive's declaration of the model marks for printing: `gfs`, `nam` and
/// `nam4km`.
#[verifier::external_body]
pub(crate) fn model_name(model: Model) -> (name: String)
    ensures
        name@ == model_label(model),
{
    let known = match model {
        Model::GFS => bufkit_data::Model::GFS,
        Model::NAM => bufkit_data::Model::NAM,
        Model::NAM4KM => bufkit_data::Model::NAM4KM,
    };
    known.as_static_str().to_owned()
}

/// Calls `bufkit_data::Model::iter`, which walks the archive's models in the
/// order of their declaration: GFS, NAM, NAM4KM.
#[verifier::external_body]
pub(crate) fn all_models() -> (models: Vec<Model>)
    ensures
        models@ == seq![Model::GFS, Model::NAM, Model::NAM4KM],
{
    bufkit_data::Model::iter().map(
        |known| match known {
            bufkit_data::Model::GFS => Model::GFS,
            bufkit_data::Model::NAM => Model::NAM,
            bufkit_data::Model::NAM4KM => Model::NAM4KM,
        },
    ).collect()
}

/// The start of the window of a query: `days_back` days before `time`.
pub open spec fn window_start(time: i64, days_back: i64) -> int {
    time - days_back * SECONDS_PER_DAY
}

/// The end of the window of a query: as many days after `time` as the model
/// offers.
pub open spec fn window_end(time: i64, model: Model) -> int {
    time + horizon_days(model) * SECONDS_PER_DAY
}

/// The window of a query can be held: the days back make a number of seconds
/// that an `i64` holds, and so are both ends of the window.
pub open spec fn window_fits(time: i64, days_back: i64, model: Model) -> bool {
    &&& i64::MIN <= days_back * SECONDS_PER_DAY <= i64::MAX
    &&& i64::MIN <= window_start(time, days_back) <= i64::MAX
    &&& window_end(time, model) <= i64::MAX
}

/// The window of a query for `model` at `time` that looks `days_back` days
/// back: its start and its end, or `None` where they cannot be held.
pub fn archive_window(time: i64, days_back: i64, model: Model) -> (window: Option<(i64, i64)>)
    ensures
        window_fits(time, days_back, model) ==> window == Some(
            (window_start(time, days_back) as i64, window_end(time, model) as i64),
        ),
        !window_fits(time, days_back, model) ==> window is None,
{
    let back = match days_back.checked_mul(SECONDS_PER_DAY) {
        Some(back) => back,
        None => { return None; },
    };
    let start = match time.checked_sub(back) {
        Some(start) => start,
        None => { return None; },
    };
    let ahead: i64 = num_days(model) * SECONDS_PER_DAY;
    match time.checked_add(ahead) {
        Some(end) => Some((start, end)),
        None => None,
    }
}

/// What the parser finds at the head of a text.
pub enum Head {
    /// The text is not in the Bufkit format; this is the parser's message.
    Refused(String),
    /// The text holds no sounding.
    Empty,
    /// The valid time of the first sounding of the text, if it has one.
    Sounding(Option<i64>),
}

/// A text as a loader gets it: with what the parser finds at its head.
pub struct RawRun {
    pub head: Head,
    pub text: String,
}

/// The start time of the run that a text holds: the valid time of its first
/// sounding.
pub open spec fn init_of(head: Head) -> Result<i64, SourceError> {
    match head {
        Head::Refused(message) => Err(SourceError::Malformed(message)),
        Head::Empty => Err(SourceError::NotEnoughData),
        Head::Sounding(None) => Err(SourceError::NotEnoughData),
        Head::Sounding(Some(time)) => Ok(time),
    }
}

/// The start time of the run that a text holds. A text that is not in the
/// Bufkit format is `Malformed`; one that holds no sounding, or whose first
/// sounding has no valid time, has `NotEnoughData`.
pub fn init_time(head: Head) -> (time: Result<i64, SourceError>)
    ensures
        time == init_of(head),
{
    match head {
        Head::Refused(message) => Err(SourceError::Malformed(message)),
        Head::Empty => Err(SourceError::NotEnoughData),
        Head::Sounding(None) => Err(SourceError::NotEnoughData),
        Head::Sounding(Some(time)) => Ok(time),
    }
}

/// A text under the start time of its run, if it has one.
pub open spec fn label(run: RawRun) -> Option<(i64, String)> {
    match init_of(run.head) {
        Ok(time) => Some((time, run.text)),
        Err(_) => None,
    }
}

/// The texts that have a start time, each under it, in their order.
pub open spec fn labelled(runs: Seq<RawRun>) -> Seq<(i64, String)> {
    somes(Seq::new(runs.len(), |i: int| label(runs[i])))
}

/// No more runs are labelled than there are texts.
pub proof fn lemma_labelled_len(runs: Seq<RawRun>)
    ensures
        labelled(runs).len() <= runs.len(),
{
    lemma_somes_len(Seq::new(runs.len(), |i: int| label(runs[i])));
}

/// Put each text under the start time of its run and drop, without a word,
/// the texts that have none.
pub fn label_runs(texts: Vec<RawRun>) -> (runs: Vec<(i64, String)>)
    ensures
        runs@ == labelled(texts@),
{
    let mut runs: Vec<(i64, String)> = Vec::new();
    for raw in it: texts.into_iter()
        invariant
            it.seq() == texts@,
            runs@ == labelled(texts@.take(it.index() as int)),
    {
        let ghost before = texts@.take(it.index() as int);
        let ghost upto = texts@.take(it.index() + 1);
        proof {
            let tags = Seq::new(before.len(), |i: int| label(before[i]));
            let tags2 = Seq::new(upto.len(), |i: int| label(upto[i]));
            assert(tags2 =~= tags.push(label(raw)));
            crate::timeseries::lemma_somes_push(tags, label(raw));
        }
        let RawRun { head, text } = raw;
        match init_time(head) {
            Ok(time) => {
                runs.push((time, text));
            },
            Err(_) => {},
        }
    }
    proof {
        assert(texts@.take(texts@.len() as int) =~= texts@);
    }
    runs
}

/// The message that carries the runs of one site and model.
pub fn data_message(meta: MetaData, runs: Vec<(i64, String)>) -> (message: Message)
    ensures
        message@ == (Payload::Data { meta: meta@, runs: runs@ }),
{
    Message::from(InnerMessage::StringData(StringData { meta, data: runs }))
}

/// The message that carries a loader's failure.
pub fn failure_message(err: SourceError) -> (message: Message)
    ensures
        message@ == Payload::Failure(err),
{
    Message::from(InnerMessage::BufkitDataError(err))
}

impl FileData {
    /// The meta data of what the files hold. There is no time of reference
    /// beside the window: its start is taken for now.
    pub open spec fn meta_view(self) -> MetaView {
        MetaView {
            site: self.site,
            model: self.model@,
            start: self.start,
            now: self.start,
            end: self.end,
        }
    }
}

/// The loading of a list of files, under way: the files before the next one
/// have been read and each has given a run.
pub struct FileBatch {
    meta: MetaData,
    files: Vec<PathBuf>,
    runs: Vec<(i64, String)>,
}

/// Where the loading of a list of files stands: a file is to be read, or the
/// loader has its one message.
pub enum FileStep {
    /// Read the next file of the batch and hand its text, or the error, to
    /// `accept`.
    Read(FileBatch),
    /// The loader is done and this is what it emits.
    Done(Message),
}

/// What the loader does with the text of the next file, or with the error of
/// reading it, when it holds `meta` and `runs` and has `left` files to read,
/// the next one included: the first failure ends it with that failure and no
/// data, the last text ends it with all the runs.
pub open spec fn file_step(
    meta: MetaView,
    runs: Seq<(i64, String)>,
    left: int,
    contents: Result<RawRun, BufkitDataErr>,
    step: FileStep,
) -> bool {
    match contents {
        Err(err) => step matches FileStep::Done(message) && message@ == Payload::Failure(
            SourceError::Archive(err),
        ),
        Ok(raw) => match init_of(raw.head) {
            Err(err) => step matches FileStep::Done(message) && message@ == Payload::Failure(err),
            Ok(time) => if left == 1 {
                step matches FileStep::Done(message) && message@ == (Payload::Data {
                    meta,
                    runs: runs.push((time, raw.text)),
                })
            } else {
                step matches FileStep::Read(batch) && batch.meta_view() == meta && batch.runs()
                    == runs.push((time, raw.text)) && batch.left() == left - 1
            },
        },
    }
}

/// All or nothing: a loader that ends with data has a run for every file.
pub proof fn lemma_file_loader_all_or_nothing(
    before: FileBatch,
    contents: Result<RawRun, BufkitDataErr>,
    step: FileStep,
)
    requires
        before.left() > 0,
        before.runs().len() + before.left() == before.paths().len(),
        file_step(before.meta_view(), before.runs(), before.left(), contents, step),
    ensures
        step matches FileStep::Done(message) ==> (message@ matches Payload::Data { runs, .. }
            ==> runs.len() == before.paths().len()),
        step matches FileStep::Read(batch) ==> batch.runs().len() + batch.left()
            == before.paths().len(),
{
}

impl FileBatch {
    #[verifier::type_invariant]
    spec fn some_file_left(self) -> bool {
        self.runs.len() < self.files.len()
    }

    /// The meta data that the loader's message will have.
    pub closed spec fn meta_view(self) -> MetaView {
        self.meta@
    }

    /// The files of the batch.
    pub closed spec fn paths(self) -> Seq<PathBuf> {
        self.files@
    }

    /// The runs that the files read so far have given.
    pub closed spec fn runs(self) -> Seq<(i64, String)> {
        self.runs@
    }

    /// The number of files that are still to be read.
    pub closed spec fn left(self) -> int {
        self.files.len() - self.runs.len()
    }

    /// Begin to load the files. With no file on the list the loader is done
    /// at once, with a message that has no runs.
    pub fn start(file_data: FileData) -> (step: FileStep)
        ensures
            match step {
                FileStep::Read(batch) => file_data.files.len() > 0 && batch.meta_view()
                    == file_data.meta_view() && batch.paths() == file_data.files@
                    && batch.runs() == Seq::<(i64, String)>::empty() && batch.left()
                    == file_data.files.len(),
                FileStep::Done(message) => file_data.files.len() == 0 && message@ == (
                Payload::Data {
                    meta: file_data.meta_view(),
                    runs: Seq::<(i64, String)>::empty(),
                }),
            },
    {
        let FileData { site, model, start, end, files } = file_data;
        let meta = MetaData { site, model, start, now: start, end };
        let runs: Vec<(i64, String)> = Vec::new();
        if files.len() == 0 {
            FileStep::Done(data_message(meta, runs))
        } else {
            FileStep::Read(FileBatch { meta, files, runs })
        }
    }

    /// The file to read next.
    pub fn next_path(&self) -> (path: &PathBuf)
        ensures
            self.left() > 0,
            0 <= self.runs().len() < self.paths().len(),
            *path == self.paths()[self.runs().len() as int],
    {
        proof {
            use_type_invariant(self);
        }
        &self.files[self.runs.len()]
    }

    /// Take the text of the next file with what the parser found at its head,
    /// or the error of reading it.
    pub fn accept(self, contents: Result<RawRun, BufkitDataErr>) -> (step: FileStep)
        ensures
            self.left() > 0,
            file_step(self.meta_view(), self.runs(), self.left(), contents, step),
            step matches FileStep::Read(batch) ==> batch.paths() == self.paths(),
            self.runs().len() + self.left() == self.paths().len(),
    {
        proof {
            use_type_invariant(&self);
        }
        let FileBatch { meta, files, mut runs } = self;
        match contents {
            Err(err) => FileStep::Done(failure_message(SourceError::Archive(err))),
            Ok(raw) => match init_time(raw.head) {
                Err(err) => FileStep::Done(failure_message(err)),
                Ok(time) => {
                    runs.push((time, raw.text));
                    if runs.len() == files.len() {
                        FileStep::Done(data_message(meta, runs))
                    } else {
                        FileStep::Read(FileBatch { meta, files, runs })
                    }
                },
            },
        }
    }
}

/// What the archive answers to a loader.
pub enum ArchiveReply {
    /// The archive is open.
    Connected,
    /// The site that was asked for, if the archive knows it.
    Site(Option<SiteInfo>),
    /// The sites that have data of the model that was asked for.
    Sites(Vec<SiteInfo>),
    /// The texts of the runs with data in the window, in order of ascending
    /// start time, each with what the parser found at its head.
    Texts(Vec<RawRun>),
    /// The archive failed.
    Failed(BufkitDataErr),
}

/// What to load for one site and model: the runs with data valid between
/// `start` and `end`, where `time` is taken for now.
pub struct RangeQuery {
    pub site: String,
    pub model: Model,
    pub time: i64,
    pub start: i64,
    pub end: i64,
}

/// The loader of one site and model from the archive: what it waits for, or
/// the one message that it emits.
pub enum RangeLoader {
    /// Open the archive.
    Connecting(RangeQuery),
    /// Look the site up by its name and the model.
    FindingSite(RangeQuery),
    /// Retrieve the texts of the runs of the site with data in the window.
    Retrieving(RangeQuery, SiteInfo),
    /// The loader is done and this is what it emits.
    Done(Message),
}

/// A `RangeLoader` with its message as a `Payload`.
pub enum RangeState {
    Connecting(RangeQuery),
    FindingSite(RangeQuery),
    Retrieving(RangeQuery, SiteInfo),
    Done(Payload),
}

impl View for RangeLoader {
    type V = RangeState;

    open spec fn view(&self) -> RangeState {
        match *self {
            RangeLoader::Connecting(query) => RangeState::Connecting(query),
            RangeLoader::FindingSite(query) => RangeState::FindingSite(query),
            RangeLoader::Retrieving(query, site) => RangeState::Retrieving(query, site),
            RangeLoader::Done(message) => RangeState::Done(message@),
        }
    }
}

/// The meta data of the message of a query that found `site`.
pub open spec fn range_meta(query: RangeQuery, site: SiteInfo) -> MetaView {
    MetaView {
        site,
        model: model_label(query.model),
        start: query.start,
        now: query.time,
        end: query.end,
    }
}

/// What a loader of one site and model makes of an answer of the archive.
/// Each failure ends it with that failure; a site that the archive does not
/// know ends it with `NotInIndex`; the texts end it with the runs that have a
/// start time, and with no text at all the message has no runs. An answer to
/// what the loader did not ask leaves it as it is.
pub open spec fn range_step(state: RangeState, reply: ArchiveReply) -> RangeState {
    match (state, reply) {
        (RangeState::Connecting(query), ArchiveReply::Connected) => RangeState::FindingSite(query),
        (RangeState::FindingSite(query), ArchiveReply::Site(Some(site))) => RangeState::Retrieving(
            query,
            site,
        ),
        (RangeState::FindingSite(_), ArchiveReply::Site(None)) => RangeState::Done(
            Payload::Failure(SourceError::NotInIndex),
        ),
        (RangeState::Retrieving(query, site), ArchiveReply::Texts(texts)) => RangeState::Done(
            Payload::Data { meta: range_meta(query, site), runs: labelled(texts@) },
        ),
        (RangeState::Connecting(_), ArchiveReply::Failed(err)) => RangeState::Done(
            Payload::Failure(SourceError::Archive(err)),
        ),
        (RangeState::FindingSite(_), ArchiveReply::Failed(err)) => RangeState::Done(
            Payload::Failure(SourceError::Archive(err)),
        ),
        (RangeState::Retrieving(_, _), ArchiveReply::Failed(err)) => RangeState::Done(
            Payload::Failure(SourceError::Archive(err)),
        ),
        _ => state,
    }
}

/// A loader that is done stays done, with the message that it has: it emits
/// one message and no more.
pub proof fn lemma_range_done_is_final(state: RangeState, reply: ArchiveReply)
    requires
        state is Done,
    ensures
        range_step(state, reply) == state,
{
}

/// The texts that the archive retrieves always make a message with data,
/// also where there are none: a window without runs is no failure.
pub proof fn lemma_range_texts_are_data(query: RangeQuery, site: SiteInfo, texts: Vec<RawRun>)
    ensures
        range_step(RangeState::Retrieving(query, site), ArchiveReply::Texts(texts)) matches RangeState::Done(
            Payload::Data { meta, runs },
        ) && meta == range_meta(query, site) && runs.len() <= texts.len(),
{
    lemma_labelled_len(texts@);
}

impl RangeLoader {
    /// The loader for `site` and `model` with `time` taken for now, looking
    /// `days_back` days back and as far ahead as the model offers. `None`
    /// where the window cannot be held.
    pub fn start(site: &str, model: Model, time: i64, days_back: i64) -> (loader: Option<
        RangeLoader,
    >)
        ensures
            loader is Some <==> window_fits(time, days_back, model),
            loader matches Some(begun) ==> (begun matches RangeLoader::Connecting(query)
                && query.site@ == site@ && query.model == model && query.time == time
                && query.start == window_start(time, days_back) && query.end == window_end(
                time,
                model,
            )),
    {
        match archive_window(time, days_back, model) {
            Some((start, end)) => Some(
                RangeLoader::Connecting(
                    RangeQuery { site: site.to_owned(), model, time, start, end },
                ),
            ),
            None => None,
        }
    }

    /// Take an answer of the archive.
    pub fn step(self, reply: ArchiveReply) -> (next: RangeLoader)
        ensures
            next@ == range_step(self@, reply),
    {
        match self {
            RangeLoader::Connecting(query) => match reply {
                ArchiveReply::Connected => RangeLoader::FindingSite(query),
                ArchiveReply::Failed(err) => RangeLoader::Done(
                    failure_message(SourceError::Archive(err)),
                ),
                _ => RangeLoader::Connecting(query),
            },
            RangeLoader::FindingSite(query) => match reply {
                ArchiveReply::Site(Some(site)) => RangeLoader::Retrieving(query, site),
                ArchiveReply::Site(None) => RangeLoader::Done(
                    failure_message(SourceError::NotInIndex),
                ),
                ArchiveReply::Failed(err) => RangeLoader::Done(
                    failure_message(SourceError::Archive(err)),
                ),
                _ => RangeLoader::FindingSite(query),
            },
            RangeLoader::Retrieving(query, site) => match reply {
                ArchiveReply::Texts(texts) => {
                    let meta = MetaData {
                        site,
                        model: model_name(query.model),
                        start: query.start,
                        now: query.time,
                        end: query.end,
                    };
                    RangeLoader::Done(data_message(meta, label_runs(texts)))
                },
                ArchiveReply::Failed(err) => RangeLoader::Done(
                    failure_message(SourceError::Archive(err)),
                ),
                _ => RangeLoader::Retrieving(query, site),
            },
            RangeLoader::Done(message) => RangeLoader::Done(message),
        }
    }
}

/// The times that all the queries of a sweep share.
#[derive(Clone, Copy, Debug, PartialEq, Eq, Structural)]
pub struct Sweep {
    pub now: i64,
    pub start: i64,
}

/// A model with the end of the window of its queries.
#[derive(Clone, Copy, Debug, PartialEq, Eq, Structural)]
pub struct Target {
    pub model: Model,
    pub end: i64,
}

/// The loader of all sites and models: what it waits for. It asks model by
/// model for the sites, and site by site for the texts.
pub enum FanOut {
    /// Open the archive.
    Connecting { sweep: Sweep, targets: Vec<Target> },
    /// List the sites that have data of the model of `target`.
    Listing { sweep: Sweep, target: Target, later: Vec<Target> },
    /// Retrieve the texts of the runs of `site` and the model of `target`
    /// with data in the window.
    Retrieving { sweep: Sweep, target: Target, later: Vec<Target>, site: SiteInfo, sites: Vec<SiteInfo> },
    /// Nothing is left to do.
    Finished,
}

/// A `FanOut` with its lists as sequences.
pub enum FanOutState {
    Connecting { sweep: Sweep, targets: Seq<Target> },
    Listing { sweep: Sweep, target: Target, later: Seq<Target> },
    Retrieving { sweep: Sweep, target: Target, later: Seq<Target>, site: SiteInfo, sites: Seq<SiteInfo> },
    Finished,
}

impl View for FanOut {
    type V = FanOutState;

    open spec fn view(&self) -> FanOutState {
        match *self {
            FanOut::Connecting { sweep, targets } => FanOutState::Connecting {
                sweep,
                targets: targets@,
            },
            FanOut::Listing { sweep, target, later } => FanOutState::Listing {
                sweep,
                target,
                later: later@,
            },
            FanOut::Retrieving { sweep, target, later, site, sites } => FanOutState::Retrieving {
                sweep,
                target,
                later: later@,
                site,
                sites: sites@,
            },
            FanOut::Finished => FanOutState::Finished,
        }
    }
}

/// The models of the archive, in the order in which a sweep takes them.
pub open spec fn models_in_order() -> Seq<Model> {
    seq![Model::GFS, Model::NAM, Model::NAM4KM]
}

/// Each model with the end of its window.
pub open spec fn targets_for(now: i64, models: Seq<Model>) -> Seq<Target> {
    Seq::new(
        models.len(),
        |i: int| Target { model: models[i], end: window_end(now, models[i]) as i64 },
    )
}

/// The sweep goes on to the first of the models that are left, or ends.
pub open spec fn next_listing(sweep: Sweep, later: Seq<Target>) -> FanOutState {
    if later.len() > 0 {
        FanOutState::Listing { sweep, target: later[0], later: later.remove(0) }
    } else {
        FanOutState::Finished
    }
}

/// The sweep goes on to the first of the sites that are left, or to the next
/// model.
pub open spec fn next_site(
    sweep: Sweep,
    target: Target,
    later: Seq<Target>,
    sites: Seq<SiteInfo>,
) -> FanOutState {
    if sites.len() > 0 {
        FanOutState::Retrieving { sweep, target, later, site: sites[0], sites: sites.remove(0) }
    } else {
        next_listing(sweep, later)
    }
}

/// The meta data of the message for one site and model of a sweep.
pub open spec fn sweep_meta(sweep: Sweep, target: Target, site: SiteInfo) -> MetaView {
    MetaView {
        site,
        model: model_label(target.model),
        start: sweep.start,
        now: sweep.now,
        end: target.end,
    }
}

/// What a sweep makes of an answer of the archive: where it stands then, and
/// what it emits. A failure to open the archive or to list the sites of a
/// model ends the sweep with that failure. Each site and model gives one
/// message, its runs or the failure to retrieve them, and the sweep goes on
/// either way. An answer to what the sweep did not ask leaves it as it is.
pub open spec fn fan_out_step(state: FanOutState, reply: ArchiveReply) -> (
    FanOutState,
    Option<Payload>,
) {
    match (state, reply) {
        (FanOutState::Connecting { sweep, targets }, ArchiveReply::Connected) => (
            next_listing(sweep, targets),
            None,
        ),
        (FanOutState::Connecting { .. }, ArchiveReply::Failed(err)) => (
            FanOutState::Finished,
            Some(Payload::Failure(SourceError::Archive(err))),
        ),
        (FanOutState::Listing { sweep, target, later }, ArchiveReply::Sites(sites)) => (
            next_site(sweep, target, later, sites@),
            None,
        ),
        (FanOutState::Listing { .. }, ArchiveReply::Failed(err)) => (
            FanOutState::Finished,
            Some(Payload::Failure(SourceError::Archive(err))),
        ),
        (
            FanOutState::Retrieving { sweep, target, later, site, sites },
            ArchiveReply::Texts(texts),
        ) => (
            next_site(sweep, target, later, sites),
            Some(Payload::Data { meta: sweep_meta(sweep, target, site), runs: labelled(texts@) }),
        ),
        (
            FanOutState::Retrieving { sweep, target, later, site, sites },
            ArchiveReply::Failed(err),
        ) => (
            next_site(sweep, target, later, sites),
            Some(Payload::Failure(SourceError::Archive(err))),
        ),
        _ => (state, None),
    }
}

/// The failure to retrieve the runs of one site and model does not hold the
/// sweep up: it goes on as it does after the runs were retrieved, and in both
/// cases it emits one message for that site and model.
pub proof fn lemma_fan_out_goes_on(state: FanOutState, err: BufkitDataErr, texts: Vec<RawRun>)
    requires
        state is Retrieving,
    ensures
        fan_out_step(state, ArchiveReply::Failed(err)).0 == fan_out_step(
            state,
            ArchiveReply::Texts(texts),
        ).0,
        fan_out_step(state, ArchiveReply::Failed(err)).1 == Some(
            Payload::Failure(SourceError::Archive(err)),
        ),
        fan_out_step(state, ArchiveReply::Texts(texts)).1 matches Some(Payload::Data { .. }),
{
}

/// A sweep that has ended stays ended and emits nothing more.
pub proof fn lemma_fan_out_finished_is_final(reply: ArchiveReply)
    ensures
        fan_out_step(FanOutState::Finished, reply) == (FanOutState::Finished, None::<Payload>),
{
}

/// Where a sweep stands after a row of answers, and what it has emitted over
/// them.
pub open spec fn fan_out_run(state: FanOutState, replies: Seq<ArchiveReply>) -> (
    FanOutState,
    Seq<Payload>,
)
    decreases replies.len(),
{
    if replies.len() == 0 {
        (state, Seq::empty())
    } else {
        let before = fan_out_run(state, replies.drop_last());
        let last = fan_out_step(before.0, replies.last());
        (
            last.0,
            match last.1 {
                Some(payload) => before.1.push(payload),
                None => before.1,
            },
        )
    }
}

/// The site that a sweep retrieves after `done` of the sites of a model.
pub open spec fn site_in_turn(site: SiteInfo, sites: Seq<SiteInfo>, done: int) -> SiteInfo {
    if done == 0 {
        site
    } else {
        sites[done - 1]
    }
}

/// What a sweep emits for one site and model on an answer to the retrieval:
/// the runs of that site and model, or the failure to retrieve them.
pub open spec fn pair_payload(sweep: Sweep, target: Target, site: SiteInfo, reply: ArchiveReply) -> Payload {
    match reply {
        ArchiveReply::Texts(texts) => Payload::Data {
            meta: sweep_meta(sweep, target, site),
            runs: labelled(texts@),
        },
        ArchiveReply::Failed(err) => Payload::Failure(SourceError::Archive(err)),
        _ => arbitrary(),
    }
}

/// While sites of a model are left, each answer to a retrieval, the runs or a
/// failure, makes the sweep emit the message of that site and go on to the
/// next site.
proof fn lemma_fan_out_through_sites(
    sweep: Sweep,
    target: Target,
    later: Seq<Target>,
    site: SiteInfo,
    sites: Seq<SiteInfo>,
    replies: Seq<ArchiveReply>,
    done: int,
)
    requires
        0 <= done <= sites.len(),
        done <= replies.len(),
        forall|i: int|
            0 <= i < replies.len() ==> (#[trigger] replies[i]) is Texts || replies[i] is Failed,
    ensures
        fan_out_run(
            FanOutState::Retrieving { sweep, target, later, site, sites },
            replies.take(done),
        ).0 == (FanOutState::Retrieving {
            sweep,
            target,
            later,
            site: site_in_turn(site, sites, done),
            sites: sites.skip(done),
        }),
        fan_out_run(
            FanOutState::Retrieving { sweep, target, later, site, sites },
            replies.take(done),
        ).1 == Seq::new(
            done as nat,
            |i: int| pair_payload(sweep, target, site_in_turn(site, sites, i), replies[i]),
        ),
    decreases done,
{
    let start = FanOutState::Retrieving { sweep, target, later, site, sites };
    if done == 0 {
        assert(sites.skip(0) =~= sites);
        assert(fan_out_run(start, replies.take(0)).1 =~= Seq::new(
            0nat,
            |i: int| pair_payload(sweep, target, site_in_turn(site, sites, i), replies[i]),
        ));
    } else {
        lemma_fan_out_through_sites(sweep, target, later, site, sites, replies, done - 1);
        assert(replies.take(done).drop_last() =~= replies.take(done - 1));
        assert(replies.take(done).last() == replies[done - 1]);
        let left = sites.skip(done - 1);
        assert(left.len() > 0);
        assert(left[0] == sites[done - 1]);
        assert(left.remove(0) =~= sites.skip(done));
        assert(fan_out_run(start, replies.take(done)).1 =~= Seq::new(
            done as nat,
            |i: int| pair_payload(sweep, target, site_in_turn(site, sites, i), replies[i]),
        ));
    }
}

/// A sweep emits one message for every site of a model, in the order of the
/// sites: the runs of the site where they were retrieved and the failure
/// where they were not. No failure keeps the message of another site back.
/// Then the sweep goes on to the next model.
pub proof fn lemma_fan_out_one_message_per_site(
    sweep: Sweep,
    target: Target,
    later: Seq<Target>,
    site: SiteInfo,
    sites: Seq<SiteInfo>,
    replies: Seq<ArchiveReply>,
)
    requires
        replies.len() == sites.len() + 1,
        forall|i: int|
            0 <= i < replies.len() ==> (#[trigger] replies[i]) is Texts || replies[i] is Failed,
    ensures
        fan_out_run(FanOutState::Retrieving { sweep, target, later, site, sites }, replies).0
            == next_listing(sweep, later),
        fan_out_run(FanOutState::Retrieving { sweep, target, later, site, sites }, replies).1
            == Seq::new(
            replies.len(),
            |i: int| pair_payload(sweep, target, site_in_turn(site, sites, i), replies[i]),
        ),
{
    let done = sites.len() as int;
    let start = FanOutState::Retrieving { sweep, target, later, site, sites };
    lemma_fan_out_through_sites(sweep, target, later, site, sites, replies, done);
    assert(replies.drop_last() =~= replies.take(done));
    assert(replies.last() == replies[done]);
    assert(sites.skip(done) =~= Seq::<SiteInfo>::empty());
    assert(fan_out_run(start, replies).1 =~= Seq::new(
        replies.len(),
        |i: int| pair_payload(sweep, target, site_in_turn(site, sites, i), replies[i]),
    ));
}

/// A row of answers in two parts takes the sweep where the second part takes
/// it from where the first part left it, and the sweep emits over the row what
/// it emits over the parts.
pub proof fn lemma_fan_out_run_in_parts(
    state: FanOutState,
    first: Seq<ArchiveReply>,
    second: Seq<ArchiveReply>,
)
    ensures
        fan_out_run(state, first + second).0 == fan_out_run(
            fan_out_run(state, first).0,
            second,
        ).0,
        fan_out_run(state, first + second).1 == fan_out_run(state, first).1 + fan_out_run(
            fan_out_run(state, first).0,
            second,
        ).1,
    decreases second.len(),
{
    let mid = fan_out_run(state, first);
    if second.len() == 0 {
        assert(first + second =~= first);
        assert(mid.1 + fan_out_run(mid.0, second).1 =~= mid.1);
    } else {
        lemma_fan_out_run_in_parts(state, first, second.drop_last());
        assert((first + second).drop_last() =~= first + second.drop_last());
        assert((first + second).last() == second.last());
        let before = fan_out_run(mid.0, second.drop_last());
        let last = fan_out_step(before.0, second.last());
        match last.1 {
            Some(payload) => {
                assert((mid.1 + before.1).push(payload) =~= mid.1 + before.1.push(payload));
            },
            None => {},
        }
    }
}

/// Over one answer a sweep makes its one step.
proof fn lemma_fan_out_run_one(state: FanOutState, reply: ArchiveReply)
    ensures
        fan_out_run(state, seq![reply]).0 == fan_out_step(state, reply).0,
        fan_out_run(state, seq![reply]).1 == match fan_out_step(state, reply).1 {
            Some(payload) => seq![payload],
            None => Seq::<Payload>::empty(),
        },
{
    reveal_with_fuel(fan_out_run, 2);
    let one = seq![reply];
    assert(one.drop_last() =~= Seq::<ArchiveReply>::empty());
    assert(one.last() == reply);
    assert(fan_out_run(state, one.drop_last()) == (state, Seq::<Payload>::empty()));
    match fan_out_step(state, reply).1 {
        Some(payload) => {
            assert(Seq::<Payload>::empty().push(payload) =~= seq![payload]);
        },
        None => {},
    }
}

/// What the archive answers for one model of a sweep: the sites that have
/// data of the model, and then one answer to the retrieval for each site.
pub struct ModelRound {
    pub sites: Vec<SiteInfo>,
    pub retrievals: Seq<ArchiveReply>,
}

/// The answers of one model are in order: there is one answer for each site,
/// and each is the runs or a failure.
pub open spec fn round_in_order(round: ModelRound) -> bool {
    &&& round.retrievals.len() == round.sites.len()
    &&& forall|i: int|
        0 <= i < round.retrievals.len() ==> (#[trigger] round.retrievals[i]) is Texts
            || round.retrievals[i] is Failed
}

/// The answers of the models of a sweep, one model after the other.
pub open spec fn sweep_replies(rounds: Seq<ModelRound>) -> Seq<ArchiveReply>
    decreases rounds.len(),
{
    if rounds.len() == 0 {
        Seq::empty()
    } else {
        seq![ArchiveReply::Sites(rounds[0].sites)] + rounds[0].retrievals + sweep_replies(
            rounds.skip(1),
        )
    }
}

/// The number of pairs of a site and a model in a sweep.
pub open spec fn pairs_in(rounds: Seq<ModelRound>) -> int
    decreases rounds.len(),
{
    if rounds.len() == 0 {
        0
    } else {
        rounds[0].sites.len() + pairs_in(rounds.skip(1))
    }
}

/// The messages of one model of a sweep: for each site, in the order of the
/// listing, its runs or the failure to retrieve them.
pub open spec fn round_payloads(sweep: Sweep, target: Target, round: ModelRound) -> Seq<Payload> {
    Seq::new(
        round.sites@.len(),
        |i: int| pair_payload(sweep, target, round.sites@[i], round.retrievals[i]),
    )
}

/// The messages of a sweep: those of its models, one model after the other.
pub open spec fn sweep_payloads(sweep: Sweep, targets: Seq<Target>, rounds: Seq<ModelRound>) -> Seq<
    Payload,
>
    decreases rounds.len(),
{
    if rounds.len() == 0 || targets.len() == 0 {
        Seq::empty()
    } else {
        round_payloads(sweep, targets[0], rounds[0]) + sweep_payloads(
            sweep,
            targets.remove(0),
            rounds.skip(1),
        )
    }
}

/// A sweep has as many messages as it has pairs of a site and a model.
pub proof fn lemma_sweep_payloads_len(sweep: Sweep, targets: Seq<Target>, rounds: Seq<ModelRound>)
    requires
        rounds.len() == targets.len(),
    ensures
        sweep_payloads(sweep, targets, rounds).len() == pairs_in(rounds),
    decreases rounds.len(),
{
    if rounds.len() > 0 {
        lemma_sweep_payloads_len(sweep, targets.remove(0), rounds.skip(1));
    }
}

/// From the listing of a model on, a sweep whose listings all succeed emits
/// the message of each pair of a site and a model, and then it has ended.
proof fn lemma_fan_out_models(sweep: Sweep, targets: Seq<Target>, rounds: Seq<ModelRound>)
    requires
        rounds.len() == targets.len(),
        forall|m: int| 0 <= m < rounds.len() ==> round_in_order(#[trigger] rounds[m]),
    ensures
        fan_out_run(next_listing(sweep, targets), sweep_replies(rounds)).0 == FanOutState::Finished,
        fan_out_run(next_listing(sweep, targets), sweep_replies(rounds)).1 == sweep_payloads(
            sweep,
            targets,
            rounds,
        ),
    decreases targets.len(),
{
    if targets.len() > 0 {
        let target = targets[0];
        let later = targets.remove(0);
        let round = rounds[0];
        let rest = rounds.skip(1);
        let start = next_listing(sweep, targets);
        let listing = seq![ArchiveReply::Sites(round.sites)];
        assert(round_in_order(round));
        assert forall|m: int| 0 <= m < rest.len() implies round_in_order(#[trigger] rest[m]) by {
            assert(rest[m] == rounds[m + 1]);
        }
        lemma_fan_out_models(sweep, later, rest);
        // The listing.
        lemma_fan_out_run_one(start, ArchiveReply::Sites(round.sites));
        let listed = fan_out_run(start, listing);
        assert(listed.0 == next_site(sweep, target, later, round.sites@));
        assert(listed.1 =~= Seq::<Payload>::empty());
        // The retrievals.
        let retrieved = fan_out_run(listed.0, round.retrievals);
        if round.sites@.len() > 0 {
            lemma_fan_out_one_message_per_site(
                sweep,
                target,
                later,
                round.sites@[0],
                round.sites@.remove(0),
                round.retrievals,
            );
        }
        assert(retrieved.0 == next_listing(sweep, later));
        assert(retrieved.1 =~= round_payloads(sweep, target, round));
        lemma_fan_out_run_in_parts(start, listing, round.retrievals);
        lemma_fan_out_run_in_parts(start, listing + round.retrievals, sweep_replies(rest));
        assert(listed.1 + retrieved.1 =~= retrieved.1);
    }
}

/// A sweep that can open the archive and list the sites of every model emits
/// exactly one message for each pair of a site and a model, in the order of
/// the models and of their sites: the runs of the pair where they were
/// retrieved, the failure of the pair where they were not. No failure keeps
/// the message of another pair back. Then the sweep has ended.
pub proof fn lemma_fan_out_one_message_per_pair(
    sweep: Sweep,
    targets: Seq<Target>,
    rounds: Seq<ModelRound>,
)
    requires
        rounds.len() == targets.len(),
        forall|m: int| 0 <= m < rounds.len() ==> round_in_order(#[trigger] rounds[m]),
    ensures
        fan_out_run(
            FanOutState::Connecting { sweep, targets },
            seq![ArchiveReply::Connected] + sweep_replies(rounds),
        ).0 == FanOutState::Finished,
        fan_out_run(
            FanOutState::Connecting { sweep, targets },
            seq![ArchiveReply::Connected] + sweep_replies(rounds),
        ).1 == sweep_payloads(sweep, targets, rounds),
        sweep_payloads(sweep, targets, rounds).len() == pairs_in(rounds),
{
    let start = FanOutState::Connecting { sweep, targets };
    let opening = seq![ArchiveReply::Connected];
    lemma_fan_out_run_one(start, ArchiveReply::Connected);
    let opened = fan_out_run(start, opening);
    assert(opened.0 == next_listing(sweep, targets));
    assert(opened.1 =~= Seq::<Payload>::empty());
    lemma_fan_out_models(sweep, targets, rounds);
    lemma_fan_out_run_in_parts(start, opening, sweep_replies(rounds));
    lemma_sweep_payloads_len(sweep, targets, rounds);
    assert(opened.1 + sweep_payloads(sweep, targets, rounds) =~= sweep_payloads(
        sweep,
        targets,
        rounds,
    ));
}

/// What a message says, if there is one.
pub open spec fn emitted(message: Option<Message>) -> Option<Payload> {
    match message {
        Some(m) => Some(m@),
        None => None,
    }
}

/// Go on to the first of the models that are left, or end.
fn begin_listing(sweep: Sweep, later: Vec<Target>) -> (next: FanOut)
    ensures
        next@ == next_listing(sweep, later@),
{
    let mut later = later;
    if later.len() > 0 {
        let target = later.remove(0);
        FanOut::Listing { sweep, target, later }
    } else {
        FanOut::Finished
    }
}

/// Go on to the first of the sites that are left, or to the next model.
fn begin_retrieving(sweep: Sweep, target: Target, later: Vec<Target>, sites: Vec<SiteInfo>) -> (next:
    FanOut)
    ensures
        next@ == next_site(sweep, target, later@, sites@),
{
    let mut sites = sites;
    if sites.len() > 0 {
        let site = sites.remove(0);
        FanOut::Retrieving { sweep, target, later, site, sites }
    } else {
        begin_listing(sweep, later)
    }
}

impl FanOut {
    /// The loader for all sites and models with `now` for the time of
    /// reference, looking `days_back` days back and, for each model, as far
    /// ahead as it offers. `None` where the window of a model cannot be held.
    pub fn start(now: i64, days_back: i64) -> (loader: Option<FanOut>)
        ensures
            loader is Some <==> (forall|i: int|
                0 <= i < models_in_order().len() ==> window_fits(
                    now,
                    days_back,
                    #[trigger] models_in_order()[i],
                )),
            loader matches Some(begun) ==> begun@ == (FanOutState::Connecting {
                sweep: Sweep { now, start: window_start(now, days_back) as i64 },
                targets: targets_for(now, models_in_order()),
            }),
    {
        let models = all_models();
        let mut targets: Vec<Target> = Vec::new();
        let mut start: i64 = now;
        let mut i: usize = 0;
        while i < models.len()
            invariant
                i <= models.len(),
                models@ == models_in_order(),
                targets@ == targets_for(now, models@.take(i as int)),
                forall|j: int| 0 <= j < i ==> window_fits(now, days_back, #[trigger] models@[j]),
                i > 0 ==> start == window_start(now, days_back),
            decreases models.len() - i,
        {
            match archive_window(now, days_back, models[i]) {
                Some((from, end)) => {
                    start = from;
                    targets.push(Target { model: models[i], end });
                    proof {
                        assert(targets@ =~= targets_for(now, models@.take(i + 1)));
                    }
                },
                None => {
                    return None;
                },
            }
            i += 1;
        }
        proof {
            assert(models@.take(i as int) =~= models@);
        }
        Some(FanOut::Connecting { sweep: Sweep { now, start }, targets })
    }

    /// Take an answer of the archive: where the sweep stands then, and the
    /// message to emit, if any.
    pub fn step(self, reply: ArchiveReply) -> (next: (FanOut, Option<Message>))
        ensures
            next.0@ == fan_out_step(self@, reply).0,
            emitted(next.1) == fan_out_step(self@, reply).1,
    {
        match self {
            FanOut::Connecting { sweep, targets } => match reply {
                ArchiveReply::Connected => (begin_listing(sweep, targets), None),
                ArchiveReply::Failed(err) => (
                    FanOut::Finished,
                    Some(failure_message(SourceError::Archive(err))),
                ),
                _ => (FanOut::Connecting { sweep, targets }, None),
            },
            FanOut::Listing { sweep, target, later } => match reply {
                ArchiveReply::Sites(sites) => (begin_retrieving(sweep, target, later, sites), None),
                ArchiveReply::Failed(err) => (
                    FanOut::Finished,
                    Some(failure_message(SourceError::Archive(err))),
                ),
                _ => (FanOut::Listing { sweep, target, later }, None),
            },
            FanOut::Retrieving { sweep, target, later, site, sites } => match reply {
                ArchiveReply::Texts(texts) => {
                    let meta = MetaData {
                        site,
                        model: model_name(target.model),
                        start: sweep.start,
                        now: sweep.now,
                        end: target.end,
                    };
                    let message = data_message(meta, label_runs(texts));
                    (begin_retrieving(sweep, target, later, sites), Some(message))
                },
                ArchiveReply::Failed(err) => (
                    begin_retrieving(sweep, target, later, sites),
                    Some(failure_message(SourceError::Archive(err))),
                ),
                _ => (FanOut::Retrieving { sweep, target, later, site, sites }, None),
            },
            FanOut::Finished => (FanOut::Finished, None),
        }
    }
}

} // verus!
