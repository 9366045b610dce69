//! Uploading a file, in parts and under a hidden name.
//!
//! An upload says what is to be done next, is told what came of it, and goes
//! on from there. The file becomes visible under its own name only at the very
//! end, once every byte of it is stored.

use super::args::Exit;
use super::encoding::encode_name;
use super::http::{is_success, Endpoint, NodeOperation};
use crate::ident::{fresh_uuid, write_uuid, Uuid};
use crate::text::joined;
use vstd::prelude::*;

verus! {

/// The part size of a server that does not tell.
pub const DEFAULT_PART_SIZE: u64 = 8388608;

/// How often a part is sent before the upload gives up.
pub const ATTEMPTS: u64 = 3;

/// How much of a partial upload can be kept: all of it, unless there is more
/// than the source has.
pub fn checked_resume_offset(remote_size: u64, local_size: u64) -> (r: Result<u64, ()>)
    ensures
        r == if remote_size > local_size {
            Err::<u64, ()>(())
        } else {
            Ok(remote_size)
        },
{
    if remote_size > local_size {
        Err(())
    } else {
        Ok(remote_size)
    }
}

/// How much there is to read at `offset` of `total` bytes into a buffer.
pub open spec fn read_len(total: u64, offset: u64, capacity: usize) -> int {
    if offset >= total {
        0
    } else if total - offset <= capacity {
        total - offset
    } else {
        capacity as int
    }
}

/// How much to read at `offset` of `total` bytes into a buffer: never more
/// than is left, nor more than fits.
pub fn next_read_len(total: u64, offset: u64, capacity: usize) -> (r: usize)
    ensures
        r == read_len(total, offset, capacity),
{
    if offset >= total {
        0
    } else {
        let left: u64 = total - offset;
        if left <= capacity as u64 {
            left as usize
        } else {
            capacity
        }
    }
}

/// The name of a file while it is being uploaded.
pub open spec fn hidden(name: Seq<char>) -> Seq<char> {
    "."@ + name + ".dcfs-uploading"@
}

/// The name of a file while it is being uploaded.
pub fn hidden_name(name: &str) -> (r: String)
    ensures
        r@ == hidden(name@),
{
    let mut r = joined(".", name);
    r.append(".dcfs-uploading");
    r
}

/// The name to store a file under: the one that was asked for, the file's own,
/// or a stand-in.
pub fn stored_name(asked_for: Option<String>, file_name: Option<String>) -> (r: String)
    ensures
        r@ == match asked_for {
            Some(name) => name@,
            None => match file_name {
                Some(name) => name@,
                None => "upload.bin"@,
            },
        },
{
    match asked_for {
        Some(name) => name,
        None => match file_name {
            Some(name) => name,
            None => "upload.bin".to_owned(),
        },
    }
}

/// The name can be sent, both as it is and hidden.
pub open spec fn can_be_sent(name: Seq<char>) -> bool {
    crate::cli::encoding::encodable(name) && crate::cli::encoding::encodable(hidden(name))
}

/// Whether a name can be sent, both as it is and hidden.
pub fn name_can_be_sent(name: &str) -> (r: bool)
    ensures
        r == can_be_sent(name@),
{
    super::encoding::is_encodable(name) && super::encoding::is_encodable(
        hidden_name(name).as_str(),
    )
}

/// Why an upload ended without publishing the file.
#[derive(PartialEq, Eq, Structural, Clone, Copy, Debug)]
pub enum Failure {
    /// The server did not answer.
    Unreachable,
    PartSizeUnreadable,
    /// The final name is taken, by something that cannot be read.
    FinalUnreadable,
    /// The final name is taken, by a file of this size.
    FinalExists { size: u64 },
    /// There is a partial upload that cannot be read.
    PartialUnreadable,
    /// There is a partial upload of this size, and it was not to be resumed.
    PartialExists { size: u64 },
    /// There is a partial upload that is larger than the source.
    PartialTooLarge { remote_size: u64 },
    RootUnreadable,
    CreatedUnreadable,
    CreateRefused { status: u16 },
    CreateFailed,
    CannotOpen,
    CannotSeek,
    ReadFailed { offset: u64 },
    /// The source has become shorter than it was.
    SourceEnded { offset: u64 },
    /// A part was refused too often.
    GaveUp { offset: u64 },
    CannotMeasure,
    /// The source has another size than it had.
    SizeChanged { current: u64 },
    SyncRefused { status: u16 },
    SyncFailed,
    PublishRefused { status: u16 },
    PublishFailed,
}

/// How far an upload is.
#[derive(PartialEq, Eq, Structural, Clone, Copy, Debug)]
pub enum Stage {
    /// Ask the server for its part size.
    AskPartSize,
    /// Look whether the final name is taken.
    CheckFinal,
    /// Look for a partial upload.
    FindPartial,
    /// Ask for the root directory.
    AskRoot,
    /// Make the hidden file.
    Create,
    /// Open the source at the offset.
    Open,
    /// Read a part.
    Read,
    /// Send a part.
    Send,
    /// Wait before a part is sent again.
    Wait,
    /// Measure the source once more.
    Measure,
    /// Make the upload durable.
    Sync,
    /// Give the file its final name.
    Publish,
    /// The file is published.
    Done,
    /// The upload failed.
    Failed { why: Failure },
}

/// What is read of the server's JSON. A field of another type counts as
/// missing.
#[derive(PartialEq, Eq, Debug)]
pub struct Facts {
    pub chunk_size: Option<u64>,
    pub size: Option<u64>,
    pub id: Option<String>,
    pub parent_id: Option<String>,
}

/// The value of `Facts`.
pub struct FactsModel {
    pub chunk_size: Option<u64>,
    pub size: Option<u64>,
    pub id: Option<Seq<char>>,
    pub parent_id: Option<Seq<char>>,
}

impl View for Facts {
    type V = FactsModel;

    open spec fn view(&self) -> FactsModel {
        FactsModel {
            chunk_size: self.chunk_size,
            size: self.size,
            id: crate::cli::args::optional_text(self.id),
            parent_id: crate::cli::args::optional_text(self.parent_id),
        }
    }
}

/// What came of what was to be done.
#[derive(PartialEq, Eq, Debug)]
pub enum Event {
    /// The server answered. `body` is missing where it cannot be read.
    Answered { status: u16, body: Option<Facts> },
    /// The server did not answer.
    NoAnswer,
    /// The source is open, at the offset.
    Opened,
    CannotOpen,
    CannotSeek,
    /// So many bytes were read; none at the end of the source.
    Read { count: usize },
    CannotRead,
    /// The time is up.
    Waited,
    /// The source has this size.
    Measured { size: u64 },
    CannotMeasure,
}

/// The value of an `Event`.
pub enum EventModel {
    Answered { status: u16, body: Option<FactsModel> },
    NoAnswer,
    Opened,
    CannotOpen,
    CannotSeek,
    Read { count: usize },
    CannotRead,
    Waited,
    Measured { size: u64 },
    CannotMeasure,
}

impl View for Event {
    type V = EventModel;

    open spec fn view(&self) -> EventModel {
        match *self {
            Event::Answered { status, body } => EventModel::Answered {
                status,
                body: match body {
                    Some(facts) => Some(facts@),
                    None => None,
                },
            },
            Event::NoAnswer => EventModel::NoAnswer,
            Event::Opened => EventModel::Opened,
            Event::CannotOpen => EventModel::CannotOpen,
            Event::CannotSeek => EventModel::CannotSeek,
            Event::Read { count } => EventModel::Read { count },
            Event::CannotRead => EventModel::CannotRead,
            Event::Waited => EventModel::Waited,
            Event::Measured { size } => EventModel::Measured { size },
            Event::CannotMeasure => EventModel::CannotMeasure,
        }
    }
}

/// A method of HTTP.
#[derive(PartialEq, Eq, Structural, Clone, Copy, Debug)]
pub enum Method {
    Get,
    Post,
    Put,
}

/// What follows the address of a request.
#[derive(PartialEq, Eq, Debug)]
pub enum Query {
    Nothing,
    /// `path`, the path of a node.
    Path { path: String },
    /// `offset`, where data goes.
    Offset { offset: u64 },
}

/// What a request carries.
#[derive(PartialEq, Eq, Debug)]
pub enum Body {
    Nothing,
    /// The first bytes of the buffer.
    Part { len: usize },
    /// A file to make.
    NewFile {
        parent_id: String,
        /// The encoded name.
        name: String,
        kind: String,
        mode: u32,
        uid: u32,
        gid: u32,
        idempotency_key: String,
    },
    /// Where to publish a node.
    Publication {
        new_parent_id: String,
        /// The encoded name.
        new_name: String,
        idempotency_key: String,
    },
}

/// What is to be done next.
#[derive(PartialEq, Eq, Debug)]
pub enum Action {
    /// Send a request.
    Request { method: Method, url: String, query: Query, body: Body },
    /// Open the source and go to `offset`.
    Open { offset: u64 },
    /// Read from the source into the bytes `from` to `to` of the buffer.
    Read { from: usize, to: usize },
    /// Wait.
    Wait { seconds: u64 },
    /// Measure the source.
    Measure,
    /// Nothing: the file is published.
    Finish,
    /// Nothing: the upload failed.
    GiveUp { why: Failure },
}

/// The value of a `Query`.
pub enum QueryModel {
    Nothing,
    Path { path: Seq<char> },
    Offset { offset: u64 },
}

/// The value of a `Body`.
pub enum BodyModel {
    Nothing,
    Part { len: usize },
    NewFile {
        parent_id: Seq<char>,
        name: Seq<char>,
        kind: Seq<char>,
        mode: u32,
        uid: u32,
        gid: u32,
        idempotency_key: Seq<char>,
    },
    Publication { new_parent_id: Seq<char>, new_name: Seq<char>, idempotency_key: Seq<char> },
}

/// The value of an `Action`.
pub enum ActionModel {
    Request { method: Method, url: Seq<char>, query: QueryModel, body: BodyModel },
    Open { offset: u64 },
    Read { from: usize, to: int },
    Wait { seconds: int },
    Measure,
    Finish,
    GiveUp { why: Failure },
}

impl View for Query {
    type V = QueryModel;

    open spec fn view(&self) -> QueryModel {
        match *self {
            Query::Nothing => QueryModel::Nothing,
            Query::Path { path } => QueryModel::Path { path: path@ },
            Query::Offset { offset } => QueryModel::Offset { offset },
        }
    }
}

impl View for Body {
    type V = BodyModel;

    open spec fn view(&self) -> BodyModel {
        match *self {
            Body::Nothing => BodyModel::Nothing,
            Body::Part { len } => BodyModel::Part { len },
            Body::NewFile { parent_id, name, kind, mode, uid, gid, idempotency_key } =>
                BodyModel::NewFile {
                    parent_id: parent_id@,
                    name: name@,
                    kind: kind@,
                    mode,
                    uid,
                    gid,
                    idempotency_key: idempotency_key@,
                },
            Body::Publication { new_parent_id, new_name, idempotency_key } =>
                BodyModel::Publication {
                    new_parent_id: new_parent_id@,
                    new_name: new_name@,
                    idempotency_key: idempotency_key@,
                },
        }
    }
}

impl View for Action {
    type V = ActionModel;

    open spec fn view(&self) -> ActionModel {
        match *self {
            Action::Request { method, url, query, body } => ActionModel::Request {
                method,
                url: url@,
                query: query@,
                body: body@,
            },
            Action::Open { offset } => ActionModel::Open { offset },
            Action::Read { from, to } => ActionModel::Read { from, to: to as int },
            Action::Wait { seconds } => ActionModel::Wait { seconds: seconds as int },
            Action::Measure => ActionModel::Measure,
            Action::Finish => ActionModel::Finish,
            Action::GiveUp { why } => ActionModel::GiveUp { why },
        }
    }
}

/// What there is to tell the operator once it is known where an upload
/// starts.
#[derive(PartialEq, Eq, Structural, Clone, Copy, Debug)]
pub enum Announcement {
    /// Everything is there already; only publishing is left.
    AlreadyUploaded,
    /// The upload carries on.
    Resuming,
    /// It starts from the beginning: nothing to tell.
    Nothing,
}

/// What there is to tell of an upload that starts at `offset` of `total`
/// bytes.
pub fn announce(offset: u64, total: u64) -> (r: Announcement)
    ensures
        r == if total > 0 && offset >= total {
            Announcement::AlreadyUploaded
        } else if offset > 0 {
            Announcement::Resuming
        } else {
            Announcement::Nothing
        },
{
    if offset >= total && total > 0 {
        Announcement::AlreadyUploaded
    } else if offset > 0 {
        Announcement::Resuming
    } else {
        Announcement::Nothing
    }
}

/// An upload. What is not known yet is zero or empty.
#[verifier::ext_equal]
pub struct UploadModel {
    /// The base of the server's addresses.
    pub base: Seq<char>,
    /// The final name.
    pub name: Seq<char>,
    /// The size of the source when the upload started.
    pub total: u64,
    pub resume: bool,
    pub part_size: u64,
    pub node_id: Seq<char>,
    /// The directory that the file is in.
    pub root_id: Seq<char>,
    /// How many bytes the server has.
    pub offset: u64,
    /// How many bytes of the part were read.
    pub filled: usize,
    /// How often the part was sent, this time included.
    pub attempt: u64,
    pub stage: Stage,
}

/// A size that the server may have left out.
pub open spec fn size_or_zero(size: Option<u64>) -> u64 {
    crate::model::given_or(size, 0)
}

/// A text that the server may have left out.
pub open spec fn text_or_empty(text: Option<Seq<char>>) -> Seq<char> {
    crate::model::given_or(text, Seq::empty())
}

impl UploadModel {
    /// An upload that is about to start.
    pub open spec fn fresh(base: Seq<char>, name: Seq<char>, total: u64, resume: bool) -> UploadModel {
        UploadModel {
            base,
            name,
            total,
            resume,
            part_size: 0,
            node_id: Seq::empty(),
            root_id: Seq::empty(),
            offset: 0,
            filled: 0,
            attempt: 0,
            stage: Stage::AskPartSize,
        }
    }

    /// The size of the part at the offset.
    pub open spec fn window(self) -> int {
        read_len(self.total, self.offset, self.part_size as usize)
    }

    /// What holds of every upload: it never goes past the size that the source
    /// had, and it gets to publishing only with everything sent.
    pub open spec fn wf(self) -> bool {
        &&& can_be_sent(self.name)
        &&& match self.stage {
            Stage::Open => self.offset <= self.total,
            Stage::Read => self.filled < self.window(),
            Stage::Send | Stage::Wait => 0 < self.filled <= self.window() && 1 <= self.attempt
                <= ATTEMPTS,
            Stage::Measure | Stage::Sync | Stage::Publish | Stage::Done => self.offset
                == self.total,
            _ => true,
        }
    }

    /// The same upload, further on.
    pub open spec fn at(self, stage: Stage) -> UploadModel {
        UploadModel { stage, ..self }
    }

    /// The same upload, failed.
    pub open spec fn failed(self, why: Failure) -> UploadModel {
        self.at(Stage::Failed { why })
    }

    /// Goes on to the next part, or to measuring the source if there is none.
    pub open spec fn next_part(self) -> UploadModel {
        if self.offset >= self.total {
            self.at(Stage::Measure)
        } else if self.window() == 0 {
            self.failed(Failure::SourceEnded { offset: self.offset })
        } else {
            UploadModel { filled: 0, stage: Stage::Read, ..self }
        }
    }

    /// Goes on to sending what was read, for the first time.
    pub open spec fn with_part(self, filled: usize) -> UploadModel {
        UploadModel { filled, attempt: 1, stage: Stage::Send, ..self }
    }

    /// What an upload makes of an answer that says the server did what was
    /// asked.
    pub open spec fn on_success(self, body: Option<FactsModel>) -> UploadModel {
        match (self.stage, body) {
            (Stage::CheckFinal, None) => self.failed(Failure::FinalUnreadable),
            (Stage::CheckFinal, Some(facts)) => self.failed(
                Failure::FinalExists { size: size_or_zero(facts.size) },
            ),
            (Stage::FindPartial, None) => self.failed(Failure::PartialUnreadable),
            (Stage::FindPartial, Some(facts)) => {
                let size = size_or_zero(facts.size);
                if !self.resume {
                    self.failed(Failure::PartialExists { size })
                } else if size > self.total {
                    self.failed(Failure::PartialTooLarge { remote_size: size })
                } else {
                    UploadModel {
                        node_id: text_or_empty(facts.id),
                        root_id: text_or_empty(facts.parent_id),
                        offset: size,
                        stage: Stage::Open,
                        ..self
                    }
                }
            },
            (Stage::Create, None) => self.failed(Failure::CreatedUnreadable),
            (Stage::Create, Some(facts)) => UploadModel {
                node_id: text_or_empty(facts.id),
                offset: 0,
                stage: Stage::Open,
                ..self
            },
            (Stage::Send, _) => UploadModel {
                offset: (self.offset + self.filled) as u64,
                ..self
            }.next_part(),
            (Stage::Sync, _) => self.at(Stage::Publish),
            (Stage::Publish, _) => self.at(Stage::Done),
            _ => self,
        }
    }

    /// What an upload makes of an answer that says the server did not do what
    /// was asked.
    pub open spec fn on_refusal(self, status: u16) -> UploadModel {
        match self.stage {
            Stage::CheckFinal => self.at(Stage::FindPartial),
            Stage::FindPartial => self.at(Stage::AskRoot),
            Stage::Create => self.failed(Failure::CreateRefused { status }),
            Stage::Send => self.at(Stage::Wait),
            Stage::Sync => self.failed(Failure::SyncRefused { status }),
            Stage::Publish => self.failed(Failure::PublishRefused { status }),
            _ => self,
        }
    }

    /// What an upload makes of an answer. The questions for the part size and
    /// for the root look at what the answer says, whatever its status.
    pub open spec fn on_answer(self, status: u16, body: Option<FactsModel>) -> UploadModel {
        match (self.stage, body) {
            (Stage::AskPartSize, Some(facts)) => UploadModel {
                part_size: crate::model::given_or(facts.chunk_size, DEFAULT_PART_SIZE),
                stage: Stage::CheckFinal,
                ..self
            },
            (Stage::AskPartSize, None) => self.failed(Failure::PartSizeUnreadable),
            (Stage::AskRoot, Some(facts)) => UploadModel {
                root_id: text_or_empty(facts.id),
                stage: Stage::Create,
                ..self
            },
            (Stage::AskRoot, None) => self.failed(Failure::RootUnreadable),
            _ => if crate::cli::http::is_success_status(status) {
                self.on_success(body)
            } else {
                self.on_refusal(status)
            },
        }
    }

    /// What an answer with this status says is looked at: always where the
    /// part size or the root was asked for, and if it succeeded where a name
    /// was looked up or the file was made.
    pub open spec fn looks_at_answer(self, status: u16) -> bool {
        match self.stage {
            Stage::AskPartSize | Stage::AskRoot => true,
            Stage::CheckFinal | Stage::FindPartial | Stage::Create =>
                crate::cli::http::is_success_status(status),
            _ => false,
        }
    }

    /// What an upload makes of it that no answer came.
    pub open spec fn on_silence(self) -> UploadModel {
        match self.stage {
            Stage::AskPartSize | Stage::AskRoot => self.failed(Failure::Unreachable),
            Stage::CheckFinal => self.at(Stage::FindPartial),
            Stage::FindPartial => self.at(Stage::AskRoot),
            Stage::Create => self.failed(Failure::CreateFailed),
            Stage::Send => self.at(Stage::Wait),
            Stage::Sync => self.failed(Failure::SyncFailed),
            Stage::Publish => self.failed(Failure::PublishFailed),
            _ => self,
        }
    }

    /// What an upload makes of having read `count` more bytes. A part is sent
    /// once it is full or the source ends.
    pub open spec fn on_read(self, count: usize) -> UploadModel {
        if self.filled + count > self.window() {
            self
        } else if count == 0 && self.filled == 0 {
            self.failed(Failure::SourceEnded { offset: self.offset })
        } else if count == 0 || self.filled + count == self.window() {
            self.with_part((self.filled + count) as usize)
        } else {
            UploadModel { filled: (self.filled + count) as usize, ..self }
        }
    }

    /// Where an upload stands after an event. One that does not answer what
    /// was to be done changes nothing.
    pub open spec fn step(self, event: EventModel) -> UploadModel {
        match (self.stage, event) {
            (_, EventModel::Answered { status, body }) => self.on_answer(status, body),
            (_, EventModel::NoAnswer) => self.on_silence(),
            (Stage::Open, EventModel::Opened) => self.next_part(),
            (Stage::Open, EventModel::CannotOpen) => self.failed(Failure::CannotOpen),
            (Stage::Open, EventModel::CannotSeek) => self.failed(Failure::CannotSeek),
            (Stage::Read, EventModel::Read { count }) => self.on_read(count),
            (Stage::Read, EventModel::CannotRead) => self.failed(
                Failure::ReadFailed { offset: self.offset },
            ),
            (Stage::Wait, EventModel::Waited) => if self.attempt < ATTEMPTS {
                UploadModel { attempt: (self.attempt + 1) as u64, stage: Stage::Send, ..self }
            } else {
                self.failed(Failure::GaveUp { offset: self.offset })
            },
            (Stage::Measure, EventModel::Measured { size }) => if size == self.total {
                self.at(Stage::Sync)
            } else {
                self.failed(Failure::SizeChanged { current: size })
            },
            (Stage::Measure, EventModel::CannotMeasure) => self.failed(Failure::CannotMeasure),
            _ => self,
        }
    }

    /// A request without anything attached.
    pub open spec fn plain(method: Method, url: Seq<char>) -> ActionModel {
        ActionModel::Request {
            method,
            url,
            query: QueryModel::Nothing,
            body: BodyModel::Nothing,
        }
    }

    /// The question what is at a name in the root directory.
    pub open spec fn resolve(self, name: Seq<char>) -> ActionModel {
        ActionModel::Request {
            method: Method::Get,
            url: self.base + Endpoint::Resolve.path(),
            query: QueryModel::Path { path: "/"@ + name },
            body: BodyModel::Nothing,
        }
    }

    /// What is to be done next, where `key` marks a request that must not be
    /// carried out twice.
    pub open spec fn action(self, key: Uuid) -> ActionModel {
        match self.stage {
            Stage::AskPartSize => Self::plain(
                Method::Get,
                self.base + Endpoint::FileSystem.path(),
            ),
            Stage::CheckFinal => self.resolve(self.name),
            Stage::FindPartial => self.resolve(hidden(self.name)),
            Stage::AskRoot => Self::plain(Method::Get, self.base + Endpoint::Root.path()),
            Stage::Create => ActionModel::Request {
                method: Method::Post,
                url: self.base + Endpoint::Nodes.path(),
                query: QueryModel::Nothing,
                body: BodyModel::NewFile {
                    parent_id: self.root_id,
                    name: crate::cli::encoding::encoded_name(hidden(self.name)),
                    kind: "File"@,
                    mode: 0o100644,
                    uid: 0,
                    gid: 0,
                    idempotency_key: crate::ident::uuid_text(key),
                },
            },
            Stage::Open => ActionModel::Open { offset: self.offset },
            Stage::Read => ActionModel::Read { from: self.filled, to: self.window() },
            Stage::Send => ActionModel::Request {
                method: Method::Put,
                url: NodeOperation::Data.address(self.base, self.node_id),
                query: QueryModel::Offset { offset: self.offset },
                body: BodyModel::Part { len: self.filled },
            },
            Stage::Wait => ActionModel::Wait { seconds: self.attempt * 5 },
            Stage::Measure => ActionModel::Measure,
            Stage::Sync => Self::plain(
                Method::Post,
                NodeOperation::Sync.address(self.base, self.node_id),
            ),
            Stage::Publish => ActionModel::Request {
                method: Method::Post,
                url: NodeOperation::Publish.address(self.base, self.node_id),
                query: QueryModel::Nothing,
                body: BodyModel::Publication {
                    new_parent_id: self.root_id,
                    new_name: crate::cli::encoding::encoded_name(self.name),
                    idempotency_key: crate::ident::uuid_text(key),
                },
            },
            Stage::Done => ActionModel::Finish,
            Stage::Failed { why } => ActionModel::GiveUp { why },
        }
    }
}

/// An upload.
#[derive(Debug)]
pub struct Upload {
    base: String,
    name: String,
    total: u64,
    resume: bool,
    part_size: u64,
    node_id: String,
    root_id: String,
    offset: u64,
    filled: usize,
    attempt: u64,
    stage: Stage,
}

impl View for Upload {
    type V = UploadModel;

    closed spec fn view(&self) -> UploadModel {
        UploadModel {
            base: self.base@,
            name: self.name@,
            total: self.total,
            resume: self.resume,
            part_size: self.part_size,
            node_id: self.node_id@,
            root_id: self.root_id@,
            offset: self.offset,
            filled: self.filled,
            attempt: self.attempt,
            stage: self.stage,
        }
    }
}

/// A text, or the empty one where there is none.
fn or_empty(text: Option<String>) -> (r: String)
    ensures
        r@ == text_or_empty(crate::cli::args::optional_text(text)),
{
    match text {
        Some(t) => t,
        None => {
            let r = String::new();
            assert(r@ =~= Seq::<char>::empty());
            r
        },
    }
}

/// A number, or another where there is none.
fn or_else(number: Option<u64>, other: u64) -> (r: u64)
    ensures
        r == crate::model::given_or(number, other),
{
    match number {
        Some(n) => n,
        None => other,
    }
}

impl Upload {
    /// Starts the upload of `total` bytes under `name`.
    pub fn new(base: String, name: String, total: u64, resume: bool) -> (r: Upload)
        requires
            can_be_sent(name@),
        ensures
            r@ == UploadModel::fresh(base@, name@, total, resume),
            r@.wf(),
    {
        let r = Upload {
            base,
            name,
            total,
            resume,
            part_size: 0,
            node_id: String::new(),
            root_id: String::new(),
            offset: 0,
            filled: 0,
            attempt: 0,
            stage: Stage::AskPartSize,
        };
        assert(r@ =~= UploadModel::fresh(base@, name@, total, resume));
        r
    }

    /// How far the upload is.
    pub fn stage(&self) -> (r: Stage)
        ensures
            r == self@.stage,
    {
        self.stage
    }

    /// How the program ends, once the upload is over: well if the file is
    /// published, and only then.
    pub fn exit(&self) -> (r: Option<Exit>)
        ensures
            r == match self@.stage {
                Stage::Done => Some(Exit::Success),
                Stage::Failed { .. } => Some(Exit::Failure),
                _ => None,
            },
    {
        match self.stage {
            Stage::Done => Some(Exit::Success),
            Stage::Failed { why } => Some(Exit::Failure),
            _ => None,
        }
    }

    /// Whether the upload looks at what an answer with this status says.
    pub fn reads_answer(&self, status: u16) -> (r: bool)
        ensures
            r == self@.looks_at_answer(status),
            !r ==> forall|body: Option<FactsModel>| #[trigger]
                self@.on_answer(status, body) == self@.on_answer(status, None),
    {
        match self.stage {
            Stage::AskPartSize => true,
            Stage::AskRoot => true,
            Stage::CheckFinal => is_success(status),
            Stage::FindPartial => is_success(status),
            Stage::Create => is_success(status),
            _ => false,
        }
    }

    /// How many bytes the server has.
    pub fn offset(&self) -> (r: u64)
        ensures
            r == self@.offset,
    {
        self.offset
    }

    /// How often the current part was sent.
    pub fn attempt(&self) -> (r: u64)
        ensures
            r == self@.attempt,
    {
        self.attempt
    }

    /// The part size.
    pub fn part_size(&self) -> (r: u64)
        ensures
            r == self@.part_size,
    {
        self.part_size
    }

    fn window(&self) -> (r: usize)
        ensures
            r == self@.window(),
    {
        next_read_len(self.total, self.offset, self.part_size as usize)
    }

    fn fail(&mut self, why: Failure)
        ensures
            final(self)@ == old(self)@.failed(why),
    {
        self.stage = Stage::Failed { why };
    }

    fn go(&mut self, stage: Stage)
        ensures
            final(self)@ == old(self)@.at(stage),
    {
        self.stage = stage;
    }

    fn next_part(&mut self)
        ensures
            final(self)@ == old(self)@.next_part(),
    {
        if self.offset >= self.total {
            self.go(Stage::Measure);
        } else if self.window() == 0 {
            let offset: u64 = self.offset;
            self.fail(Failure::SourceEnded { offset });
        } else {
            self.filled = 0;
            self.stage = Stage::Read;
        }
    }

    fn on_success(&mut self, body: Option<Facts>)
        requires
            old(self)@.wf(),
        ensures
            final(self)@ == old(self)@.on_success(
                match body {
                    Some(facts) => Some(facts@),
                    None => None,
                },
            ),
    {
        match (self.stage, body) {
            (Stage::CheckFinal, None) => self.fail(Failure::FinalUnreadable),
            (Stage::CheckFinal, Some(facts)) => {
                let size: u64 = or_else(facts.size, 0);
                self.fail(Failure::FinalExists { size });
            },
            (Stage::FindPartial, None) => self.fail(Failure::PartialUnreadable),
            (Stage::FindPartial, Some(facts)) => {
                let size: u64 = or_else(facts.size, 0);
                if !self.resume {
                    self.fail(Failure::PartialExists { size });
                } else {
                    match checked_resume_offset(size, self.total) {
                        Err(()) => self.fail(Failure::PartialTooLarge { remote_size: size }),
                        Ok(offset) => {
                            self.node_id = or_empty(facts.id);
                            self.root_id = or_empty(facts.parent_id);
                            self.offset = offset;
                            self.stage = Stage::Open;
                        },
                    }
                }
            },
            (Stage::Create, None) => self.fail(Failure::CreatedUnreadable),
            (Stage::Create, Some(facts)) => {
                self.node_id = or_empty(facts.id);
                self.offset = 0;
                self.stage = Stage::Open;
            },
            (Stage::Send, _) => {
                self.offset = self.offset + self.filled as u64;
                self.next_part();
            },
            (Stage::Sync, _) => self.go(Stage::Publish),
            (Stage::Publish, _) => self.go(Stage::Done),
            _ => {},
        }
    }

    fn on_refusal(&mut self, status: u16)
        ensures
            final(self)@ == old(self)@.on_refusal(status),
    {
        match self.stage {
            Stage::CheckFinal => self.go(Stage::FindPartial),
            Stage::FindPartial => self.go(Stage::AskRoot),
            Stage::Create => self.fail(Failure::CreateRefused { status }),
            Stage::Send => self.go(Stage::Wait),
            Stage::Sync => self.fail(Failure::SyncRefused { status }),
            Stage::Publish => self.fail(Failure::PublishRefused { status }),
            _ => {},
        }
    }

    fn on_answer(&mut self, status: u16, body: Option<Facts>)
        requires
            old(self)@.wf(),
        ensures
            final(self)@ == old(self)@.on_answer(
                status,
                match body {
                    Some(facts) => Some(facts@),
                    None => None,
                },
            ),
    {
        match (self.stage, body) {
            (Stage::AskPartSize, Some(facts)) => {
                self.part_size = or_else(facts.chunk_size, DEFAULT_PART_SIZE);
                self.stage = Stage::CheckFinal;
            },
            (Stage::AskPartSize, None) => self.fail(Failure::PartSizeUnreadable),
            (Stage::AskRoot, Some(facts)) => {
                self.root_id = or_empty(facts.id);
                self.stage = Stage::Create;
            },
            (Stage::AskRoot, None) => self.fail(Failure::RootUnreadable),
            (_, body) => {
                if is_success(status) {
                    self.on_success(body);
                } else {
                    self.on_refusal(status);
                }
            },
        }
    }

    fn on_silence(&mut self)
        ensures
            final(self)@ == old(self)@.on_silence(),
    {
        match self.stage {
            Stage::AskPartSize => self.fail(Failure::Unreachable),
            Stage::AskRoot => self.fail(Failure::Unreachable),
            Stage::CheckFinal => self.go(Stage::FindPartial),
            Stage::FindPartial => self.go(Stage::AskRoot),
            Stage::Create => self.fail(Failure::CreateFailed),
            Stage::Send => self.go(Stage::Wait),
            Stage::Sync => self.fail(Failure::SyncFailed),
            Stage::Publish => self.fail(Failure::PublishFailed),
            _ => {},
        }
    }

    fn on_read(&mut self, count: usize)
        requires
            old(self)@.wf(),
            old(self)@.stage == Stage::Read,
        ensures
            final(self)@ == old(self)@.on_read(count),
    {
        let window: usize = self.window();
        let offset: u64 = self.offset;
        if count > window - self.filled {
            return ;
        }
        if count == 0 && self.filled == 0 {
            self.fail(Failure::SourceEnded { offset });
        } else {
            self.filled = self.filled + count;
            if count == 0 || self.filled == window {
                self.attempt = 1;
                self.stage = Stage::Send;
            }
        }
    }

    /// Takes note of what came of the last action. Something that does not
    /// answer it changes nothing.
    pub fn step(&mut self, event: Event)
        requires
            old(self)@.wf(),
        ensures
            final(self)@ == old(self)@.step(event@),
            final(self)@.wf(),
    {
        match (self.stage, event) {
            (_, Event::Answered { status, body }) => self.on_answer(status, body),
            (_, Event::NoAnswer) => self.on_silence(),
            (Stage::Open, Event::Opened) => self.next_part(),
            (Stage::Open, Event::CannotOpen) => self.fail(Failure::CannotOpen),
            (Stage::Open, Event::CannotSeek) => self.fail(Failure::CannotSeek),
            (Stage::Read, Event::Read { count }) => self.on_read(count),
            (Stage::Read, Event::CannotRead) => {
                let offset: u64 = self.offset;
                self.fail(Failure::ReadFailed { offset });
            },
            (Stage::Wait, Event::Waited) => {
                if self.attempt < ATTEMPTS {
                    self.attempt = self.attempt + 1;
                    self.stage = Stage::Send;
                } else {
                    let offset: u64 = self.offset;
                    self.fail(Failure::GaveUp { offset });
                }
            },
            (Stage::Measure, Event::Measured { size }) => {
                if size == self.total {
                    self.go(Stage::Sync);
                } else {
                    self.fail(Failure::SizeChanged { current: size });
                }
            },
            (Stage::Measure, Event::CannotMeasure) => self.fail(Failure::CannotMeasure),
            _ => {},
        }
    }

    fn resolve(&self, name: &str) -> (r: Action)
        ensures
            r@ == self@.resolve(name@),
    {
        Action::Request {
            method: Method::Get,
            url: Endpoint::Resolve.url(self.base.as_str()),
            query: Query::Path { path: joined("/", name) },
            body: Body::Nothing,
        }
    }

    fn plain(method: Method, url: String) -> (r: Action)
        ensures
            r@ == UploadModel::plain(method, url@),
    {
        Action::Request { method, url, query: Query::Nothing, body: Body::Nothing }
    }

    /// What is to be done next, where `key` marks a request that must not be
    /// carried out twice.
    pub fn action_with(&self, key: Uuid) -> (r: Action)
        requires
            self@.wf(),
        ensures
            r@ == self@.action(key),
    {
        let base = self.base.as_str();
        let node_id = self.node_id.as_str();
        match self.stage {
            Stage::AskPartSize => Self::plain(Method::Get, Endpoint::FileSystem.url(base)),
            Stage::CheckFinal => self.resolve(self.name.as_str()),
            Stage::FindPartial => self.resolve(hidden_name(self.name.as_str()).as_str()),
            Stage::AskRoot => Self::plain(Method::Get, Endpoint::Root.url(base)),
            Stage::Create => Action::Request {
                method: Method::Post,
                url: Endpoint::Nodes.url(base),
                query: Query::Nothing,
                body: Body::NewFile {
                    parent_id: self.root_id.clone(),
                    name: encode_name(hidden_name(self.name.as_str()).as_str()),
                    kind: "File".to_owned(),
                    mode: 0o100644,
                    uid: 0,
                    gid: 0,
                    idempotency_key: write_uuid(key),
                },
            },
            Stage::Open => Action::Open { offset: self.offset },
            Stage::Read => Action::Read { from: self.filled, to: self.window() },
            Stage::Send => Action::Request {
                method: Method::Put,
                url: NodeOperation::Data.url(base, node_id),
                query: Query::Offset { offset: self.offset },
                body: Body::Part { len: self.filled },
            },
            Stage::Wait => Action::Wait { seconds: self.attempt * 5 },
            Stage::Measure => Action::Measure,
            Stage::Sync => Self::plain(Method::Post, NodeOperation::Sync.url(base, node_id)),
            Stage::Publish => Action::Request {
                method: Method::Post,
                url: NodeOperation::Publish.url(base, node_id),
                query: Query::Nothing,
                body: Body::Publication {
                    new_parent_id: self.root_id.clone(),
                    new_name: encode_name(self.name.as_str()),
                    idempotency_key: write_uuid(key),
                },
            },
            Stage::Done => Action::Finish,
            Stage::Failed { why } => Action::GiveUp { why },
        }
    }

    /// What is to be done next. A request that must not be carried out twice
    /// is marked with a fresh key.
    pub fn action(&self) -> (r: Action)
        requires
            self@.wf(),
        ensures
            exists|key: Uuid|
                crate::ident::is_random_uuid(key) && r@ == #[trigger] self@.action(key),
    {
        let key: Uuid = fresh_uuid();
        self.action_with(key)
    }
}

} // verus!
