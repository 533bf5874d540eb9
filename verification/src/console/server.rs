use vstd::prelude::*;

verus! {

/// The kinds of device a console can talk to.
#[derive(Debug, Clone, Copy, PartialEq, Eq, Structural)]
pub enum DeviceType {
    VoidLake,
    OZYS,
}

/// How opening a file for reading went.
#[derive(Debug, Clone, Copy, PartialEq, Eq, Structural)]
pub enum OpenFileStatus {
    Sucess,
    DoesNotExist,
    Error,
}

/// A chunk of an open file: `length` bytes of `data` hold it.
pub struct ReadFileResult {
    pub data: [u8; 128],
    pub length: u8,
    pub corrupted: bool,
}

/// How a read of the open file went.
pub enum ReadOutcome {
    /// No file is open.
    NoFile,
    /// The read failed.
    Failed,
    /// `len` bytes were read; `corrupted` when a page failed its check.
    Read { len: usize, corrupted: bool },
}

/// The answer to a read request, `data` being the buffer the read went to:
/// with no open file, an empty clean chunk; after a failed read, an empty
/// chunk marked corrupted; else the bytes read.
pub fn read_file_result(outcome: ReadOutcome, data: [u8; 128]) -> (r: ReadFileResult)
    requires
        outcome matches ReadOutcome::Read { len, .. } ==> len <= 128,
    ensures
        match outcome {
            ReadOutcome::NoFile => r.data@ == Seq::new(128, |i: int| 0u8) && r.length == 0
                && !r.corrupted,
            ReadOutcome::Failed => r.data == data && r.length == 0 && r.corrupted,
            ReadOutcome::Read { len, corrupted } => r.data == data && r.length == len
                && r.corrupted == corrupted,
        },
{
    match outcome {
        ReadOutcome::NoFile => {
            let zeros = [0u8; 128];
            assert(zeros@ =~= Seq::new(128, |i: int| 0u8));
            ReadFileResult { data: zeros, length: 0, corrupted: false }
        },
        ReadOutcome::Failed => ReadFileResult { data, length: 0, corrupted: true },
        ReadOutcome::Read { len, corrupted } => ReadFileResult {
            data,
            length: len as u8,
            corrupted,
        },
    }
}

/// What listing files does with the next entry.
#[derive(Debug, PartialEq, Eq, Structural)]
pub enum ListStep {
    /// Answer with this file id.
    Found(u64),
    /// The entry is of another type: look at the next one.
    Skip,
    /// No more files: answer with none.
    End,
}

/// Listing files of `file_type`: an entry `(id, type)` of that type is the
/// answer, another one is skipped, and the end of the files (or a failed
/// read, given as `None` too) ends the listing.
pub fn listed_file_step(file_type: u16, entry: Option<(u64, u16)>) -> (r: ListStep)
    ensures
        match entry {
            Some((id, t)) => if t == file_type {
                r == ListStep::Found(id)
            } else {
                r == ListStep::Skip
            },
            None => r == ListStep::End,
        },
{
    match entry {
        Some((id, t)) => if t == file_type {
            ListStep::Found(id)
        } else {
            ListStep::Skip
        },
        None => ListStep::End,
    }
}

/// How the file system answered a request to open a file for reading.
#[derive(Debug, Clone, Copy, PartialEq, Eq, Structural)]
pub enum OpenOutcome {
    /// The file is open; it becomes the file that reads go to, and the one
    /// open before it, if any, is closed.
    Opened,
    /// No file has that id.
    DoesNotExist,
    /// Opening failed for another reason.
    Failed,
}

/// The status an open request is answered with.
pub fn open_file_status(outcome: OpenOutcome) -> (r: OpenFileStatus)
    ensures
        r == match outcome {
            OpenOutcome::Opened => OpenFileStatus::Sucess,
            OpenOutcome::DoesNotExist => OpenFileStatus::DoesNotExist,
            OpenOutcome::Failed => OpenFileStatus::Error,
        },
{
    match outcome {
        OpenOutcome::Opened => OpenFileStatus::Sucess,
        OpenOutcome::DoesNotExist => OpenFileStatus::DoesNotExist,
        OpenOutcome::Failed => OpenFileStatus::Error,
    }
}

/// What the console does once the file system answered an open request.
#[derive(Debug, Clone, Copy, PartialEq, Eq, Structural)]
pub struct OpenStep {
    /// The status the request is answered with.
    pub status: OpenFileStatus,
    /// Whether the file just opened becomes the file that reads go to.
    pub make_current: bool,
    /// Whether the file that was open before is closed.
    pub close_previous: bool,
}

/// An open request, `has_open_file` telling whether a file was open: a file
/// that opened replaces the open one, which is closed; otherwise the open
/// file stays as it is.
pub fn open_step(has_open_file: bool, outcome: OpenOutcome) -> (r: OpenStep)
    ensures
        r.status == match outcome {
            OpenOutcome::Opened => OpenFileStatus::Sucess,
            OpenOutcome::DoesNotExist => OpenFileStatus::DoesNotExist,
            OpenOutcome::Failed => OpenFileStatus::Error,
        },
        r.make_current == (outcome == OpenOutcome::Opened),
        r.close_previous == (outcome == OpenOutcome::Opened && has_open_file),
{
    let opened = match outcome {
        OpenOutcome::Opened => true,
        _ => false,
    };
    OpenStep {
        status: open_file_status(outcome),
        make_current: opened,
        close_previous: opened && has_open_file,
    }
}

/// Where a console session stands with listing files.
#[derive(Debug, Clone, Copy, PartialEq, Eq, Structural)]
pub enum ListState {
    /// No listing was started.
    Idle,
    /// Files of `file_type` are being listed, from a walk over all files
    /// that began when the listing started.
    Listing { file_type: u16 },
}

/// A request about listing files.
#[derive(Debug, Clone, Copy, PartialEq, Eq, Structural)]
pub enum ListRequest {
    /// Start listing the files of a type, from the first file on.
    Start(u16),
    /// The next file of the listing.
    Get,
}

/// What the console does for a listing request.
#[derive(Debug, Clone, Copy, PartialEq, Eq, Structural)]
pub enum ListReply {
    /// The listing started: begin a new walk over the files.
    Started,
    /// Answer that there is no file.
    NoFile,
    /// Walk on to the next file of this type, as `listed_file_step` says.
    ScanFor(u16),
}

/// One listing request of a session: a start request starts a listing of
/// its type; a request for the next file before any listing was started is
/// answered with no file, and during a listing walks on to the next file of
/// the listed type.
pub fn list_step(state: ListState, req: ListRequest) -> (r: (ListState, ListReply))
    ensures
        r == match req {
            ListRequest::Start(t) => (ListState::Listing { file_type: t }, ListReply::Started),
            ListRequest::Get => match state {
                ListState::Idle => (ListState::Idle, ListReply::NoFile),
                ListState::Listing { file_type } => (state, ListReply::ScanFor(file_type)),
            },
        },
{
    match req {
        ListRequest::Start(t) => (ListState::Listing { file_type: t }, ListReply::Started),
        ListRequest::Get => match state {
            ListState::Idle => (ListState::Idle, ListReply::NoFile),
            ListState::Listing { file_type } => (state, ListReply::ScanFor(file_type)),
        },
    }
}

} // verus!
