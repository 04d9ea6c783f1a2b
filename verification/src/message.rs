//! The messages by which a transfer tells of its progress.

use vstd::prelude::*;

verus! {

/// One report of a running transfer.
#[derive(Debug, PartialEq, Eq)]
pub enum ProgressMessage {
    /// The transfer is being prepared.
    Preparing(String),
    /// The preparation is done.
    PrepareComplete,
    /// A file is about to be transferred.
    FileStarted(String),
    /// The bytes transferred of the current file, and its bytes in all.
    FileProgress(u64, u64),
    /// A file has been transferred.
    FileCompleted(String),
    /// The files completed and the files in all, then the bytes completed and the bytes in all.
    TotalProgress(usize, usize, u64, u64),
    /// The transfer is over: the files that succeeded and the files that failed.
    Completed(usize, usize),
    /// Something failed: the file concerned, or nothing, and the reason.
    Error(String, String),
}

/// A message, by the text that it holds.
#[verifier::ext_equal]
pub enum MessageView {
    Preparing(Seq<char>),
    PrepareComplete,
    FileStarted(Seq<char>),
    FileProgress(u64, u64),
    FileCompleted(Seq<char>),
    TotalProgress(usize, usize, u64, u64),
    Completed(usize, usize),
    Error(Seq<char>, Seq<char>),
}

impl View for ProgressMessage {
    type V = MessageView;

    open spec fn view(&self) -> MessageView {
        match self {
            ProgressMessage::Preparing(text) => MessageView::Preparing(text@),
            ProgressMessage::PrepareComplete => MessageView::PrepareComplete,
            ProgressMessage::FileStarted(file) => MessageView::FileStarted(file@),
            ProgressMessage::FileProgress(sent, total) => MessageView::FileProgress(*sent, *total),
            ProgressMessage::FileCompleted(file) => MessageView::FileCompleted(file@),
            ProgressMessage::TotalProgress(files, total, sent, bytes) => MessageView::TotalProgress(
                *files,
                *total,
                *sent,
                *bytes,
            ),
            ProgressMessage::Completed(good, bad) => MessageView::Completed(*good, *bad),
            ProgressMessage::Error(file, reason) => MessageView::Error(file@, reason@),
        }
    }
}

} // verus!
