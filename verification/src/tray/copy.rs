//! Copying the most recent transcription to the clipboard.

use vstd::prelude::*;

verus! {

/// Why the last transcription was not copied.
#[derive(Debug)]
pub enum CopyError {
    /// The history could not be read, for this reason.
    History(String),
    /// The history is empty.
    NothingYet,
    /// The clipboard did not take the text.
    Clipboard,
}

impl CopyError {
    /// The message for the user.
    pub open spec fn text(self) -> Seq<char> {
        match self {
            CopyError::History(reason) => reason@,
            CopyError::NothingYet => "no previous transcription is available yet"@,
            CopyError::Clipboard => "failed to copy the last transcription"@,
        }
    }

    /// The message for the user.
    pub fn message(&self) -> (message: String)
        ensures
            message@ == self.text(),
    {
        match self {
            CopyError::History(reason) => reason.clone(),
            CopyError::NothingYet => "no previous transcription is available yet".to_string(),
            CopyError::Clipboard => "failed to copy the last transcription".to_string(),
        }
    }
}

/// A desktop notification.
#[derive(Debug)]
pub struct Notification {
    /// First line.
    pub summary: String,
    /// Rest of the notification.
    pub body: String,
}

/// The text to copy: that of the most recent entry of the history, which is the
/// first one that was read.
pub fn last_transcription(history: Result<Vec<String>, String>) -> (r: Result<String, CopyError>)
    ensures
        match history {
            Err(reason) => r == Err::<String, CopyError>(CopyError::History(reason)),
            Ok(entries) => if entries@.len() == 0 {
                r == Err::<String, CopyError>(CopyError::NothingYet)
            } else {
                r is Ok && r->Ok_0@ == entries@[0]@
            },
        },
{
    match history {
        Err(reason) => Err(CopyError::History(reason)),
        Ok(entries) => if entries.len() == 0 {
            Err(CopyError::NothingYet)
        } else {
            Ok(entries[0].clone())
        },
    }
}

/// The notification that tells the user how copying went.
pub fn copy_notification(outcome: &Result<(), CopyError>) -> (notification: Notification)
    ensures
        outcome is Ok ==> notification.summary@ == "Last transcription copied"@
            && notification.body@ == "Ready to paste."@,
        outcome matches Err(error) ==> notification.summary@
            == "Could not copy last transcription"@ && notification.body@ == error.text(),
{
    match outcome {
        Ok(_) => Notification {
            summary: "Last transcription copied".to_string(),
            body: "Ready to paste.".to_string(),
        },
        Err(error) => Notification {
            summary: "Could not copy last transcription".to_string(),
            body: error.message(),
        },
    }
}

/// What is copied is the first entry of the history. Without one, or without a
/// history, the reason is returned.
pub proof fn law_last_transcription(
    history: Result<Vec<String>, String>,
    r: Result<String, CopyError>,
)
    requires
        call_ensures(last_transcription, (history,), r),
    ensures
        call_requires(last_transcription, (history,)),
        r is Ok <==> history is Ok && history->Ok_0@.len() > 0,
        r matches Ok(text) ==> text@ == history->Ok_0@[0]@,
        r matches Err(error) ==> (match history {
            Ok(_) => error is NothingYet,
            Err(reason) => error == CopyError::History(reason),
        }),
{
}

/// The user is told whether the text can be pasted, or why not.
pub proof fn law_copy_notification(outcome: &Result<(), CopyError>, notification: Notification)
    requires
        call_ensures(copy_notification, (outcome,), notification),
    ensures
        call_requires(copy_notification, (outcome,)),
        notification.summary@ == (if outcome is Ok {
            "Last transcription copied"@
        } else {
            "Could not copy last transcription"@
        }),
        notification.body@ == (match *outcome {
            Ok(_) => "Ready to paste."@,
            Err(CopyError::History(reason)) => reason@,
            Err(CopyError::NothingYet) => "no previous transcription is available yet"@,
            Err(CopyError::Clipboard) => "failed to copy the last transcription"@,
        }),
{
}

/// The message of an error is what the notification says of it.
pub proof fn law_copy_message(error: CopyError, message: String, notification: Notification)
    requires
        call_ensures(CopyError::message, (&error,), message),
        call_ensures(copy_notification, (&Err::<(), CopyError>(error),), notification),
    ensures
        call_requires(CopyError::message, (&error,)),
        message@ == notification.body@,
{
}

} // verus!
