//! Output files that change only when their content does.

use vstd::prelude::*;

verus! {

/// Whether an output file should exist, and with what content.
#[derive(Debug, PartialEq, Eq)]
pub enum Presence {
    Present(String),
    Absent,
}

/// What to do to an output file on disk.
#[derive(Debug, PartialEq, Eq)]
pub enum SinkAction {
    /// Replace the file at `path` with `content`, atomically.
    Write { path: String, content: String },
    /// Remove the file at `path` if it exists.
    Remove { path: String },
    /// Leave the file alone: it already holds this content.
    Keep,
}

/// An output file that remembers what it last wrote, so that rewriting the
/// same content touches nothing on disk.
#[derive(Debug)]
pub struct OutputFile {
    path: String,
    last: Option<String>,
}

impl OutputFile {
    /// The file's path.
    pub closed spec fn path_text(&self) -> Seq<char> {
        self.path@
    }

    /// The content last written, if the file is present.
    pub closed spec fn last_content(&self) -> Option<Seq<char>> {
        match self.last {
            Some(c) => Some(c@),
            None => None,
        }
    }

    /// An output file at `path` whose content is not known yet.
    pub fn new(path: &str) -> (f: Self)
        ensures
            f.path_text() == path@,
            f.last_content() is None,
    {
        OutputFile { path: path.to_owned(), last: None }
    }

    /// The file's path.
    pub fn path(&self) -> (p: &str)
        ensures
            p@ == self.path_text(),
    {
        self.path.as_str()
    }

    /// What must be done on disk for this file to have `presence`: content
    /// equal to the last recorded is kept as it is; new content is written;
    /// absence removes the file. Nothing is recorded here: the caller
    /// performs the action and calls [`OutputFile::record`] once it succeeded,
    /// so a failed write or removal leaves the record as it was.
    pub fn set(&self, presence: Presence) -> (action: SinkAction)
        ensures
            decided(*self, presence, action),
    {
        match presence {
            Presence::Present(content) => {
                let same = match &self.last {
                    Some(last) => crate::text::string_eq_text(last.as_str(), content.as_str()),
                    None => false,
                };
                if same {
                    SinkAction::Keep
                } else {
                    SinkAction::Write { path: self.path.clone(), content }
                }
            },
            Presence::Absent => SinkAction::Remove { path: self.path.clone() },
        }
    }

    /// Records that `action` was carried out on disk: a written file holds
    /// the written content, a removed file holds nothing, and a kept file
    /// holds what it held.
    pub fn record(&mut self, action: SinkAction)
        ensures
            recorded(*old(self), action, *final(self)),
    {
        match action {
            SinkAction::Write { path: _, content } => {
                self.last = Some(content);
            },
            SinkAction::Remove { path: _ } => {
                self.last = None;
            },
            SinkAction::Keep => {},
        }
    }
}

/// `action` is what file `f` needs to have `presence`: content equal to the
/// last recorded is kept as it is; new content is written; absence removes
/// the file.
pub open spec fn decided(f: OutputFile, presence: Presence, action: SinkAction) -> bool {
    match presence {
        Presence::Present(content) => if f.last_content() == Some(content@) {
            action == SinkAction::Keep
        } else {
            action matches SinkAction::Write { path, content: written } && path@ == f.path_text() && written
                == content
        },
        Presence::Absent => action matches SinkAction::Remove { path } && path@ == f.path_text(),
    }
}

/// Recording that `action` was carried out takes file `before` to `after`.
pub open spec fn recorded(before: OutputFile, action: SinkAction, after: OutputFile) -> bool {
    &&& after.path_text() == before.path_text()
    &&& match action {
        SinkAction::Write { path: _, content } => after.last_content() == Some(content@),
        SinkAction::Remove { path: _ } => after.last_content() is None,
        SinkAction::Keep => after.last_content() == before.last_content(),
    }
}

/// Setting `presence` on `before` and recording the action once it was
/// carried out leaves `after`: the file holds the content, or nothing.
pub open spec fn set_and_recorded(before: OutputFile, presence: Presence, action: SinkAction, after: OutputFile) -> bool {
    decided(before, presence, action) && recorded(before, action, after)
}

/// The same content set twice touches the disk once: once the first write
/// is recorded, the second set keeps the file as it is.
pub proof fn law_same_content_written_once(
    f0: OutputFile,
    content: String,
    a1: SinkAction,
    f1: OutputFile,
    a2: SinkAction,
)
    requires
        set_and_recorded(f0, Presence::Present(content), a1, f1),
        decided(f1, Presence::Present(content), a2),
    ensures
        a2 == SinkAction::Keep,
        f1.last_content() == Some(content@),
{
}

/// Once a removal is recorded, the next content is written, even content
/// the file held before.
pub proof fn law_removed_file_is_rewritten(
    f0: OutputFile,
    a1: SinkAction,
    f1: OutputFile,
    content: String,
    a2: SinkAction,
)
    requires
        set_and_recorded(f0, Presence::Absent, a1, f1),
        decided(f1, Presence::Present(content), a2),
    ensures
        a2 matches SinkAction::Write { path, content: written } && path@ == f0.path_text() && written == content,
{
}

} // verus!
