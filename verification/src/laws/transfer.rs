//! What holds of the bytes of an upload, where reading a source yields what
//! the source holds.

use crate::cli::upload::{EventModel, Stage, UploadModel};
use vstd::prelude::*;

verus! {

/// An upload together with what it moves.
#[verifier::ext_equal]
pub struct Transfer {
    pub upload: UploadModel,
    /// Where the next byte of the source is read.
    pub cursor: int,
    pub buffer: Seq<u8>,
    /// What the server has of the file.
    pub stored: Seq<u8>,
}

/// `stored` with `data` written at `offset`.
pub open spec fn written(stored: Seq<u8>, offset: int, data: Seq<u8>) -> Seq<u8> {
    let end = offset + data.len();
    Seq::new(
        if end > stored.len() {
            end as nat
        } else {
            stored.len()
        },
        |i: int|
            if offset <= i < end {
                data[i - offset]
            } else {
                stored[i]
            },
    )
}

impl Transfer {
    /// Where a transfer stands after an event. Opening the source puts the
    /// cursor at the offset, reading fills the buffer behind what it holds,
    /// and a part that the server takes is what the buffer holds.
    pub open spec fn step(self, source: Seq<u8>, event: EventModel) -> Transfer {
        let u = self.upload;
        let next = Transfer { upload: u.step(event), ..self };
        match (u.stage, event) {
            (Stage::Open, EventModel::Opened) => Transfer {
                cursor: u.offset as int,
                buffer: Seq::new((u.part_size as usize) as nat, |i: int| 0u8),
                ..next
            },
            (Stage::Read, EventModel::Read { count }) => if u.filled + count <= u.window() {
                Transfer {
                    cursor: self.cursor + count,
                    buffer: written(
                        self.buffer,
                        u.filled as int,
                        Seq::new(count as nat, |i: int| source[self.cursor + i]),
                    ),
                    ..next
                }
            } else {
                next
            },
            (Stage::Send, EventModel::Answered { status, body }) => if
                crate::cli::http::is_success_status(status) {
                Transfer {
                    stored: written(
                        self.stored,
                        u.offset as int,
                        self.buffer.take(u.filled as int),
                    ),
                    ..next
                }
            } else {
                next
            },
            _ => next,
        }
    }

    /// Reading yields no more than the source has behind the cursor.
    pub open spec fn can_happen(self, source: Seq<u8>, event: EventModel) -> bool {
        self.upload.stage is Read && event is Read && event->Read_count > 0 ==> self.cursor
            + event->Read_count <= source.len()
    }

    /// Where a transfer stands after a series of events.
    pub open spec fn run(self, source: Seq<u8>, events: Seq<EventModel>) -> Transfer
        decreases events.len(),
    {
        if events.len() == 0 {
            self
        } else {
            self.run(source, events.drop_last()).step(source, events.last())
        }
    }

    /// Each of the events can happen, one after the other.
    pub open spec fn all_can_happen(self, source: Seq<u8>, events: Seq<EventModel>) -> bool
        decreases events.len(),
    {
        events.len() > 0 ==> self.all_can_happen(source, events.drop_last()) && self.run(
            source,
            events.drop_last(),
        ).can_happen(source, events.last())
    }

    /// A transfer whose source is about to be opened: the server has as many
    /// bytes as the upload says.
    pub open spec fn is_ready(self) -> bool {
        &&& self.upload.wf()
        &&& self.upload.stage is Open
        &&& self.stored.len() == self.upload.offset
    }

    /// What was read is the source's own: the cursor stands behind it, and
    /// the buffer holds the bytes of the source from the offset on.
    pub open spec fn holds_its_part(self, source: Seq<u8>) -> bool {
        let u = self.upload;
        &&& self.cursor == u.offset + u.filled
        &&& u.filled <= self.buffer.len()
        &&& u.filled > 0 ==> self.cursor <= source.len()
        &&& forall|i: int| 0 <= i < u.filled ==> #[trigger] self.buffer[i] == source[u.offset + i]
    }

    /// A part is being read or sent.
    pub open spec fn has_a_part(self) -> bool {
        self.upload.stage is Read || self.upload.stage is Send || self.upload.stage is Wait
    }

    /// What the server got since `start` is the source's own, each byte at its
    /// place, and what it had is still there.
    pub open spec fn has_stored_since(self, start: Transfer, source: Seq<u8>) -> bool {
        &&& self.stored.len() == self.upload.offset
        &&& start.upload.offset <= self.upload.offset
        &&& self.upload.offset > start.upload.offset ==> self.upload.offset <= source.len()
        &&& forall|i: int|
            0 <= i < self.upload.offset ==> #[trigger] self.stored[i] == if i
                < start.upload.offset {
                start.stored[i]
            } else {
                source[i]
            }
    }
}

/// Everything that holds of a transfer since `start`.
spec fn is_faithful(t: Transfer, start: Transfer, source: Seq<u8>) -> bool {
    &&& t.upload.wf()
    &&& t.has_a_part() ==> t.holds_its_part(source) && t.buffer.len() == t.upload.part_size as usize
    &&& t.has_stored_since(start, source)
    &&& match t.upload.stage {
        Stage::AskPartSize
        | Stage::CheckFinal
        | Stage::FindPartial
        | Stage::AskRoot
        | Stage::Create => false,
        _ => true,
    }
}

proof fn lemma_step_is_faithful(t: Transfer, start: Transfer, source: Seq<u8>, event: EventModel)
    requires
        is_faithful(t, start, source),
        t.can_happen(source, event),
    ensures
        is_faithful(t.step(source, event), start, source),
{
    let u = t.upload;
    let next = t.step(source, event);
    assert(u.step(event).wf());
    match (u.stage, event) {
        (Stage::Read, EventModel::Read { count }) => {
            if u.filled + count <= u.window() {
                let read = Seq::new(count as nat, |i: int| source[t.cursor + i]);
                assert(next.buffer.len() == t.buffer.len());
                assert forall|i: int| 0 <= i < u.filled + count implies #[trigger] next.buffer[i]
                    == source[u.offset + i] by {
                    if i < u.filled {
                        assert(next.buffer[i] == t.buffer[i]);
                    } else {
                        assert(next.buffer[i] == read[i - u.filled]);
                    }
                }
            }
        },
        (Stage::Send, EventModel::Answered { status, body }) => {
            if crate::cli::http::is_success_status(status) {
                let part = t.buffer.take(u.filled as int);
                assert(next.stored.len() == u.offset + u.filled);
                assert forall|i: int| 0 <= i < u.offset + u.filled implies #[trigger] next.stored[i]
                    == if i < start.upload.offset {
                    start.stored[i]
                } else {
                    source[i]
                } by {
                    if i < u.offset {
                        assert(next.stored[i] == t.stored[i]);
                    } else {
                        assert(next.stored[i] == part[i - u.offset]);
                        assert(part[i - u.offset] == t.buffer[i - u.offset]);
                    }
                }
            }
        },
        _ => {},
    }
}

proof fn lemma_run_is_faithful(start: Transfer, source: Seq<u8>, events: Seq<EventModel>)
    requires
        start.is_ready(),
        start.all_can_happen(source, events),
    ensures
        is_faithful(start.run(source, events), start, source),
    decreases events.len(),
{
    if events.len() > 0 {
        lemma_run_is_faithful(start, source, events.drop_last());
        lemma_step_is_faithful(
            start.run(source, events.drop_last()),
            start,
            source,
            events.last(),
        );
    }
}

/// A transfer follows its upload.
pub proof fn transfers_follow_their_uploads(
    start: Transfer,
    source: Seq<u8>,
    events: Seq<EventModel>,
)
    ensures
        start.run(source, events).upload == super::upload::run(start.upload, events),
    decreases events.len(),
{
    if events.len() > 0 {
        transfers_follow_their_uploads(start, source, events.drop_last());
    }
}

/// A part holds the source's own bytes: while one is read or sent, the buffer
/// holds the bytes of the source from the offset on, and reading goes on right
/// behind them.
pub proof fn parts_hold_the_bytes_of_the_source(
    start: Transfer,
    source: Seq<u8>,
    events: Seq<EventModel>,
)
    requires
        start.is_ready(),
        start.all_can_happen(source, events),
        start.run(source, events).has_a_part(),
    ensures
        start.run(source, events).holds_its_part(source),
{
    lemma_run_is_faithful(start, source, events);
}

/// The server gets the source's own bytes, each at its place, and keeps what
/// it had.
pub proof fn servers_get_the_bytes_of_the_source(
    start: Transfer,
    source: Seq<u8>,
    events: Seq<EventModel>,
)
    requires
        start.is_ready(),
        start.all_can_happen(source, events),
    ensures
        start.run(source, events).has_stored_since(start, source),
{
    lemma_run_is_faithful(start, source, events);
}

/// A published file is the source, byte by byte and up to the size that it had
/// when the upload started, if what the server had of it before is the
/// beginning of the source.
pub proof fn published_files_are_the_source(
    start: Transfer,
    source: Seq<u8>,
    events: Seq<EventModel>,
)
    requires
        start.is_ready(),
        start.all_can_happen(source, events),
        start.upload.offset <= source.len(),
        start.stored == source.take(start.upload.offset as int),
        start.run(source, events).upload.stage is Done,
    ensures
        start.upload.total <= source.len(),
        start.run(source, events).stored == source.take(start.upload.total as int),
{
    lemma_run_is_faithful(start, source, events);
    transfers_follow_their_uploads(start, source, events);
    super::upload::uploads_stay_sound(start.upload, events);
    assert(start.run(source, events).stored =~= source.take(start.upload.total as int));
}

/// A source that has become shorter than it was is never published, as long as
/// something of it is left to send.
pub proof fn shortened_sources_are_never_published(
    start: Transfer,
    source: Seq<u8>,
    events: Seq<EventModel>,
)
    requires
        start.is_ready(),
        start.all_can_happen(source, events),
        start.upload.offset < start.upload.total,
        source.len() < start.upload.total,
    ensures
        !(start.run(source, events).upload.stage is Publish),
        !(start.run(source, events).upload.stage is Done),
{
    lemma_run_is_faithful(start, source, events);
    transfers_follow_their_uploads(start, source, events);
    super::upload::uploads_stay_sound(start.upload, events);
}

} // verus!
