//! Decisions behind the dashboard's REST endpoints.

use vstd::prelude::*;
use crate::daemon::WebReply;
use crate::error::{AppError, error_text};
use crate::history::{HistoryEntry, EntryView, entry_views};

verus! {

/// How many recent entries `/api/history` returns by default.
pub fn default_count() -> (n: usize)
    ensures
        n == 20,
{
    20
}

/// How many recent entries are searched for a frame by id.
pub const HISTORY_LOOKUP_LIMIT: usize = 1000;

/// Query parameters for history pagination.
#[derive(Debug)]
pub struct HistoryQuery {
    pub count: usize,
}

impl HistoryQuery {
    /// The query for a requested count, or the default count when none was given.
    pub fn from_request(count: Option<usize>) -> (q: HistoryQuery)
        ensures
            q.count == match count {
                Some(c) => c,
                None => 20,
            },
    {
        match count {
            Some(c) => HistoryQuery { count: c },
            None => HistoryQuery { count: default_count() },
        }
    }
}

/// Where a history frame is to be found.
#[derive(Debug)]
pub enum FrameLookup {
    /// Read the frame file at this path.
    Read(String),
    /// No such entry, or the entry has no frame.
    EntryNotFound,
}

/// Index of the first entry with the given id, if any.
pub open spec fn first_with_id(entries: Seq<EntryView>, id: Seq<char>, i: int) -> bool {
    &&& 0 <= i < entries.len()
    &&& entries[i].id == id
    &&& forall|j: int| 0 <= j < i ==> #[trigger] entries[j].id != id
}

/// Finds the frame of the first entry carrying `id`.
pub fn find_history_frame(entries: &Vec<HistoryEntry>, id: &String) -> (r: FrameLookup)
    ensures
        match r {
            FrameLookup::Read(p) => exists|i: int| #[trigger] first_with_id(entry_views(entries@), id@, i)
                && entry_views(entries@)[i].frame_path == Some(p@),
            FrameLookup::EntryNotFound => forall|i: int| #[trigger] first_with_id(entry_views(entries@), id@, i)
                ==> entry_views(entries@)[i].frame_path is None,
        },
{
    let n = entries.len();
    let mut i: usize = 0;
    while i < n
        invariant
            n == entries@.len(),
            i <= n,
            forall|j: int| 0 <= j < i ==> #[trigger] entries@[j].id@ != id@,
        decreases n - i,
    {
        if entries[i].id == *id {
            let ghost v = entry_views(entries@);
            assert(first_with_id(v, id@, i as int));
            match &entries[i].frame_path {
                Some(p) => {
                    return FrameLookup::Read(p.clone());
                },
                None => {
                    assert forall|k: int| #[trigger] first_with_id(v, id@, k) implies v[k].frame_path is None by {
                        assert(k == i);
                    }
                    return FrameLookup::EntryNotFound;
                },
            }
        }
        i = i + 1;
    }
    FrameLookup::EntryNotFound
}

/// The reply to a history frame request: the file's bytes, or `404` when
/// the file could not be read or the entry was not found.
pub fn history_frame_reply(lookup: &FrameLookup, file: Option<Vec<u8>>) -> (r: WebReply)
    ensures
        match lookup {
            FrameLookup::EntryNotFound => r matches WebReply::Text { status, body } && status == 404 && body@ == "entry not found"@,
            FrameLookup::Read(_) => match file {
                Some(data) => r matches WebReply::Jpeg(d) && d@ == data@,
                None => r matches WebReply::Text { status, body } && status == 404 && body@ == "frame file not found"@,
            },
        },
{
    match lookup {
        FrameLookup::EntryNotFound => WebReply::Text { status: 404, body: String::from_str("entry not found") },
        FrameLookup::Read(_) => match file {
            Some(data) => WebReply::Jpeg(data),
            None => WebReply::Text { status: 404, body: String::from_str("frame file not found") },
        },
    }
}

/// The reply to the emergency stop button, given the outcome of stopping
/// the motors (`None` without a motor controller), and whether the
/// watchdog is to be pinged.
pub fn stop_reply(stopped: Option<Result<(), AppError>>) -> (r: (WebReply, bool))
    ensures
        match stopped {
            Some(Err(e)) => {
                &&& r.0 matches WebReply::Text { status, body } && status == 500 && body@ == "failed to stop: "@ + error_text(e)
                &&& !r.1
            },
            _ => {
                &&& r.0 matches WebReply::Text { status, body } && status == 200 && body@ == "stopped"@
                &&& r.1
            },
        },
{
    match stopped {
        Some(Err(e)) => {
            let mut body = String::from_str("failed to stop: ");
            let m = e.message();
            body.append(m.as_str());
            (WebReply::Text { status: 500, body }, false)
        },
        _ => (WebReply::Text { status: 200, body: String::from_str("stopped") }, true),
    }
}

/// The first entry with an id is one and only one, and there is one
/// whenever any entry carries the id.
pub proof fn lemma_first_with_id_unique(entries: Seq<EntryView>, id: Seq<char>, i: int, j: int)
    ensures
        first_with_id(entries, id, i) && first_with_id(entries, id, j) ==> i == j,
        0 <= j < entries.len() && entries[j].id == id ==> exists|k: int| 0 <= k <= j && #[trigger] first_with_id(entries, id, k),
    decreases j,
{
    if 0 <= j < entries.len() && entries[j].id == id {
        if forall|k: int| 0 <= k < j ==> #[trigger] entries[k].id != id {
            assert(first_with_id(entries, id, j));
        } else {
            let k = choose|k: int| 0 <= k < j && entries[k].id == id;
            lemma_first_with_id_unique(entries, id, i, k);
        }
    }
}

} // verus!
