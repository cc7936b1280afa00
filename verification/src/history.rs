//! History of the autonomous cycles: each captured frame opens an entry,
//! reasoning messages and the motor command of the cycle are added to the
//! latest entry, and only the newest entries are kept.

use vstd::prelude::*;
use crate::speed::Speed;
use crate::text::{append_decimal, decimal_text};
use crate::time::{Timestamp, clock_now, format_stamp, strftime_text, CLOCK_UNREADABLE, STAMP_PATTERN};
use crate::listing::{names_sorted, sort_names};

verus! {

/// `std::io::Error`, carried through from the stores that touch the disk.
#[verifier::external_type_specification]
#[verifier::external_body]
pub struct ExIoError(std::io::Error);

/// An error of kind `Other` carrying `message`, through `std::io::Error::new`.
/// Nothing is said of the value.
#[verifier::external_body]
fn other_io_error(message: &str) -> (e: std::io::Error) {
    std::io::Error::new(std::io::ErrorKind::Other, message)
}

/// A recorded motor command.
#[derive(Clone, Copy, PartialEq, Eq, Structural, Debug)]
pub struct CommandRecord {
    pub left: Speed,
    pub right: Speed,
    pub timestamp: Timestamp,
}

/// How many entries the daemon's history keeps.
pub const HISTORY_RETENTION: usize = 1000;

/// A single history entry: one autonomous cycle.
#[derive(Debug)]
pub struct HistoryEntry {
    pub id: String,
    pub timestamp: Timestamp,
    pub frame_path: Option<String>,
    pub reasoning: Vec<String>,
    pub command: Option<CommandRecord>,
}

/// What an entry holds, as text.
pub struct EntryView {
    pub id: Seq<char>,
    pub timestamp: Timestamp,
    pub frame_path: Option<Seq<char>>,
    pub reasoning: Seq<Seq<char>>,
    pub command: Option<CommandRecord>,
}

pub open spec fn opt_text(o: Option<String>) -> Option<Seq<char>> {
    match o {
        Some(s) => Some(s@),
        None => None,
    }
}

pub open spec fn texts(v: Seq<String>) -> Seq<Seq<char>> {
    v.map_values(|s: String| s@)
}

impl View for HistoryEntry {
    type V = EntryView;

    open spec fn view(&self) -> EntryView {
        EntryView {
            id: self.id@,
            timestamp: self.timestamp,
            frame_path: opt_text(self.frame_path),
            reasoning: texts(self.reasoning@),
            command: self.command,
        }
    }
}

/// A fresh entry for a captured frame.
pub open spec fn fresh_entry(id: Seq<char>, timestamp: Timestamp, frame_path: Seq<char>) -> EntryView {
    EntryView {
        id,
        timestamp,
        frame_path: Some(frame_path),
        reasoning: Seq::empty(),
        command: None,
    }
}

/// The entry with one more reasoning message.
pub open spec fn with_reasoning(e: EntryView, message: Seq<char>) -> EntryView {
    EntryView { reasoning: e.reasoning.push(message), ..e }
}

/// The record of a command sent at `t`.
pub open spec fn command_record(left: Speed, right: Speed, t: Timestamp) -> CommandRecord {
    CommandRecord { left, right, timestamp: t }
}

/// The entry with its command replaced.
pub open spec fn with_command(e: EntryView, c: CommandRecord) -> EntryView {
    EntryView { command: Some(c), ..e }
}

/// Retention: only the newest `max` items stay.
pub open spec fn keep_newest<A>(s: Seq<A>, max: nat) -> Seq<A> {
    if s.len() > max { s.subrange(s.len() - max, s.len() as int) } else { s }
}

/// The newest `count` items, newest first.
pub open spec fn newest_first<A>(s: Seq<A>, count: nat) -> Seq<A> {
    Seq::new(
        if count < s.len() { count } else { s.len() },
        |i: int| s[s.len() - 1 - i],
    )
}

/// The oldest `n` items of an ascending sequence.
pub open spec fn oldest<A>(s: Seq<A>, n: nat) -> Seq<A> {
    if n < s.len() { s.subrange(0, n as int) } else { s }
}

/// How many of `count` stored entries exceed a retention limit of `max`.
pub open spec fn excess(count: nat, max: nat) -> nat {
    if count > max { (count - max) as nat } else { 0 }
}

impl Clone for HistoryEntry {
    fn clone(&self) -> (r: Self)
        ensures
            r@ == self@,
    {
        let frame_path = match &self.frame_path {
            Some(p) => Some(p.clone()),
            None => None,
        };
        let mut reasoning: Vec<String> = Vec::new();
        let n = self.reasoning.len();
        for i in 0..n
            invariant
                n == self.reasoning@.len(),
                reasoning@.len() == i,
                forall|j: int| 0 <= j < i ==> #[trigger] reasoning@[j]@ == self.reasoning@[j]@,
        {
            reasoning.push(self.reasoning[i].clone());
        }
        proof {
            assert(texts(reasoning@) =~= texts(self.reasoning@));
        }
        HistoryEntry {
            id: self.id.clone(),
            timestamp: self.timestamp,
            frame_path,
            reasoning,
            command: self.command,
        }
    }
}

impl HistoryEntry {
    /// A fresh entry for a captured frame.
    pub fn new_for_frame(id: String, timestamp: Timestamp, frame_path: &str) -> (e: HistoryEntry)
        ensures
            e@ == fresh_entry(id@, timestamp, frame_path@),
    {
        let e = HistoryEntry {
            id,
            timestamp,
            frame_path: Some(String::from_str(frame_path)),
            reasoning: Vec::new(),
            command: None,
        };
        proof {
            assert(texts(e.reasoning@) =~= Seq::<Seq<char>>::empty());
        }
        e
    }

    /// Appends a reasoning message.
    pub fn add_reasoning(&mut self, message: &str)
        ensures
            final(self)@ == with_reasoning(old(self)@, message@),
    {
        self.reasoning.push(String::from_str(message));
        proof {
            assert(texts(self.reasoning@) =~= texts(old(self).reasoning@).push(message@));
        }
    }
}

/// A store of history entries.
pub trait HistoryStore {
    /// Creates a new entry for a captured frame and returns its id.
    fn create_entry(&mut self, frame_path: &str) -> Result<String, std::io::Error>;

    /// Appends a reasoning message to the current (latest) entry.
    fn append_reasoning(&mut self, message: &str) -> Result<(), std::io::Error>;

    /// Records a motor command in the current entry.
    fn record_command(&mut self, left: Speed, right: Speed) -> Result<(), std::io::Error>;

    /// The `count` most recent entries, newest first.
    fn recent(&self, count: usize) -> Vec<HistoryEntry>;

    /// The number of entries held.
    fn entry_count(&self) -> u64;
}

/// History kept in memory, with the same retention rule as on disk.
pub struct InMemoryHistoryStore {
    entries: Vec<HistoryEntry>,
    max_entries: usize,
}

pub open spec fn entry_views(v: Seq<HistoryEntry>) -> Seq<EntryView> {
    v.map_values(|e: HistoryEntry| e@)
}

/// Id of the entry created when `n` entries are held: `entry-<n>`.
pub open spec fn memory_entry_id(n: nat) -> Seq<char> {
    "entry-"@ + decimal_text(n)
}

impl View for InMemoryHistoryStore {
    type V = Seq<EntryView>;

    closed spec fn view(&self) -> Seq<EntryView> {
        entry_views(self.entries@)
    }
}

impl InMemoryHistoryStore {
    /// The retention limit.
    pub closed spec fn limit(&self) -> nat {
        self.max_entries as nat
    }

    /// An empty store keeping at most `max_entries` entries.
    pub fn new(max_entries: usize) -> (s: Self)
        ensures
            s@ == Seq::<EntryView>::empty(),
            s.limit() == max_entries,
    {
        let s = InMemoryHistoryStore { entries: Vec::new(), max_entries };
        proof {
            assert(entry_views(s.entries@) =~= Seq::<EntryView>::empty());
        }
        s
    }

    /// Creates an entry stamped `now`, then drops the oldest entries beyond
    /// the limit.
    pub fn create_entry_at(&mut self, frame_path: &str, now: Timestamp) -> (id: String)
        ensures
            id@ == memory_entry_id(old(self)@.len()),
            final(self)@ == keep_newest(old(self)@.push(fresh_entry(id@, now, frame_path@)), old(self).limit()),
            final(self).limit() == old(self).limit(),
    {
        let n = self.entries.len();
        let mut id = String::from_str("entry-");
        append_decimal(&mut id, n as u64);
        let entry = HistoryEntry::new_for_frame(id.clone(), now, frame_path);
        self.entries.push(entry);
        let ghost full = entry_views(self.entries@);
        proof {
            assert(full =~= entry_views(old(self).entries@).push(fresh_entry(id@, now, frame_path@)));
        }
        let ghost mut k: int = 0;
        while self.entries.len() > self.max_entries
            invariant
                0 <= k <= full.len(),
                entry_views(self.entries@) =~= full.subrange(k, full.len() as int),
                k > 0 ==> full.len() - k >= self.max_entries,
                self.max_entries == old(self).max_entries,
            decreases self.entries.len(),
        {
            let ghost before = self.entries@;
            self.entries.remove(0);
            proof {
                assert(entry_views(before).len() == before.len());
                assert(entry_views(self.entries@) =~= entry_views(before).subrange(1, before.len() as int));
                k = k + 1;
            }
        }
        proof {
            assert(entry_views(self.entries@) =~= keep_newest(full, self.max_entries as nat));
        }
        id
    }

    /// Appends a reasoning message to the latest entry, if there is one.
    pub fn append_reasoning_to_latest(&mut self, message: &str)
        ensures
            old(self)@.len() == 0 ==> final(self)@ == old(self)@,
            old(self)@.len() > 0 ==> final(self)@ == old(self)@.update(
                old(self)@.len() - 1,
                with_reasoning(old(self)@.last(), message@),
            ),
            final(self).limit() == old(self).limit(),
    {
        if self.entries.len() > 0 {
            let mut last = self.entries.pop().unwrap();
            last.add_reasoning(message);
            self.entries.push(last);
            proof {
                assert(entry_views(self.entries@) =~= entry_views(old(self).entries@).update(
                    old(self).entries@.len() - 1,
                    with_reasoning(entry_views(old(self).entries@).last(), message@),
                ));
            }
        }
    }

    /// Sets the command of the latest entry, if there is one.
    pub fn record_command_at(&mut self, left: Speed, right: Speed, now: Timestamp)
        ensures
            old(self)@.len() == 0 ==> final(self)@ == old(self)@,
            old(self)@.len() > 0 ==> final(self)@ == old(self)@.update(
                old(self)@.len() - 1,
                with_command(old(self)@.last(), CommandRecord { left, right, timestamp: now }),
            ),
            final(self).limit() == old(self).limit(),
    {
        if self.entries.len() > 0 {
            let mut last = self.entries.pop().unwrap();
            last.command = Some(CommandRecord { left, right, timestamp: now });
            self.entries.push(last);
            proof {
                assert(entry_views(self.entries@) =~= entry_views(old(self).entries@).update(
                    old(self).entries@.len() - 1,
                    with_command(
                        entry_views(old(self).entries@).last(),
                        CommandRecord { left, right, timestamp: now },
                    ),
                ));
            }
        }
    }
}

impl HistoryStore for InMemoryHistoryStore {
    /// The entry is stamped with the clock's reading; when the clock cannot
    /// be read, nothing changes and the error says so.
    fn create_entry(&mut self, frame_path: &str) -> (r: Result<String, std::io::Error>)
        ensures
            exists|now: Option<Timestamp>| #[trigger] call_ensures(clock_now, (), now) && match now {
                None => r is Err && final(self)@ == old(self)@,
                Some(t) => {
                    &&& r matches Ok(id) && id@ == memory_entry_id(old(self)@.len())
                    &&& final(self)@ == keep_newest(
                        old(self)@.push(fresh_entry(memory_entry_id(old(self)@.len()), t, frame_path@)),
                        old(self).limit(),
                    )
                },
            },
            final(self).limit() == old(self).limit(),
    {
        let now = clock_now();
        match now {
            None => Err(other_io_error(CLOCK_UNREADABLE)),
            Some(now) => {
                let id = self.create_entry_at(frame_path, now);
                Ok(id)
            },
        }
    }

    fn append_reasoning(&mut self, message: &str) -> (r: Result<(), std::io::Error>)
        ensures
            r is Ok,
            old(self)@.len() == 0 ==> final(self)@ == old(self)@,
            old(self)@.len() > 0 ==> final(self)@ == old(self)@.update(
                old(self)@.len() - 1,
                with_reasoning(old(self)@.last(), message@),
            ),
            final(self).limit() == old(self).limit(),
    {
        self.append_reasoning_to_latest(message);
        Ok(())
    }

    /// The command is stamped with the clock's reading; when the clock
    /// cannot be read, nothing changes and the error says so.
    fn record_command(&mut self, left: Speed, right: Speed) -> (r: Result<(), std::io::Error>)
        ensures
            old(self)@.len() == 0 ==> r is Ok && final(self)@ == old(self)@,
            old(self)@.len() > 0 ==> exists|now: Option<Timestamp>| #[trigger] call_ensures(clock_now, (), now) && match now {
                None => r is Err && final(self)@ == old(self)@,
                Some(t) => r is Ok && final(self)@ == old(self)@.update(
                    old(self)@.len() - 1,
                    with_command(old(self)@.last(), command_record(left, right, t)),
                ),
            },
            final(self).limit() == old(self).limit(),
    {
        if self.entries.len() == 0 {
            return Ok(());
        }
        let now = clock_now();
        match now {
            None => Err(other_io_error(CLOCK_UNREADABLE)),
            Some(now) => {
                self.record_command_at(left, right, now);
                assert(command_record(left, right, now) == CommandRecord { left, right, timestamp: now });
                Ok(())
            },
        }
    }

    fn recent(&self, count: usize) -> (r: Vec<HistoryEntry>)
        ensures
            entry_views(r@) == newest_first(self@, count as nat),
    {
        let n = self.entries.len();
        let mut r: Vec<HistoryEntry> = Vec::new();
        let mut i: usize = 0;
        while i < count && i < n
            invariant
                n == self.entries@.len(),
                i <= n,
                i <= count,
                r@.len() == i,
                forall|j: int| 0 <= j < i ==> #[trigger] r@[j]@ == self.entries@[n - 1 - j]@,
            decreases n - i,
        {
            r.push(self.entries[n - 1 - i].clone());
            i = i + 1;
        }
        proof {
            let v = entry_views(self.entries@);
            let w = newest_first(v, count as nat);
            assert(v.len() == n);
            assert(w.len() == i);
            assert forall|j: int| 0 <= j < i implies #[trigger] entry_views(r@)[j] == w[j] by {
                assert(r@[j]@ == self.entries@[n - 1 - j]@);
            }
            assert(entry_views(r@) =~= w);
        }
        r
    }

    fn entry_count(&self) -> (c: u64)
        ensures
            c == self@.len(),
    {
        self.entries.len() as u64
    }
}

/// The disk operations behind the persistent store, on entry directories
/// named by entry ids. Nothing is promised of what a disk answers: a write
/// may fail, a removal may be refused, a listing or a read may hold
/// anything. The store states what it does for every answer.
pub trait EntryDisk {
    /// Writes an entry into the directory named by its id.
    fn save_entry(&mut self, entry: &HistoryEntry) -> Result<(), std::io::Error>;

    /// Reads the entry stored in the named directory, if it can be read.
    fn load_entry(&self, name: &String) -> Option<HistoryEntry>;

    /// The names of the entry directories, in any order.
    fn list_entry_names(&self) -> Vec<String>;

    /// Removes the named entry directory; a failure is only reported.
    fn remove_entry_dir(&mut self, name: &String);
}

/// `raw` is a listing the disk answers.
pub open spec fn listed<D: EntryDisk>(disk: D, raw: Seq<String>) -> bool {
    exists|v: Vec<String>| #![trigger call_ensures(D::list_entry_names, (&disk,), v)]
        v@ == raw && call_ensures(D::list_entry_names, (&disk,), v)
}

/// `l` is the listing `raw` in ascending order: the same names, sorted.
pub open spec fn sorted_listing(raw: Seq<String>, l: Seq<String>) -> bool {
    &&& l.to_multiset() == raw.to_multiset()
    &&& names_sorted(l)
}

/// What `recent` read: the disk listed `raw`, whose ascending order is `l`,
/// and each of the newest `count` names of `l`, newest first, read back as
/// the corresponding item of `loads`.
pub open spec fn recent_reads<D: EntryDisk>(disk: D, count: nat, raw: Seq<String>, l: Seq<String>, loads: Seq<Option<HistoryEntry>>) -> bool {
    &&& listed(disk, raw)
    &&& sorted_listing(raw, l)
    &&& loads.len() == newest_first(l, count).len()
    &&& forall|i: int| 0 <= i < loads.len() ==> call_ensures(D::load_entry, (&disk, &newest_first(l, count)[i]), #[trigger] loads[i])
}

fn save_to<D: EntryDisk>(disk: &mut D, entry: &HistoryEntry) -> (r: Result<(), std::io::Error>)
    ensures
        exists|m: &mut D| #![trigger call_ensures(D::save_entry, (m, entry), r)]
            *m == *old(disk) && *final(m) == *final(disk) && call_ensures(D::save_entry, (m, entry), r),
{
    disk.save_entry(entry)
}

fn remove_from<D: EntryDisk>(disk: &mut D, name: &String)
    ensures
        exists|m: &mut D| #![trigger call_ensures(D::remove_entry_dir, (m, name), ())]
            *m == *old(disk) && *final(m) == *final(disk) && call_ensures(D::remove_entry_dir, (m, name), ()),
{
    disk.remove_entry_dir(name)
}

fn list_of<D: EntryDisk>(disk: &D) -> (r: Vec<String>)
    ensures
        listed(*disk, r@),
{
    let r = disk.list_entry_names();
    assert(call_ensures(D::list_entry_names, (disk,), r));
    r
}

fn load_from<D: EntryDisk>(disk: &D, name: &String) -> (r: Option<HistoryEntry>)
    ensures
        call_ensures(D::load_entry, (disk, name), r),
{
    disk.load_entry(name)
}

/// Asks the disk to remove each of the named directories in turn, first to
/// last: the `j`-th removal is made on the disk the one before it left.
pub fn remove_entry_dirs<D: EntryDisk>(disk: &mut D, names: &Vec<String>)
    ensures
        exists|ms: Seq<&mut D>| #![trigger ms.len()]
            {
                &&& ms.len() == names@.len()
                &&& (forall|j: int| 0 <= j < ms.len() ==> call_ensures(D::remove_entry_dir, (#[trigger] ms[j], &names@[j]), ()))
                &&& (forall|j: int| 0 <= j < ms.len() - 1 ==> *final(#[trigger] ms[j]) == *ms[j + 1])
                &&& (ms.len() == 0 ==> *final(disk) == *old(disk))
                &&& (ms.len() > 0 ==> *ms[0] == *old(disk) && *final(ms.last()) == *final(disk))
            },
        forall|model: spec_fn(D) -> Seq<Seq<char>>| #![trigger model(*final(disk))]
            (forall|m: &mut D, n: String| #[trigger] call_ensures(D::remove_entry_dir, (m, &n), ())
                ==> model(*final(m)) == without(model(*m), n@))
            ==> model(*final(disk)) == after_removals(model(*old(disk)), texts(names@)),
{
    let n = names.len();
    let mut i: usize = 0;
    assert(exists|ms: Seq<&mut D>| #![trigger ms.len()]
        {
            &&& ms.len() == 0
            &&& (forall|j: int| 0 <= j < ms.len() ==> call_ensures(D::remove_entry_dir, (#[trigger] ms[j], &names@[j]), ()))
            &&& (forall|j: int| 0 <= j < ms.len() - 1 ==> *final(#[trigger] ms[j]) == *ms[j + 1])
            &&& (ms.len() == 0 ==> *disk == *old(disk))
            &&& (ms.len() > 0 ==> *ms[0] == *old(disk) && *final(ms.last()) == *disk)
        }) by {
        let e = Seq::<&mut D>::empty();
        assert(e.len() == 0);
    }
    assert(texts(names@.subrange(0, 0)) =~= Seq::<Seq<char>>::empty());
    while i < n
        invariant
            n == names@.len(),
            i <= n,
            exists|ms: Seq<&mut D>| #![trigger ms.len()]
                {
                    &&& ms.len() == i
                    &&& (forall|j: int| 0 <= j < ms.len() ==> call_ensures(D::remove_entry_dir, (#[trigger] ms[j], &names@[j]), ()))
                    &&& (forall|j: int| 0 <= j < ms.len() - 1 ==> *final(#[trigger] ms[j]) == *ms[j + 1])
                    &&& (ms.len() == 0 ==> *disk == *old(disk))
                    &&& (ms.len() > 0 ==> *ms[0] == *old(disk) && *final(ms.last()) == *disk)
                },
            forall|model: spec_fn(D) -> Seq<Seq<char>>| #![trigger model(*disk)]
                (forall|m: &mut D, n: String| #[trigger] call_ensures(D::remove_entry_dir, (m, &n), ())
                ==> model(*final(m)) == without(model(*m), n@))
                ==> model(*disk) == after_removals(model(*old(disk)), texts(names@.subrange(0, i as int))),
        decreases n - i,
    {
        let ghost before = *disk;
        remove_from(disk, &names[i]);
        assert forall|model: spec_fn(D) -> Seq<Seq<char>>| #![trigger model(*disk)]
            (forall|m: &mut D, n: String| #[trigger] call_ensures(D::remove_entry_dir, (m, &n), ())
                ==> model(*final(m)) == without(model(*m), n@))
            implies model(*disk) == after_removals(model(*old(disk)), texts(names@.subrange(0, i + 1))) by {
            let m = choose|m: &mut D| #![trigger call_ensures(D::remove_entry_dir, (m, &names@[i as int]), ())]
                *m == before && *final(m) == *disk && call_ensures(D::remove_entry_dir, (m, &names@[i as int]), ());
            assert(model(*final(m)) == without(model(*m), names@[i as int]@));
            assert(model(before) == after_removals(model(*old(disk)), texts(names@.subrange(0, i as int))));
            assert(texts(names@.subrange(0, i + 1)) =~= texts(names@.subrange(0, i as int)).push(names@[i as int]@));
            lemma_after_removals_push(model(*old(disk)), texts(names@.subrange(0, i as int)), names@[i as int]@);
        }
        assert(exists|ms: Seq<&mut D>| #![trigger ms.len()]
            {
                &&& ms.len() == i + 1
                &&& (forall|j: int| 0 <= j < ms.len() ==> call_ensures(D::remove_entry_dir, (#[trigger] ms[j], &names@[j]), ()))
                &&& (forall|j: int| 0 <= j < ms.len() - 1 ==> *final(#[trigger] ms[j]) == *ms[j + 1])
                &&& (ms.len() == 0 ==> *disk == *old(disk))
                &&& (ms.len() > 0 ==> *ms[0] == *old(disk) && *final(ms.last()) == *disk)
            }) by {
            let ms0 = choose|ms: Seq<&mut D>| #![trigger ms.len()]
                {
                    &&& ms.len() == i
                    &&& (forall|j: int| 0 <= j < ms.len() ==> call_ensures(D::remove_entry_dir, (#[trigger] ms[j], &names@[j]), ()))
                    &&& (forall|j: int| 0 <= j < ms.len() - 1 ==> *final(#[trigger] ms[j]) == *ms[j + 1])
                    &&& (ms.len() == 0 ==> before == *old(disk))
                    &&& (ms.len() > 0 ==> *ms[0] == *old(disk) && *final(ms.last()) == before)
                };
            let m = choose|m: &mut D| #![trigger call_ensures(D::remove_entry_dir, (m, &names@[i as int]), ())]
                *m == before && *final(m) == *disk && call_ensures(D::remove_entry_dir, (m, &names@[i as int]), ());
            let ms1 = ms0.push(m);
            assert(ms1.len() == i + 1);
            assert forall|j: int| 0 <= j < ms1.len() implies call_ensures(D::remove_entry_dir, (#[trigger] ms1[j], &names@[j]), ()) by {
                if j < i {
                    assert(ms1[j] == ms0[j]);
                }
            }
            assert forall|j: int| 0 <= j < ms1.len() - 1 implies *final(#[trigger] ms1[j]) == *ms1[j + 1] by {
                if j < i - 1 {
                    assert(ms1[j] == ms0[j] && ms1[j + 1] == ms0[j + 1]);
                } else {
                    assert(ms1[j] == ms0.last());
                }
            }
            if i == 0 {
                assert(ms1[0] == m);
            } else {
                assert(ms1[0] == ms0[0]);
            }
        }
        i = i + 1;
    }
    assert(names@.subrange(0, n as int) =~= names@);
}

/// Retention on a disk: the directories are listed, put in ascending order,
/// and those beyond the newest `max` are removed, oldest first, by
/// `remove_entry_dirs`.
pub fn retain_newest<D: EntryDisk>(disk: &mut D, max: usize)
    ensures
        exists|raw: Seq<String>, l: Seq<String>, v: Vec<String>, m: &mut D|
            #![trigger listed(*old(disk), raw), sorted_listing(raw, l), call_ensures(remove_entry_dirs::<D>, (m, &v), ())]
            {
                &&& listed(*old(disk), raw)
                &&& sorted_listing(raw, l)
                &&& v@ == oldest(l, excess(l.len(), max as nat))
                &&& *m == *old(disk)
                &&& *final(m) == *final(disk)
                &&& call_ensures(remove_entry_dirs::<D>, (m, &v), ())
                &&& forall|model: spec_fn(D) -> Seq<Seq<char>>| #![trigger model(*final(disk))]
                    lists_as(model) && (forall|m: &mut D, n: String| #[trigger] call_ensures(D::remove_entry_dir, (m, &n), ())
                        ==> model(*final(m)) == without(model(*m), n@)) && model(*old(disk)).no_duplicates() ==> {
                        &&& model(*final(disk)).len() == if model(*old(disk)).len() > max {
                            max as nat
                        } else {
                            model(*old(disk)).len()
                        }
                        &&& forall|x: Seq<char>| #[trigger] model(*final(disk)).contains(x)
                            <==> texts(keep_newest(l, max as nat)).contains(x)
                    }
            },
{
    let raw = list_of(disk);
    let ghost raw_v = raw@;
    let ghost d0 = *disk;
    let victims = retention_victims(raw, max);
    let ghost l = choose|l: Seq<String>| sorted_listing(raw_v, l) && victims@ == oldest(l, excess(l.len(), max as nat));
    remove_entry_dirs(disk, &victims);
    assert forall|model: spec_fn(D) -> Seq<Seq<char>>| #![trigger model(*disk)]
        lists_as(model) && (forall|m: &mut D, n: String| #[trigger] call_ensures(D::remove_entry_dir, (m, &n), ())
                        ==> model(*final(m)) == without(model(*m), n@)) && model(d0).no_duplicates() implies {
            &&& model(*disk).len() == if model(d0).len() > max {
                max as nat
            } else {
                model(d0).len()
            }
            &&& forall|x: Seq<char>| #[trigger] model(*disk).contains(x)
                <==> texts(keep_newest(l, max as nat)).contains(x)
        } by {
        let v = choose|v: Vec<String>| #![trigger call_ensures(D::list_entry_names, (&d0,), v)]
            v@ == raw_v && call_ensures(D::list_entry_names, (&d0,), v);
        assert(texts(raw_v) == model(d0));
        assert(model(*disk) == after_removals(model(d0), texts(victims@)));
        lemma_retention_leaves_newest(model(d0), raw_v, l, max as nat);
    }
    assert(listed(*old(disk), raw_v) && sorted_listing(raw_v, l));
}

fn retain_on<D: EntryDisk>(disk: &mut D, max: usize)
    ensures
        exists|m: &mut D| #![trigger call_ensures(retain_newest::<D>, (m, max), ())]
            *m == *old(disk) && *final(m) == *final(disk) && call_ensures(retain_newest::<D>, (m, max), ()),
{
    retain_newest(disk, max)
}

/// The entries that were read, in order, skipping those that could not be.
pub open spec fn present(loads: Seq<Option<EntryView>>) -> Seq<EntryView>
    decreases loads.len(),
{
    if loads.len() == 0 {
        Seq::empty()
    } else {
        let rest = present(loads.drop_last());
        match loads.last() {
            Some(v) => rest.push(v),
            None => rest,
        }
    }
}

pub open spec fn opt_entry_view(o: Option<HistoryEntry>) -> Option<EntryView> {
    match o {
        Some(e) => Some(e@),
        None => None,
    }
}

pub open spec fn opt_entry_views(s: Seq<Option<HistoryEntry>>) -> Seq<Option<EntryView>> {
    s.map_values(|o: Option<HistoryEntry>| opt_entry_view(o))
}

/// The entries among the results of reads, in order.
pub fn present_entries(loads: &Vec<Option<HistoryEntry>>) -> (r: Vec<HistoryEntry>)
    ensures
        entry_views(r@) == present(opt_entry_views(loads@)),
{
    let n = loads.len();
    let mut r: Vec<HistoryEntry> = Vec::new();
    proof {
        assert(entry_views(r@) =~= Seq::<EntryView>::empty());
        assert(opt_entry_views(loads@.subrange(0, 0)) =~= Seq::<Option<EntryView>>::empty());
    }
    for i in 0..n
        invariant
            n == loads@.len(),
            entry_views(r@) == present(opt_entry_views(loads@.subrange(0, i as int))),
    {
        let ghost before = r@;
        match &loads[i] {
            Some(e) => r.push(e.clone()),
            None => {},
        }
        proof {
            let sub = opt_entry_views(loads@.subrange(0, i + 1));
            assert(sub.drop_last() =~= opt_entry_views(loads@.subrange(0, i as int)));
            assert(sub.last() == opt_entry_view(loads@[i as int]));
            match loads@[i as int] {
                Some(e) => {
                    assert(entry_views(r@) =~= entry_views(before).push(e@));
                },
                None => {
                    assert(r@ == before);
                },
            }
        }
    }
    proof {
        assert(loads@.subrange(0, n as int) =~= loads@);
    }
    r
}

/// The names without one of them (its first occurrence), if it is there.
pub open spec fn without(dirs: Seq<Seq<char>>, name: Seq<char>) -> Seq<Seq<char>> {
    if dirs.contains(name) {
        dirs.remove(dirs.index_of(name))
    } else {
        dirs
    }
}

/// The names left after removing each of `names` in turn.
pub open spec fn after_removals(dirs: Seq<Seq<char>>, names: Seq<Seq<char>>) -> Seq<Seq<char>>
    decreases names.len(),
{
    if names.len() == 0 {
        dirs
    } else {
        after_removals(without(dirs, names[0]), names.drop_first())
    }
}

/// A model of a disk's directory names that its listings agree with: every
/// listing of a disk holds exactly the names the model gives it.
pub open spec fn lists_as<D: EntryDisk>(model: spec_fn(D) -> Seq<Seq<char>>) -> bool {
    forall|d: D, v: Vec<String>| #[trigger] call_ensures(D::list_entry_names, (&d,), v) ==> texts(v@) == model(d)
}

proof fn lemma_after_removals_push(dirs: Seq<Seq<char>>, names: Seq<Seq<char>>, name: Seq<char>)
    ensures
        after_removals(dirs, names.push(name)) == without(after_removals(dirs, names), name),
    decreases names.len(),
{
    if names.len() == 0 {
        let one = names.push(name);
        assert(one.drop_first() =~= Seq::<Seq<char>>::empty());
        assert(one[0] == name);
        assert(after_removals(without(dirs, name), one.drop_first()) == without(dirs, name));
        assert(after_removals(dirs, names) == dirs);
    } else {
        assert(names.push(name).drop_first() =~= names.drop_first().push(name));
        assert(names.push(name)[0] == names[0]);
        lemma_after_removals_push(without(dirs, names[0]), names.drop_first(), name);
    }
}

proof fn lemma_index_of_unique(s: Seq<Seq<char>>, i: int)
    requires
        s.no_duplicates(),
        0 <= i < s.len(),
    ensures
        s.contains(s[i]),
        s.index_of(s[i]) == i,
{
    assert(s[i] == s[i]);
    let j = s.index_of(s[i]);
    assert(0 <= j < s.len() && s[j] == s[i]);
}

proof fn lemma_remove_keeps_distinct(s: Seq<Seq<char>>, i: int)
    requires
        s.no_duplicates(),
        0 <= i < s.len(),
    ensures
        s.remove(i).no_duplicates(),
        s.remove(i).len() == s.len() - 1,
        forall|x: Seq<char>| s.remove(i).contains(x) <==> s.contains(x) && x != s[i],
{
    let t = s.remove(i);
    assert forall|a: int, b: int| 0 <= a < t.len() && 0 <= b < t.len() && a != b implies t[a] != t[b] by {
        let a0 = if a < i { a } else { a + 1 };
        let b0 = if b < i { b } else { b + 1 };
        assert(t[a] == s[a0] && t[b] == s[b0]);
    }
    assert forall|x: Seq<char>| t.contains(x) <==> s.contains(x) && x != s[i] by {
        if t.contains(x) {
            let a = choose|a: int| 0 <= a < t.len() && t[a] == x;
            let a0 = if a < i { a } else { a + 1 };
            assert(s[a0] == x);
        }
        if s.contains(x) && x != s[i] {
            let a = choose|a: int| 0 <= a < s.len() && s[a] == x;
            if a < i {
                assert(t[a] == x);
            } else {
                assert(t[a - 1] == x);
            }
        }
    }
}

/// Removing, one at a time, names that a duplicate-free listing holds,
/// each once, leaves the listing without exactly those names.
pub proof fn lemma_removals_leave_rest(dirs: Seq<Seq<char>>, names: Seq<Seq<char>>)
    requires
        dirs.no_duplicates(),
        names.no_duplicates(),
        forall|i: int| 0 <= i < names.len() ==> dirs.contains(#[trigger] names[i]),
    ensures
        after_removals(dirs, names).no_duplicates(),
        after_removals(dirs, names).len() == dirs.len() - names.len(),
        forall|x: Seq<char>| #[trigger] after_removals(dirs, names).contains(x) <==> dirs.contains(x) && !names.contains(x),
    decreases names.len(),
{
    if names.len() > 0 {
        let k = dirs.index_of(names[0]);
        assert(dirs.contains(names[0]));
        assert(0 <= k < dirs.len() && dirs[k] == names[0]);
        lemma_remove_keeps_distinct(dirs, k);
        let d1 = without(dirs, names[0]);
        assert(d1 == dirs.remove(k));
        let rest = names.drop_first();
        assert forall|i: int| 0 <= i < rest.len() implies d1.contains(#[trigger] rest[i]) by {
            assert(rest[i] == names[i + 1]);
            assert(names[i + 1] != names[0]);
            assert(dirs.contains(names[i + 1]));
        }
        lemma_removals_leave_rest(d1, rest);
        assert forall|x: Seq<char>| #[trigger] after_removals(dirs, names).contains(x) <==> dirs.contains(x) && !names.contains(x) by {
            if names.contains(x) && x != names[0] {
                let j = choose|j: int| 0 <= j < names.len() && names[j] == x;
                assert(rest[j - 1] == x);
            }
            if rest.contains(x) {
                let j = choose|j: int| 0 <= j < rest.len() && rest[j] == x;
                assert(names[j + 1] == x);
            }
        }
    }
}

/// Two arrangements of the same names hold the same texts, each as often.
proof fn lemma_texts_same_names(a: Seq<String>, b: Seq<String>)
    requires
        a.to_multiset() == b.to_multiset(),
    ensures
        texts(a).to_multiset() == texts(b).to_multiset(),
    decreases a.len(),
{
    broadcast use vstd::multiset::group_multiset_axioms, vstd::seq_lib::group_to_multiset_ensures;

    if a.len() == 0 {
        assert(b.to_multiset().len() == 0);
        assert(b.len() == 0);
        assert(texts(a) =~= texts(b));
    } else {
        let x = a.last();
        assert(a.contains(x));
        assert(b.to_multiset().count(x) > 0);
        assert(b.contains(x));
        let j = b.index_of(x);
        assert(0 <= j < b.len() && b[j] == x);
        assert(a.drop_last().push(x) =~= a);
        assert(a.drop_last().to_multiset() =~= a.to_multiset().remove(x));
        assert(b.remove(j).to_multiset() =~= b.to_multiset().remove(x));
        lemma_texts_same_names(a.drop_last(), b.remove(j));
        assert(texts(a) =~= texts(a.drop_last()).push(x@));
        assert(texts(b.remove(j)) =~= texts(b).remove(j));
        assert(texts(b)[j] == x@);
        assert(texts(b).remove(j).to_multiset() =~= texts(b).to_multiset().remove(x@));
        assert(texts(b).to_multiset().count(x@) > 0) by {
            assert(texts(b).contains(x@));
        }
        assert(texts(a).to_multiset() =~= texts(b).to_multiset());
    }
}

/// Retention leaves the newest entries. On a disk whose listing `dirs` holds
/// no name twice and whose removals drop the named directory (as those of a
/// `MemoryDisk` do), removing the oldest names beyond `max` of the ascending
/// listing `l` leaves exactly the newest `min(len, max)` names.
pub proof fn lemma_retention_leaves_newest(dirs: Seq<Seq<char>>, raw: Seq<String>, l: Seq<String>, max: nat)
    requires
        dirs.no_duplicates(),
        texts(raw) == dirs,
        sorted_listing(raw, l),
    ensures
        after_removals(dirs, texts(oldest(l, excess(l.len(), max)))).len() == if dirs.len() > max {
            max
        } else {
            dirs.len()
        },
        forall|x: Seq<char>| #[trigger] after_removals(dirs, texts(oldest(l, excess(l.len(), max)))).contains(x)
            <==> texts(keep_newest(l, max)).contains(x),
{
    broadcast use vstd::multiset::group_multiset_axioms, vstd::seq_lib::group_to_multiset_ensures;

    let tl = texts(l);
    lemma_texts_same_names(l, raw);
    assert(l.len() == raw.len()) by {
        assert(l.to_multiset().len() == raw.to_multiset().len());
    }
    dirs.lemma_multiset_has_no_duplicates();
    assert forall|x: Seq<char>| tl.contains(x) <==> dirs.contains(x) by {
        assert(tl.to_multiset().count(x) == dirs.to_multiset().count(x));
    }
    assert(tl.no_duplicates()) by {
        assert forall|x: Seq<char>| tl.to_multiset().count(x) <= 1 by {
            assert(tl.to_multiset().count(x) == dirs.to_multiset().count(x));
            if dirs.contains(x) {
                assert(dirs.to_multiset().contains(x));
            } else {
                assert(dirs.to_multiset().count(x) == 0);
            }
        }
        tl.lemma_multiset_has_no_duplicates_conv();
    }
    let e = excess(l.len(), max);
    let victims = texts(oldest(l, e));
    let kept = texts(keep_newest(l, max));
    assert(victims =~= tl.subrange(0, e as int));
    assert(kept =~= tl.subrange(e as int, tl.len() as int));
    assert(victims.no_duplicates());
    assert forall|i: int| 0 <= i < victims.len() implies dirs.contains(#[trigger] victims[i]) by {
        assert(tl.contains(victims[i]));
    }
    lemma_removals_leave_rest(dirs, victims);
    assert forall|x: Seq<char>| #[trigger] after_removals(dirs, victims).contains(x) <==> kept.contains(x) by {
        if kept.contains(x) {
            let j = choose|j: int| 0 <= j < kept.len() && kept[j] == x;
            assert(tl[e + j] == x);
            assert(tl.contains(x));
            if victims.contains(x) {
                let k = choose|k: int| 0 <= k < victims.len() && victims[k] == x;
                assert(tl[k] == x);
            }
        }
        if dirs.contains(x) && !victims.contains(x) {
            assert(tl.contains(x));
            let j = choose|j: int| 0 <= j < tl.len() && tl[j] == x;
            if j < e {
                assert(victims[j] == x);
            } else {
                assert(kept[j - e] == x);
            }
        }
    }
}

/// An entry disk kept in memory, directories named by entry ids and listed
/// in the order they were first written.
pub struct MemoryDisk {
    slots: Vec<(String, HistoryEntry)>,
}

pub open spec fn slot_names(slots: Seq<(String, HistoryEntry)>) -> Seq<Seq<char>> {
    slots.map_values(|p: (String, HistoryEntry)| p.0@)
}

impl MemoryDisk {
    /// The directory names, in the order they were first written.
    pub closed spec fn dirs(&self) -> Seq<Seq<char>> {
        slot_names(self.slots@)
    }

    /// What the named directory reads back as.
    pub closed spec fn content(&self, name: Seq<char>) -> Option<EntryView> {
        if self.dirs().contains(name) {
            Some(self.slots@[self.dirs().index_of(name)].1@)
        } else {
            None
        }
    }

    /// No name is held twice.
    #[verifier::type_invariant]
    closed spec fn distinct_names(&self) -> bool {
        self.dirs().no_duplicates()
    }

    /// An empty disk.
    pub fn new() -> (d: Self)
        ensures
            d.dirs() == Seq::<Seq<char>>::empty(),
            forall|name: Seq<char>| #[trigger] d.content(name) is None,
    {
        let d = MemoryDisk { slots: Vec::new() };
        proof {
            assert(slot_names(d.slots@) =~= Seq::<Seq<char>>::empty());
        }
        d
    }

    fn find(&self, name: &String) -> (r: Option<usize>)
        ensures
            match r {
                Some(i) => i < self.slots@.len() && self.dirs()[i as int] == name@,
                None => !self.dirs().contains(name@),
            },
    {
        let n = self.slots.len();
        let mut i: usize = 0;
        while i < n
            invariant
                n == self.slots@.len(),
                i <= n,
                forall|j: int| 0 <= j < i ==> #[trigger] self.dirs()[j] != name@,
            decreases n - i,
        {
            if self.slots[i].0 == *name {
                return Some(i);
            }
            i = i + 1;
        }
        None
    }
}

impl EntryDisk for MemoryDisk {
    /// A write always succeeds: the entry is stored under its id, a new
    /// name going last in the listing.
    fn save_entry(&mut self, entry: &HistoryEntry) -> (r: Result<(), std::io::Error>)
        ensures
            r is Ok,
            final(self).dirs().no_duplicates(),
            final(self).dirs() == if old(self).dirs().contains(entry.id@) {
                old(self).dirs()
            } else {
                old(self).dirs().push(entry.id@)
            },
            forall|name: Seq<char>| #[trigger] final(self).content(name) == if name == entry.id@ {
                Some(entry@)
            } else {
                old(self).content(name)
            },
    {
        proof {
            use_type_invariant(&*self);
        }
        let ghost d0 = self.dirs();
        let ghost s0 = self.slots@;
        let found = self.find(&entry.id);
        let mut slots: Vec<(String, HistoryEntry)> = Vec::new();
        std::mem::swap(&mut slots, &mut self.slots);
        match found {
            Some(i) => {
                let name = slots[i].0.clone();
                slots.set(i, (name, entry.clone()));
                proof {
                    assert(slot_names(slots@) =~= d0);
                }
                self.slots = slots;
                proof {
                    assert(self.dirs() =~= d0);
                    lemma_index_of_unique(d0, i as int);
                    assert forall|n: Seq<char>| #[trigger] self.content(n) == if n == entry.id@ {
                        Some(entry@)
                    } else {
                        old(self).content(n)
                    } by {
                        if d0.contains(n) && n != entry.id@ {
                            let k = d0.index_of(n);
                            assert(0 <= k < d0.len() && d0[k] == n);
                            assert(k != i);
                        }
                    }
                }
            },
            None => {
                slots.push((entry.id.clone(), entry.clone()));
                proof {
                    let d1 = slot_names(slots@);
                    assert(d1 =~= d0.push(entry.id@));
                    assert(d1.no_duplicates()) by {
                        assert forall|a: int, b: int| 0 <= a < d1.len() && 0 <= b < d1.len() && a != b implies d1[a] != d1[b] by {
                            if a < d0.len() && b < d0.len() {
                                assert(d1[a] == d0[a] && d1[b] == d0[b]);
                            } else if a < d0.len() {
                                assert(d0.contains(d0[a]));
                            } else {
                                assert(d0.contains(d0[b]));
                            }
                        }
                    }
                }
                self.slots = slots;
                proof {
                    let d1 = self.dirs();
                    assert(d1 =~= d0.push(entry.id@));
                    lemma_index_of_unique(d1, d0.len() as int);
                    assert forall|n: Seq<char>| #[trigger] self.content(n) == if n == entry.id@ {
                        Some(entry@)
                    } else {
                        old(self).content(n)
                    } by {
                        if d0.contains(n) {
                            let k = d0.index_of(n);
                            assert(0 <= k < d0.len() && d0[k] == n);
                            assert(d1[k] == n);
                            lemma_index_of_unique(d1, k);
                            assert(self.slots@[k] == s0[k]);
                        } else if n != entry.id@ {
                            assert(!d1.contains(n)) by {
                                if d1.contains(n) {
                                    let k = choose|k: int| 0 <= k < d1.len() && d1[k] == n;
                                    if k < d0.len() {
                                        assert(d0[k] == n);
                                    }
                                }
                            }
                        }
                    }
                }
            },
        }
        Ok(())
    }

    /// A read gives back what the named directory holds.
    fn load_entry(&self, name: &String) -> (r: Option<HistoryEntry>)
        ensures
            opt_entry_view(r) == self.content(name@),
    {
        proof {
            use_type_invariant(self);
        }
        match self.find(name) {
            Some(i) => {
                proof {
                    lemma_index_of_unique(self.dirs(), i as int);
                }
                Some(self.slots[i].1.clone())
            },
            None => None,
        }
    }

    /// The names, in the order they were first written.
    fn list_entry_names(&self) -> (r: Vec<String>)
        ensures
            texts(r@) == self.dirs(),
    {
        let n = self.slots.len();
        let mut r: Vec<String> = Vec::new();
        for i in 0..n
            invariant
                n == self.slots@.len(),
                texts(r@) == self.dirs().subrange(0, i as int),
        {
            let ghost before = r@;
            r.push(self.slots[i].0.clone());
            proof {
                assert(self.dirs()[i as int] == self.slots@[i as int].0@);
                assert(texts(r@) =~= texts(before).push(self.slots@[i as int].0@));
                assert(self.dirs().subrange(0, i + 1) =~= self.dirs().subrange(0, i as int).push(self.dirs()[i as int]));
            }
        }
        proof {
            assert(self.dirs().subrange(0, n as int) =~= self.dirs());
        }
        r
    }

    /// The named directory goes, with what it held.
    fn remove_entry_dir(&mut self, name: &String)
        ensures
            final(self).dirs().no_duplicates(),
            final(self).dirs() == without(old(self).dirs(), name@),
            forall|n: Seq<char>| #[trigger] final(self).content(n) == if n == name@ {
                None
            } else {
                old(self).content(n)
            },
    {
        proof {
            use_type_invariant(&*self);
        }
        let ghost d0 = self.dirs();
        let ghost s0 = self.slots@;
        match self.find(name) {
            Some(i) => {
                proof {
                    lemma_index_of_unique(d0, i as int);
                    lemma_remove_keeps_distinct(d0, i as int);
                }
                let mut slots: Vec<(String, HistoryEntry)> = Vec::new();
                std::mem::swap(&mut slots, &mut self.slots);
                slots.remove(i);
                proof {
                    assert(slot_names(slots@) =~= d0.remove(i as int));
                }
                self.slots = slots;
                proof {
                    let d1 = self.dirs();
                    assert(d1 =~= d0.remove(i as int));
                    assert forall|n: Seq<char>| #[trigger] self.content(n) == if n == name@ {
                        None
                    } else {
                        old(self).content(n)
                    } by {
                        if d0.contains(n) && n != name@ {
                            let k = d0.index_of(n);
                            assert(0 <= k < d0.len() && d0[k] == n);
                            let k1 = if k < i { k } else { k - 1 };
                            assert(d1[k1] == n);
                            lemma_index_of_unique(d1, k1);
                            assert(self.slots@[k1] == s0[k]);
                        }
                    }
                }
            },
            None => {},
        }
    }
}

/// A `MemoryDisk` meets the disk model of `retain_newest` with its own
/// directory names: its listings hold them, and a removal takes the named
/// directory out of them.
pub proof fn lemma_memory_disk_model()
    ensures
        lists_as::<MemoryDisk>(|d: MemoryDisk| d.dirs()),
        forall|m: &mut MemoryDisk, n: String| #[trigger] call_ensures(MemoryDisk::remove_entry_dir, (m, &n), ())
            ==> (*final(m)).dirs() == without((*m).dirs(), n@),
{
}

/// History kept on disk: one directory per entry, the newest
/// `max_entries` kept, the entry of the latest capture held in memory.
pub struct DiskHistoryStore<D: EntryDisk> {
    disk: D,
    current_entry: Option<HistoryEntry>,
    max_entries: usize,
}

/// How many of `count` stored entries must go so that `max` remain.
pub fn retention_excess(count: usize, max: usize) -> (e: usize)
    ensures
        e == excess(count as nat, max as nat),
{
    if count > max { count - max } else { 0 }
}

/// The oldest `n` items of an ascending list.
pub fn take_oldest<T>(items: Vec<T>, n: usize) -> (r: Vec<T>)
    ensures
        r@ == oldest(items@, n as nat),
{
    let mut items = items;
    if n < items.len() {
        items.truncate(n);
    }
    items
}

/// The newest `count` items of an ascending list, newest first.
pub fn take_newest_first<T>(items: Vec<T>, count: usize) -> (r: Vec<T>)
    ensures
        r@ == newest_first(items@, count as nat),
{
    let ghost orig = items@;
    let mut items = items;
    let mut r: Vec<T> = Vec::new();
    while r.len() < count && items.len() > 0
        invariant
            items@ == orig.subrange(0, orig.len() - r@.len()),
            r@.len() <= orig.len(),
            r@.len() <= count,
            forall|j: int| 0 <= j < r@.len() ==> #[trigger] r@[j] == orig[orig.len() - 1 - j],
        decreases items.len(),
    {
        let x = items.pop().unwrap();
        r.push(x);
    }
    proof {
        assert(r@ =~= newest_first(orig, count as nat));
    }
    r
}

/// The directories retention removes from a listing, oldest first: of the
/// names in ascending order, those beyond the newest `max`.
pub fn retention_victims(raw: Vec<String>, max: usize) -> (r: Vec<String>)
    ensures
        exists|l: Seq<String>| #![trigger sorted_listing(raw@, l)]
            sorted_listing(raw@, l) && r@ == oldest(l, excess(l.len(), max as nat)),
{
    let names = sort_names(raw);
    let ghost l = names@;
    let remove = retention_excess(names.len(), max);
    let r = take_oldest(names, remove);
    assert(sorted_listing(raw@, l));
    r
}

/// The directories `recent` reads from a listing: of the names in
/// ascending order, the newest `count`, newest first.
pub fn recent_names(raw: Vec<String>, count: usize) -> (r: Vec<String>)
    ensures
        exists|l: Seq<String>| #![trigger sorted_listing(raw@, l)]
            sorted_listing(raw@, l) && r@ == newest_first(l, count as nat),
{
    let names = sort_names(raw);
    let ghost l = names@;
    let r = take_newest_first(names, count);
    assert(sorted_listing(raw@, l));
    r
}

/// The fresh entry of a capture of `frame_path` at `t`, named by the instant.
pub open spec fn stamped_entry(t: Timestamp, frame_path: Seq<char>) -> EntryView {
    fresh_entry(strftime_text(t.secs, t.nanos, STAMP_PATTERN@), t, frame_path)
}

impl<D: EntryDisk> DiskHistoryStore<D> {
    /// The entry of the latest capture, if any.
    pub closed spec fn current(&self) -> Option<EntryView> {
        opt_entry_view(self.current_entry)
    }

    /// The retention limit.
    pub closed spec fn limit(&self) -> nat {
        self.max_entries as nat
    }

    /// The disk the store writes to.
    pub closed spec fn backing(&self) -> D {
        self.disk
    }

    /// A store over `disk` keeping at most `max_entries` entries.
    pub fn with_disk(disk: D, max_entries: usize) -> (s: Self)
        ensures
            s.current() is None,
            s.limit() == max_entries,
            s.backing() == disk,
    {
        DiskHistoryStore { disk, current_entry: None, max_entries }
    }

    /// The disk the store writes to.
    pub fn disk(&self) -> (d: &D)
        ensures
            *d == self.backing(),
    {
        &self.disk
    }

    /// Removes the oldest entry directories beyond the limit, through
    /// `retain_newest`.
    pub fn enforce_retention(&mut self)
        ensures
            exists|m: &mut D| #![trigger call_ensures(retain_newest::<D>, (m, old(self).limit() as usize), ())]
                {
                    &&& *m == old(self).backing()
                    &&& *final(m) == final(self).backing()
                    &&& call_ensures(retain_newest::<D>, (m, old(self).limit() as usize), ())
                },
            final(self).current() == old(self).current(),
            final(self).limit() == old(self).limit(),
    {
        retain_on(&mut self.disk, self.max_entries);
        assert(self.max_entries == old(self).limit() as usize);
    }

    /// Creates the entry of a capture made at `now`, named by the instant:
    /// the entry is written, and only when the write succeeds does it become
    /// the current entry and retention run; a failed write's error is
    /// returned.
    pub fn create_entry_at(&mut self, frame_path: &str, now: Timestamp) -> (r: Result<String, std::io::Error>)
        requires
            now.valid(),
        ensures
            exists|e: HistoryEntry, res: Result<(), std::io::Error>, m: &mut D|
                #![trigger call_ensures(D::save_entry, (m, &e), res)]
                {
                    &&& e@ == stamped_entry(now, frame_path@)
                    &&& *m == old(self).backing()
                    &&& call_ensures(D::save_entry, (m, &e), res)
                    &&& match res {
                        Ok(()) => {
                            &&& r matches Ok(id) && id@ == strftime_text(now.secs, now.nanos, STAMP_PATTERN@)
                            &&& final(self).current() == Some(stamped_entry(now, frame_path@))
                            &&& exists|m2: &mut D| #![trigger call_ensures(retain_newest::<D>, (m2, old(self).limit() as usize), ())]
                                {
                                    &&& *m2 == *final(m)
                                    &&& *final(m2) == final(self).backing()
                                    &&& call_ensures(retain_newest::<D>, (m2, old(self).limit() as usize), ())
                                }
                        },
                        Err(x) => {
                            &&& r == Err::<String, std::io::Error>(x)
                            &&& final(self).current() == old(self).current()
                            &&& final(self).backing() == *final(m)
                        },
                    }
                },
            final(self).limit() == old(self).limit(),
    {
        let id = format_stamp(&now, STAMP_PATTERN);
        let entry = HistoryEntry::new_for_frame(id.clone(), now, frame_path);
        let ghost d0 = self.disk;
        let written = save_to(&mut self.disk, &entry);
        let ghost mid = self.disk;
        let ghost m = choose|m: &mut D| #![trigger call_ensures(D::save_entry, (m, &entry), written)]
            *m == d0 && *final(m) == mid && call_ensures(D::save_entry, (m, &entry), written);
        assert(entry@ == stamped_entry(now, frame_path@));
        match written {
            Err(e) => {
                assert(call_ensures(D::save_entry, (m, &entry), written));
                Err(e)
            },
            Ok(()) => {
                self.current_entry = Some(entry);
                let ghost pre = *self;
                self.enforce_retention();
                proof {
                    let m2 = choose|m2: &mut D| #![trigger call_ensures(retain_newest::<D>, (m2, pre.limit() as usize), ())]
                        *m2 == pre.backing() && *final(m2) == self.backing() && call_ensures(retain_newest::<D>, (m2, pre.limit() as usize), ());
                    assert(pre.limit() == old(self).limit());
                    assert(pre.backing() == *final(m));
                    assert(call_ensures(retain_newest::<D>, (m2, old(self).limit() as usize), ()));
                }
                assert(self.current() == Some(stamped_entry(now, frame_path@)));
                assert(call_ensures(D::save_entry, (m, &entry), written));
                Ok(id)
            },
        }
    }

    /// Sets the command of the current entry to one sent at `now`, and
    /// writes the entry; the write's answer is returned.
    pub fn record_command_at(&mut self, left: Speed, right: Speed, now: Timestamp) -> (r: Result<(), std::io::Error>)
        ensures
            old(self).current() is None ==> {
                &&& r is Ok
                &&& final(self).current() is None
                &&& final(self).backing() == old(self).backing()
            },
            old(self).current() matches Some(e) ==> {
                &&& final(self).current() == Some(with_command(e, command_record(left, right, now)))
                &&& exists|x: HistoryEntry, m: &mut D| #![trigger call_ensures(D::save_entry, (m, &x), r)]
                    *m == old(self).backing() && *final(m) == final(self).backing() && call_ensures(D::save_entry, (m, &x), r)
                    && x@ == with_command(e, command_record(left, right, now))
            },
            final(self).limit() == old(self).limit(),
    {
        match self.current_entry.take() {
            None => Ok(()),
            Some(mut entry) => {
                entry.command = Some(CommandRecord { left, right, timestamp: now });
                let copy = entry.clone();
                self.current_entry = Some(entry);
                save_to(&mut self.disk, &copy)
            },
        }
    }

    /// Adds a reasoning message to the current entry, and writes the entry;
    /// the write's answer is returned.
    pub fn append_reasoning_to_current(&mut self, message: &str) -> (r: Result<(), std::io::Error>)
        ensures
            old(self).current() is None ==> {
                &&& r is Ok
                &&& final(self).current() is None
                &&& final(self).backing() == old(self).backing()
            },
            old(self).current() matches Some(e) ==> {
                &&& final(self).current() == Some(with_reasoning(e, message@))
                &&& exists|x: HistoryEntry, m: &mut D| #![trigger call_ensures(D::save_entry, (m, &x), r)]
                    *m == old(self).backing() && *final(m) == final(self).backing() && call_ensures(D::save_entry, (m, &x), r)
                    && x@ == with_reasoning(e, message@)
            },
            final(self).limit() == old(self).limit(),
    {
        match self.current_entry.take() {
            None => Ok(()),
            Some(mut entry) => {
                entry.add_reasoning(message);
                let copy = entry.clone();
                self.current_entry = Some(entry);
                save_to(&mut self.disk, &copy)
            },
        }
    }
}

impl<D: EntryDisk> HistoryStore for DiskHistoryStore<D> {
    /// As `create_entry_at` at the clock's reading; when the clock cannot
    /// be read, nothing changes and the error says so.
    fn create_entry(&mut self, frame_path: &str) -> (r: Result<String, std::io::Error>)
        ensures
            exists|now: Option<Timestamp>| #[trigger] call_ensures(clock_now, (), now) && match now {
                None => {
                    &&& r is Err
                    &&& final(self).current() == old(self).current()
                    &&& final(self).backing() == old(self).backing()
                },
                Some(t) => exists|e: HistoryEntry, res: Result<(), std::io::Error>, m: &mut D|
                    #![trigger call_ensures(D::save_entry, (m, &e), res)]
                    {
                        &&& e@ == stamped_entry(t, frame_path@)
                        &&& *m == old(self).backing()
                        &&& call_ensures(D::save_entry, (m, &e), res)
                        &&& match res {
                            Ok(()) => {
                                &&& r matches Ok(id) && id@ == strftime_text(t.secs, t.nanos, STAMP_PATTERN@)
                                &&& final(self).current() == Some(stamped_entry(t, frame_path@))
                                &&& exists|m2: &mut D| #![trigger call_ensures(retain_newest::<D>, (m2, old(self).limit() as usize), ())]
                                    {
                                        &&& *m2 == *final(m)
                                        &&& *final(m2) == final(self).backing()
                                        &&& call_ensures(retain_newest::<D>, (m2, old(self).limit() as usize), ())
                                    }
                            },
                            Err(x) => {
                                &&& r == Err::<String, std::io::Error>(x)
                                &&& final(self).current() == old(self).current()
                                &&& final(self).backing() == *final(m)
                            },
                        }
                    },
            },
            final(self).limit() == old(self).limit(),
    {
        let reading = clock_now();
        match reading {
            None => Err(other_io_error(CLOCK_UNREADABLE)),
            Some(now) => {
                let r = self.create_entry_at(frame_path, now);
                assert(stamped_entry(now, frame_path@) == fresh_entry(strftime_text(now.secs, now.nanos, STAMP_PATTERN@), now, frame_path@));
                r
            },
        }
    }

    fn append_reasoning(&mut self, message: &str) -> (r: Result<(), std::io::Error>)
        ensures
            old(self).current() is None ==> {
                &&& r is Ok
                &&& final(self).current() is None
                &&& final(self).backing() == old(self).backing()
            },
            old(self).current() matches Some(e) ==> {
                &&& final(self).current() == Some(with_reasoning(e, message@))
                &&& exists|x: HistoryEntry, m: &mut D| #![trigger call_ensures(D::save_entry, (m, &x), r)]
                    *m == old(self).backing() && *final(m) == final(self).backing() && call_ensures(D::save_entry, (m, &x), r)
                    && x@ == with_reasoning(e, message@)
            },
            final(self).limit() == old(self).limit(),
    {
        self.append_reasoning_to_current(message)
    }

    /// As `record_command_at` at the clock's reading, which is taken only
    /// when there is a current entry; when the clock cannot be read, nothing
    /// changes and the error says so.
    fn record_command(&mut self, left: Speed, right: Speed) -> (r: Result<(), std::io::Error>)
        ensures
            old(self).current() is None ==> {
                &&& r is Ok
                &&& final(self).current() is None
                &&& final(self).backing() == old(self).backing()
            },
            old(self).current() matches Some(e) ==> exists|now: Option<Timestamp>| #[trigger] call_ensures(clock_now, (), now) && match now {
                None => {
                    &&& r is Err
                    &&& final(self).current() == old(self).current()
                    &&& final(self).backing() == old(self).backing()
                },
                Some(t) => {
                    &&& final(self).current() == Some(with_command(e, command_record(left, right, t)))
                    &&& exists|x: HistoryEntry, m: &mut D| #![trigger call_ensures(D::save_entry, (m, &x), r)]
                        {
                            &&& *m == old(self).backing()
                            &&& *final(m) == final(self).backing()
                            &&& call_ensures(D::save_entry, (m, &x), r)
                            &&& x@ == with_command(e, command_record(left, right, t))
                        }
                },
            },
            final(self).limit() == old(self).limit(),
    {
        if self.current_entry.is_none() {
            return Ok(());
        }
        let reading = clock_now();
        match reading {
            None => Err(other_io_error(CLOCK_UNREADABLE)),
            Some(now) => {
                let r = self.record_command_at(left, right, now);
                assert(command_record(left, right, now) == CommandRecord { left, right, timestamp: now });
                r
            },
        }
    }

    /// The directories are listed and put in ascending order; the newest
    /// `count` of them are read, newest first, and those that could be read
    /// are returned in that order.
    fn recent(&self, count: usize) -> (r: Vec<HistoryEntry>)
        ensures
            exists|raw: Seq<String>, l: Seq<String>, loads: Seq<Option<HistoryEntry>>|
                #![trigger recent_reads(self.backing(), count as nat, raw, l, loads)]
                recent_reads(self.backing(), count as nat, raw, l, loads) && entry_views(r@) == present(
                    opt_entry_views(loads),
                ),
    {
        let raw = list_of(&self.disk);
        let ghost raw_v = raw@;
        let newest = recent_names(raw, count);
        let ghost l = choose|l: Seq<String>| sorted_listing(raw_v, l) && newest@ == newest_first(l, count as nat);
        let n = newest.len();
        let mut loads: Vec<Option<HistoryEntry>> = Vec::new();
        for i in 0..n
            invariant
                n == newest@.len(),
                loads@.len() == i,
                forall|j: int| 0 <= j < i ==> call_ensures(D::load_entry, (&self.disk, &newest@[j]), #[trigger] loads@[j]),
        {
            let got = load_from(&self.disk, &newest[i]);
            loads.push(got);
        }
        let r = present_entries(&loads);
        proof {
            assert(newest@ == newest_first(l, count as nat));
            assert(recent_reads(self.backing(), count as nat, raw_v, l, loads@));
        }
        r
    }

    /// The number of entry directories the disk lists.
    fn entry_count(&self) -> (c: u64)
        ensures
            exists|raw: Seq<String>| #[trigger] listed(self.backing(), raw) && c == raw.len(),
    {
        let names = list_of(&self.disk);
        assert(listed(self.backing(), names@));
        names.len() as u64
    }
}

/// Retention never keeps more than the limit, and what it keeps is the
/// newest part of the history, in order.
pub proof fn lemma_retention_keeps_newest<A>(s: Seq<A>, max: nat)
    ensures
        keep_newest(s, max).len() == if s.len() > max { max } else { s.len() },
        forall|i: int| 0 <= i < keep_newest(s, max).len() ==>
            #[trigger] keep_newest(s, max)[i] == s[s.len() - keep_newest(s, max).len() + i],
{
}

/// Creating an entry in a store that respects its limit leaves it within
/// the limit, with the new entry last (when the limit is not zero).
pub proof fn lemma_create_respects_limit<A>(s: Seq<A>, e: A, max: nat)
    requires
        s.len() <= max,
    ensures
        keep_newest(s.push(e), max).len() <= max,
        max > 0 ==> keep_newest(s.push(e), max).last() == e,
{
}

/// The first entry of `recent` is the newest one.
pub proof fn lemma_recent_starts_with_newest<A>(s: Seq<A>, count: nat)
    requires
        s.len() > 0,
        count > 0,
    ensures
        newest_first(s, count)[0] == s.last(),
        newest_first(s, count).len() >= 1,
{
}

/// The `count` most recent items, newest first: exactly `min(count, len)`
/// items, the `i`-th of them the `i`-th from the end.
pub proof fn lemma_newest_first_exact<A>(s: Seq<A>, count: nat)
    ensures
        newest_first(s, count).len() == if count < s.len() { count } else { s.len() },
        forall|i: int| 0 <= i < newest_first(s, count).len() ==> #[trigger] newest_first(s, count)[i] == s[s.len() - 1 - i],
{
}

/// Recording a command replaces the entry's command with the one just
/// recorded, whatever was there, and leaves the rest of the entry as it was.
pub proof fn lemma_command_replaces(e: EntryView, c: CommandRecord)
    ensures
        with_command(e, c).command == Some(c),
        with_command(e, c).id == e.id,
        with_command(e, c).timestamp == e.timestamp,
        with_command(e, c).frame_path == e.frame_path,
        with_command(e, c).reasoning == e.reasoning,
{
}

/// A reasoning message is added after the earlier ones, and the rest of the
/// entry stays as it was.
pub proof fn lemma_reasoning_appends(e: EntryView, message: Seq<char>)
    ensures
        with_reasoning(e, message).reasoning.len() == e.reasoning.len() + 1,
        with_reasoning(e, message).reasoning.last() == message,
        with_reasoning(e, message).reasoning.subrange(0, e.reasoning.len() as int) == e.reasoning,
        with_reasoning(e, message).command == e.command,
        with_reasoning(e, message).id == e.id,
        with_reasoning(e, message).timestamp == e.timestamp,
        with_reasoning(e, message).frame_path == e.frame_path,
{
    assert(with_reasoning(e, message).reasoning.subrange(0, e.reasoning.len() as int) =~= e.reasoning);
}

/// The oldest names beyond a limit of `max`: the first `len - max` of the
/// listing (none when it holds at most `max`), which with the `max` kept
/// make up the whole listing.
pub proof fn lemma_retention_splits_listing<A>(s: Seq<A>, max: nat)
    ensures
        oldest(s, excess(s.len(), max)).len() == if s.len() > max { s.len() - max } else { 0 },
        forall|i: int| 0 <= i < oldest(s, excess(s.len(), max)).len() ==> #[trigger] oldest(s, excess(s.len(), max))[i] == s[i],
        oldest(s, excess(s.len(), max)) + keep_newest(s, max) == s,
{
    assert(oldest(s, excess(s.len(), max)) + keep_newest(s, max) =~= s);
}

/// A fresh entry carries the frame it was opened for, its id and instant,
/// and no reasoning or command yet.
pub proof fn lemma_fresh_entry_is_empty(id: Seq<char>, t: Timestamp, frame_path: Seq<char>)
    ensures
        fresh_entry(id, t, frame_path).id == id,
        fresh_entry(id, t, frame_path).timestamp == t,
        fresh_entry(id, t, frame_path).frame_path == Some(frame_path),
        fresh_entry(id, t, frame_path).reasoning.len() == 0,
        fresh_entry(id, t, frame_path).command is None,
{
}

} // verus!
