//! Which notifications have been looked at, and in which state.
use crate::domain::Notification;
use crate::handled_marker::StoreError;
use crate::text;
use vstd::prelude::*;

verus! {

/// The state in which a notification was last looked at: when it was updated,
/// and its latest comment.
#[derive(Debug, Eq, PartialEq)]
pub struct ObservedNotificationRecord {
    pub updated_at: String,
    pub latest_comment_url: Option<String>,
}

/// A record with its texts taken by their characters.
pub struct RecordView {
    pub updated_at: Seq<char>,
    pub latest_comment_url: Option<Seq<char>>,
}

impl View for ObservedNotificationRecord {
    type V = RecordView;

    open spec fn view(&self) -> RecordView {
        RecordView {
            updated_at: self.updated_at@,
            latest_comment_url: text::opt_view(self.latest_comment_url),
        }
    }
}

/// The record of a notification as it is now.
pub open spec fn record_of(notification: Notification) -> RecordView {
    RecordView {
        updated_at: notification.updated_at@,
        latest_comment_url: text::opt_view(notification.latest_comment_url),
    }
}

/// Whether `observed` holds the notification in its present state.
pub open spec fn is_current(
    observed: Map<Seq<char>, RecordView>,
    notification: Notification,
) -> bool {
    observed.dom().contains(notification.id@) && observed[notification.id@] == record_of(
        notification,
    )
}

impl ObservedNotificationRecord {
    pub fn of(notification: &Notification) -> (r: ObservedNotificationRecord)
        ensures
            r@ == record_of(*notification),
    {
        ObservedNotificationRecord {
            updated_at: notification.updated_at.clone(),
            latest_comment_url: notification.latest_comment_url.clone(),
        }
    }

    pub fn matches(&self, notification: &Notification) -> (r: bool)
        ensures
            r == (self@ == record_of(*notification)),
    {
        let same_comment = match (&self.latest_comment_url, &notification.latest_comment_url) {
            (Some(a), Some(b)) => text::same(a.as_str(), b.as_str()),
            (None, None) => true,
            _ => false,
        };
        text::same(self.updated_at.as_str(), notification.updated_at.as_str()) && same_comment
    }
}

/// Where observations are kept between polls. Of a call that fails nothing is
/// promised.
pub trait ObservedNotificationStore {
    spec fn observed(&self) -> Map<Seq<char>, RecordView>;

    fn contains_current(&self, notification: &Notification) -> (r: Result<bool, StoreError>)
        ensures
            r is Ok ==> r->Ok_0 == is_current(self.observed(), *notification),
    ;

    fn record_current(&mut self, notification: &Notification) -> (r: Result<(), StoreError>)
        ensures
            r is Ok ==> final(self).observed() == old(self).observed().insert(
                notification.id@,
                record_of(*notification),
            ),
    ;
}

/// The observations, as one file holds them: one record for each notification.
#[derive(Debug, Eq, PartialEq)]
pub struct ObservedNotificationLedger {
    entries: Vec<(String, ObservedNotificationRecord)>,
}

spec fn holds(entries: Seq<(String, ObservedNotificationRecord)>, id: Seq<char>, at: int) -> bool {
    0 <= at < entries.len() && entries[at].0@ == id
}

spec fn entries_map(entries: Seq<(String, ObservedNotificationRecord)>) -> Map<
    Seq<char>,
    RecordView,
> {
    Map::new(
        |id: Seq<char>| exists|at: int| holds(entries, id, at),
        |id: Seq<char>| entries[choose|at: int| holds(entries, id, at)].1@,
    )
}

spec fn distinct(entries: Seq<(String, ObservedNotificationRecord)>) -> bool {
    forall|i: int, j: int|
        0 <= i < j < entries.len() ==> (#[trigger] entries[i]).0@ != (#[trigger] entries[j]).0@
}

proof fn lemma_entry(entries: Seq<(String, ObservedNotificationRecord)>, at: int)
    requires
        distinct(entries),
        0 <= at < entries.len(),
    ensures
        entries_map(entries).dom().contains(entries[at].0@),
        entries_map(entries)[entries[at].0@] == entries[at].1@,
{
    let id = entries[at].0@;
    assert(holds(entries, id, at));
    let k = choose|k: int| holds(entries, id, k);
    assert(k == at);
}

/// What an empty ledger holds after each of `records` was put into it, in order.
pub open spec fn put_all(records: Seq<(Seq<char>, RecordView)>) -> Map<Seq<char>, RecordView>
    decreases records.len(),
{
    if records.len() == 0 {
        Map::empty()
    } else {
        put_all(records.drop_last()).insert(records.last().0, records.last().1)
    }
}

spec fn entry_views(entries: Seq<(String, ObservedNotificationRecord)>) -> Seq<
    (Seq<char>, RecordView),
> {
    entries.map_values(|entry: (String, ObservedNotificationRecord)| (entry.0@, entry.1@))
}

proof fn lemma_put_all(entries: Seq<(String, ObservedNotificationRecord)>)
    requires
        distinct(entries),
    ensures
        put_all(entry_views(entries)) == entries_map(entries),
    decreases entries.len(),
{
    if entries.len() == 0 {
        assert(entries_map(entries) =~= Map::<Seq<char>, RecordView>::empty());
    } else {
        let front = entries.drop_last();
        let last = entries.len() - 1;
        let before = entries_map(front);
        let now = entries_map(entries);
        lemma_put_all(front);
        assert(entry_views(entries).drop_last() =~= entry_views(front));
        assert forall|id: Seq<char>| #![auto]
            now.dom().contains(id) == before.insert(
                entries[last].0@,
                entries[last].1@,
            ).dom().contains(id) by {
            if exists|a: int| holds(entries, id, a) {
                let a = choose|a: int| holds(entries, id, a);
                if a != last {
                    assert(holds(front, id, a));
                }
            }
            if exists|a: int| holds(front, id, a) {
                let a = choose|a: int| holds(front, id, a);
                assert(holds(entries, id, a));
            }
            assert(holds(entries, entries[last].0@, last));
        }
        assert forall|id: Seq<char>| now.dom().contains(id) implies #[trigger] now[id]
            == before.insert(entries[last].0@, entries[last].1@)[id] by {
            let a = choose|a: int| holds(entries, id, a);
            lemma_entry(entries, a);
            if a != last {
                assert(front[a] == entries[a]);
                lemma_entry(front, a);
            }
        }
        assert(now =~= before.insert(entries[last].0@, entries[last].1@));
    }
}

impl View for ObservedNotificationLedger {
    type V = Map<Seq<char>, RecordView>;

    closed spec fn view(&self) -> Map<Seq<char>, RecordView> {
        entries_map(self.entries@)
    }
}

impl ObservedNotificationLedger {
    #[verifier::type_invariant]
    spec fn one_record_each(self) -> bool {
        distinct(self.entries@)
    }

    pub fn new() -> (r: ObservedNotificationLedger)
        ensures
            r@ == Map::<Seq<char>, RecordView>::empty(),
    {
        let r = ObservedNotificationLedger { entries: Vec::new() };
        assert(r@ =~= Map::<Seq<char>, RecordView>::empty());
        r
    }

    fn position(&self, id: &str) -> (r: Option<usize>)
        ensures
            match r {
                Some(at) => holds(self.entries@, id@, at as int),
                None => !self@.dom().contains(id@),
            },
    {
        let mut i: usize = 0;
        while i < self.entries.len()
            invariant
                i <= self.entries@.len(),
                forall|k: int| 0 <= k < i ==> (#[trigger] self.entries@[k]).0@ != id@,
            decreases self.entries@.len() - i,
        {
            if text::same(self.entries[i].0.as_str(), id) {
                return Some(i);
            }
            i = i + 1;
        }
        None
    }

    /// Sets the record of the notification named `id`.
    pub fn put(&mut self, id: &str, record: ObservedNotificationRecord)
        ensures
            final(self)@ == old(self)@.insert(id@, record@),
    {
        let found = self.position(id);
        let ghost before = self.entries@;
        proof {
            use_type_invariant(&*self);
        }
        let mut entries: Vec<(String, ObservedNotificationRecord)> = Vec::new();
        std::mem::swap(&mut self.entries, &mut entries);
        match found {
            Some(at) => {
                entries.set(at, (id.to_owned(), record));
                proof {
                    let now = entries@;
                    assert forall|i: int, j: int| 0 <= i < j < now.len() implies (
                    #[trigger] now[i]).0@ != (#[trigger] now[j]).0@ by {
                        assert(now[i].0@ == before[i].0@);
                        assert(now[j].0@ == before[j].0@);
                    }
                    assert forall|k: Seq<char>| #![auto]
                        entries_map(now).dom().contains(k) == entries_map(before).insert(
                            id@,
                            record@,
                        ).dom().contains(k) by {
                        if exists|a: int| holds(now, k, a) {
                            let a = choose|a: int| holds(now, k, a);
                            assert(holds(before, k, a));
                        }
                        if exists|a: int| holds(before, k, a) {
                            let a = choose|a: int| holds(before, k, a);
                            assert(holds(now, k, a));
                        }
                        assert(holds(now, id@, at as int));
                    }
                    assert forall|k: Seq<char>| entries_map(now).dom().contains(
                        k,
                    ) implies #[trigger] entries_map(now)[k] == entries_map(before).insert(
                        id@,
                        record@,
                    )[k] by {
                        let a = choose|a: int| holds(now, k, a);
                        lemma_entry(now, a);
                        lemma_entry(before, a);
                        if k == id@ {
                            assert(holds(now, k, at as int));
                            assert(a == at);
                        }
                    }
                    assert(entries_map(now) =~= entries_map(before).insert(id@, record@));
                }
            },
            None => {
                entries.push((id.to_owned(), record));
                proof {
                    let now = entries@;
                    let last = before.len() as int;
                    assert forall|i: int, j: int| 0 <= i < j < now.len() implies (
                    #[trigger] now[i]).0@ != (#[trigger] now[j]).0@ by {
                        assert(now[i] == before[i]);
                        if j == last {
                            lemma_entry(before, i);
                        } else {
                            assert(now[j] == before[j]);
                        }
                    }
                    assert forall|k: Seq<char>| #![auto]
                        entries_map(now).dom().contains(k) == entries_map(before).insert(
                            id@,
                            record@,
                        ).dom().contains(k) by {
                        if exists|a: int| holds(now, k, a) {
                            let a = choose|a: int| holds(now, k, a);
                            if a != last {
                                assert(holds(before, k, a));
                            }
                        }
                        if exists|a: int| holds(before, k, a) {
                            let a = choose|a: int| holds(before, k, a);
                            assert(holds(now, k, a));
                        }
                        assert(holds(now, id@, last));
                    }
                    assert forall|k: Seq<char>| entries_map(now).dom().contains(
                        k,
                    ) implies #[trigger] entries_map(now)[k] == entries_map(before).insert(
                        id@,
                        record@,
                    )[k] by {
                        let a = choose|a: int| holds(now, k, a);
                        lemma_entry(now, a);
                        if a != last {
                            assert(now[a] == before[a]);
                            lemma_entry(before, a);
                        }
                    }
                    assert(entries_map(now) =~= entries_map(before).insert(id@, record@));
                }
            },
        }
        self.entries = entries;
    }

    pub fn contains_current(&self, notification: &Notification) -> (r: bool)
        ensures
            r == is_current(self@, *notification),
    {
        proof {
            use_type_invariant(self);
        }
        match self.position(notification.id.as_str()) {
            Some(at) => {
                proof {
                    lemma_entry(self.entries@, at as int);
                }
                self.entries[at].1.matches(notification)
            },
            None => false,
        }
    }

    pub fn record_current(&mut self, notification: &Notification)
        ensures
            final(self)@ == old(self)@.insert(notification.id@, record_of(*notification)),
    {
        self.put(notification.id.as_str(), ObservedNotificationRecord::of(notification));
    }

    /// The notifications on record and their records, in the order in which they came.
    pub closed spec fn listed(self) -> Seq<(Seq<char>, RecordView)> {
        entry_views(self.entries@)
    }

    /// The number of notifications on record. Putting all of them into an empty
    /// ledger, one by one, gives this ledger again.
    pub fn len(&self) -> (r: usize)
        ensures
            r == self.listed().len(),
            put_all(self.listed()) == self@,
    {
        proof {
            use_type_invariant(self);
            lemma_put_all(self.entries@);
        }
        self.entries.len()
    }

    /// The notification at a place of the list, and its record.
    pub fn entry(&self, at: usize) -> (r: (&str, &ObservedNotificationRecord))
        requires
            at < self.listed().len(),
        ensures
            (r.0@, r.1@) == self.listed()[at as int],
    {
        (self.entries[at].0.as_str(), &self.entries[at].1)
    }
}

/// A recorded notification is current until it is updated again or gets another
/// latest comment; the record of one notification says nothing of another.
pub proof fn law_observation_is_current_until_changed(
    observed: Map<Seq<char>, RecordView>,
    recorded: Notification,
    asked: Notification,
)
    ensures
        ({
            let after = observed.insert(recorded.id@, record_of(recorded));
            is_current(after, asked) == (if asked.id@ == recorded.id@ {
                &&& asked.updated_at@ == recorded.updated_at@
                &&& text::opt_view(asked.latest_comment_url) == text::opt_view(
                    recorded.latest_comment_url,
                )
            } else {
                is_current(observed, asked)
            })
        }),
{
}

/// A store that lasts as long as the process.
#[derive(Debug, Eq, PartialEq)]
pub struct MemoryObservedNotificationStore {
    ledger: ObservedNotificationLedger,
}

impl MemoryObservedNotificationStore {
    pub fn new() -> (r: MemoryObservedNotificationStore)
        ensures
            r.observed() == Map::<Seq<char>, RecordView>::empty(),
    {
        MemoryObservedNotificationStore { ledger: ObservedNotificationLedger::new() }
    }
}

impl ObservedNotificationStore for MemoryObservedNotificationStore {
    closed spec fn observed(&self) -> Map<Seq<char>, RecordView> {
        self.ledger@
    }

    fn contains_current(&self, notification: &Notification) -> (r: Result<bool, StoreError>)
        ensures
            r is Ok,
    {
        Ok(self.ledger.contains_current(notification))
    }

    fn record_current(&mut self, notification: &Notification) -> (r: Result<(), StoreError>)
        ensures
            r is Ok,
    {
        self.ledger.record_current(notification);
        Ok(())
    }
}

/// A store in a file.
#[derive(Debug, Eq, PartialEq)]
pub struct FileObservedNotificationStore {
    path: String,
}

impl FileObservedNotificationStore {
    pub closed spec fn path_text(self) -> Seq<char> {
        self.path@
    }

    pub fn new(path: &str) -> (r: FileObservedNotificationStore)
        ensures
            r.path_text() == path@,
    {
        FileObservedNotificationStore { path: path.to_owned() }
    }

    pub fn path(&self) -> (r: &str)
        ensures
            r@ == self.path_text(),
    {
        self.path.as_str()
    }
}

/// A ledger holds, for each notification, what was put into it last.
pub proof fn law_the_last_record_counts(
    records: Seq<(Seq<char>, RecordView)>,
    id: Seq<char>,
    record: RecordView,
    other: Seq<char>,
)
    ensures
        put_all(Seq::<(Seq<char>, RecordView)>::empty()) == Map::<Seq<char>, RecordView>::empty(),
        ({
            let after = put_all(records.push((id, record)));
            &&& after.dom().contains(id) && after[id] == record
            &&& other != id ==> (after.dom().contains(other) <==> put_all(
                records,
            ).dom().contains(other))
            &&& other != id && put_all(records).dom().contains(other) ==> after[other]
                == put_all(records)[other]
        }),
{
    assert(records.push((id, record)).drop_last() =~= records);
}

/// A notification is on record as it is now exactly where its record has the same
/// time of change and the same latest comment.
pub proof fn law_when_an_observation_is_current(
    observed: Map<Seq<char>, RecordView>,
    notification: Notification,
)
    ensures
        is_current(observed, notification) <==> {
            &&& observed.dom().contains(notification.id@)
            &&& observed[notification.id@].updated_at == notification.updated_at@
            &&& observed[notification.id@].latest_comment_url == text::opt_view(
                notification.latest_comment_url,
            )
        },
{
}

/// A record holds when a notification was last updated and its latest comment.
pub proof fn law_what_a_record_holds(
    record: ObservedNotificationRecord,
    notification: Notification,
)
    ensures
        record@.updated_at == record.updated_at@,
        record@.latest_comment_url == text::opt_view(record.latest_comment_url),
        record_of(notification).updated_at == notification.updated_at@,
        record_of(notification).latest_comment_url == text::opt_view(
            notification.latest_comment_url,
        ),
{
}

/// A record takes the place of the one before it, and of no other's.
pub proof fn law_records_take_their_own_place(id: &str, record: ObservedNotificationRecord)
    ensures
        forall|ledger: &mut ObservedNotificationLedger| #[trigger]
            call_ensures(ObservedNotificationLedger::put, (ledger, id, record), ()) ==> {
                &&& (*final(ledger))@[id@] == record@
                &&& (*final(ledger))@.remove(id@) == (*ledger)@.remove(id@)
                &&& (*final(ledger))@.dom().contains(id@)
            },
{
}

} // verus!
