//! The reconciliation engine: what to do with each feed entry, given the
//! announcement recorded for it, and what a whole cycle does.
use crate::feed::{EntryView, FeedEntry};
use crate::render::{
    published_at, published_instant, render, rendering, NotificationView, RenderError,
    RenderedNotification,
};
use vstd::prelude::*;

verus! {

/// The persisted link between a feed entry and the message it produced at a
/// target (a webhook): an announcement record.
#[derive(Clone, Debug)]
pub struct Post {
    pub announcement_id: String,
    pub webhook_id: u64,
    pub message_id: u64,
    /// Publication instant of the entry version that the message shows.
    pub last_updated: i64,
}

impl Post {
    pub fn announcement_id(&self) -> (r: &String)
        ensures
            r == &self.announcement_id,
    {
        &self.announcement_id
    }

    pub fn webhook_id(&self) -> (r: u64)
        ensures
            r == self.webhook_id,
    {
        self.webhook_id
    }

    pub fn message_id(&self) -> (r: u64)
        ensures
            r == self.message_id,
    {
        self.message_id
    }

    pub fn last_updated(&self) -> (r: i64)
        ensures
            r == self.last_updated,
    {
        self.last_updated
    }
}

/// A record to insert.
#[derive(Clone, Debug)]
pub struct NewPost {
    pub announcement_id: String,
    pub webhook_id: u64,
    pub message_id: u64,
    pub last_updated: i64,
}

impl NewPost {
    pub fn new(announcement_id: String, webhook_id: u64, message_id: u64, last_updated: i64) -> (r: NewPost)
        ensures
            r.announcement_id@ == announcement_id@,
            r.webhook_id == webhook_id,
            r.message_id == message_id,
            r.last_updated == last_updated,
    {
        NewPost { announcement_id, webhook_id, message_id, last_updated }
    }
}

/// A store, as a map from (target, entry guid) to (message id, last updated).
pub type StoreMap = Map<(int, Seq<char>), (int, int)>;

/// The three classifications of an entry.
#[derive(Clone, Copy, Debug, PartialEq, Eq, Structural)]
pub enum Classification {
    /// No record exists.
    Unseen,
    /// A record exists for an older version; its message id.
    Stale(u64),
    /// The record is as new as the entry, or newer.
    Current,
}

/// Why one entry could not be processed.
#[derive(Clone, Copy, Debug, PartialEq, Eq, Structural)]
pub enum EntryError {
    /// The entry has no guid.
    MissingGuid,
    /// The entry could not be rendered (or its date read).
    Render(RenderError),
    /// The messaging sink refused the call.
    Sink,
    /// The store refused the write.
    Store(StoreError),
}

/// Why a store write failed.
#[derive(Clone, Copy, Debug, PartialEq, Eq, Structural)]
pub enum StoreError {
    /// An insert met an existing key.
    DuplicateKey,
    /// An update met no record.
    NotFound,
    /// The storage engine failed.
    Backend,
}

/// A call on the messaging sink.
#[derive(Clone, Debug)]
pub enum SinkCall {
    Create(RenderedNotification),
    /// Edit the message with this id.
    Edit(u64, RenderedNotification),
}

pub enum CallView {
    Create(NotificationView),
    Edit(int, NotificationView),
}

impl View for SinkCall {
    type V = CallView;

    open spec fn view(&self) -> CallView {
        match self {
            SinkCall::Create(n) => CallView::Create(n@),
            SinkCall::Edit(m, n) => CallView::Edit(*m as int, n@),
        }
    }
}

impl SinkCall {
    /// A copy of the call.
    pub fn duplicate(&self) -> (r: SinkCall)
        ensures
            r@ == self@,
    {
        match self {
            SinkCall::Create(n) => SinkCall::Create(n.duplicate()),
            SinkCall::Edit(m, n) => SinkCall::Edit(*m, n.duplicate()),
        }
    }
}

/// A write on the store.
#[derive(Clone, Debug)]
pub enum StoreWrite {
    Insert(NewPost),
    /// Set `last_updated` of the record under (target, guid).
    Update(u64, String, i64),
}

/// A write on the store: its key and the (message id, last updated) it
/// stores, and whether it inserts.
pub struct WriteView {
    pub insert: bool,
    pub key: (int, Seq<char>),
    pub message_id: int,
    pub last_updated: int,
}

/// The record state that a lookup found.
pub open spec fn found_state(r: Option<Post>) -> Option<(int, int)> {
    match r {
        Some(rec) => Some((rec.message_id as int, rec.last_updated as int)),
        None => None,
    }
}

/// What the store holds under `k`.
pub open spec fn lookup(s: StoreMap, k: (int, Seq<char>)) -> Option<(int, int)> {
    if s.contains_key(k) {
        Some(s[k])
    } else {
        None
    }
}

pub open spec fn classification_of(found: Option<(int, int)>, published: int) -> Classification {
    match found {
        None => Classification::Unseen,
        Some((m, last)) => if last < published {
            Classification::Stale(m as u64)
        } else {
            Classification::Current
        },
    }
}

/// Classifies an entry published at `published` against the record found
/// for it.
pub fn classify(found: &Option<Post>, published: i64) -> (c: Classification)
    ensures
        c == classification_of(found_state(*found), published as int),
{
    match found {
        None => Classification::Unseen,
        Some(rec) => if rec.last_updated < published {
            Classification::Stale(rec.message_id)
        } else {
            Classification::Current
        },
    }
}

/// The guid and publication instant of an entry.
pub open spec fn key_of(e: EntryView) -> Result<(Seq<char>, int), EntryError> {
    match e.guid {
        None => Err(EntryError::MissingGuid),
        Some(g) => match published_at(e) {
            Ok(p) => Ok((g, p)),
            Err(r) => Err(EntryError::Render(r)),
        },
    }
}

/// The guid and publication instant of an entry.
pub fn entry_key(entry: &FeedEntry) -> (r: Result<(String, i64), EntryError>)
    ensures
        match r {
            Ok((g, p)) => key_of(entry@) == Ok::<(Seq<char>, int), EntryError>((g@, p as int)),
            Err(e) => key_of(entry@) == Err::<(Seq<char>, int), EntryError>(e),
        },
{
    let guid = match &entry.guid {
        None => return Err(EntryError::MissingGuid),
        Some(g) => g.clone(),
    };
    match published_instant(entry) {
        Ok(p) => Ok((guid, p)),
        Err(r) => Err(EntryError::Render(r)),
    }
}

/// The sink call an entry needs, given what the store holds for it: none
/// where it is current, else a create or an edit of its rendering.
pub open spec fn plan_of(e: EntryView, found: Option<(int, int)>, hint: Seq<char>) -> Result<
    Option<CallView>,
    EntryError,
> {
    match key_of(e) {
        Err(x) => Err(x),
        Ok((g, p)) => match classification_of(found, p) {
            Classification::Current => Ok(None),
            Classification::Unseen => match rendering(e, hint) {
                Ok(n) => Ok(Some(CallView::Create(n))),
                Err(r) => Err(EntryError::Render(r)),
            },
            Classification::Stale(_) => match rendering(e, hint) {
                Ok(n) => Ok(Some(CallView::Edit(found->Some_0.0, n))),
                Err(r) => Err(EntryError::Render(r)),
            },
        },
    }
}

pub open spec fn plan_view(r: Result<Option<SinkCall>, EntryError>) -> Result<
    Option<CallView>,
    EntryError,
> {
    match r {
        Ok(Some(c)) => Ok(Some(c@)),
        Ok(None) => Ok(None),
        Err(e) => Err(e),
    }
}

/// Decides the sink call for an entry, given the record found under its
/// key.
pub fn plan_entry(entry: &FeedEntry, found: &Option<Post>, hint: &str) -> (r: Result<
    Option<SinkCall>,
    EntryError,
>)
    ensures
        plan_view(r) == plan_of(entry@, found_state(*found), hint@),
{
    let (_guid, published) = entry_key(entry)?;
    match classify(found, published) {
        Classification::Current => Ok(None),
        Classification::Unseen => match render(entry, hint) {
            Ok(n) => Ok(Some(SinkCall::Create(n))),
            Err(r) => Err(EntryError::Render(r)),
        },
        Classification::Stale(m) => match render(entry, hint) {
            Ok(n) => Ok(Some(SinkCall::Edit(m, n))),
            Err(r) => Err(EntryError::Render(r)),
        },
    }
}

/// The store write that follows a successful sink call: after a create, an
/// insert with the new message's id; after an edit, an update of
/// `last_updated` that keeps the message id.
pub open spec fn write_of(target: int, guid: Seq<char>, published: int, call: CallView, created: int) -> WriteView {
    match call {
        CallView::Create(_) => WriteView {
            insert: true,
            key: (target, guid),
            message_id: created,
            last_updated: published,
        },
        CallView::Edit(m, _) => WriteView {
            insert: false,
            key: (target, guid),
            message_id: m,
            last_updated: published,
        },
    }
}

impl View for StoreWrite {
    type V = WriteView;

    open spec fn view(&self) -> WriteView {
        match self {
            StoreWrite::Insert(r) => WriteView {
                insert: true,
                key: (r.webhook_id as int, r.announcement_id@),
                message_id: r.message_id as int,
                last_updated: r.last_updated as int,
            },
            StoreWrite::Update(t, g, p) => WriteView {
                insert: false,
                key: (*t as int, g@),
                message_id: -1,
                last_updated: *p as int,
            },
        }
    }
}

/// The write after `call` succeeded; `created` is the id of the message
/// that a create produced (unused after an edit).
pub fn write_for(target_id: u64, guid: &String, published: i64, call: &SinkCall, created: u64) -> (w: StoreWrite)
    ensures
        w@.insert == write_of(target_id as int, guid@, published as int, call@, created as int).insert,
        w@.key == write_of(target_id as int, guid@, published as int, call@, created as int).key,
        w@.last_updated == write_of(target_id as int, guid@, published as int, call@, created as int).last_updated,
        w@.insert ==> w@.message_id == write_of(target_id as int, guid@, published as int, call@, created as int).message_id,
{
    match call {
        SinkCall::Create(_) => StoreWrite::Insert(
            NewPost::new(guid.clone(), target_id, created, published),
        ),
        SinkCall::Edit(_, _) => StoreWrite::Update(target_id, guid.clone(), published),
    }
}

/// A write applied to the store, with the errors of an insert over an
/// existing key and an update of a missing one.
pub open spec fn apply_write(s: StoreMap, w: WriteView) -> Result<StoreMap, StoreError> {
    if w.insert {
        if s.contains_key(w.key) {
            Err(StoreError::DuplicateKey)
        } else {
            Ok(s.insert(w.key, (w.message_id, w.last_updated)))
        }
    } else {
        if s.contains_key(w.key) {
            Ok(s.insert(w.key, (s[w.key].0, w.last_updated)))
        } else {
            Err(StoreError::NotFound)
        }
    }
}

/// One entry processed against the store: the sink call made, if any, and
/// the store afterwards. `reply` is the sink's answer to that call: the
/// created message's id (any value after an edit), or `None` where it
/// failed.
pub open spec fn step(s: StoreMap, target: int, e: EntryView, hint: Seq<char>, reply: Option<int>) -> (
    Option<CallView>,
    StoreMap,
) {
    match key_of(e) {
        Err(_) => (None, s),
        Ok((g, p)) => match plan_of(e, lookup(s, (target, g)), hint) {
            Err(_) => (None, s),
            Ok(None) => (None, s),
            Ok(Some(c)) => match reply {
                None => (Some(c), s),
                Some(id) => match apply_write(s, write_of(target, g, p, c, id)) {
                    Ok(s2) => (Some(c), s2),
                    Err(_) => (Some(c), s),
                },
            },
        },
    }
}

pub open spec fn first_reply(r: Seq<Option<int>>) -> Option<int> {
    if r.len() > 0 {
        r[0]
    } else {
        None
    }
}

pub open spec fn rest_replies(r: Seq<Option<int>>) -> Seq<Option<int>> {
    if r.len() > 0 {
        r.drop_first()
    } else {
        r
    }
}

/// A cycle over `es` in feed order: the sink calls made, in order, the
/// store afterwards, and the replies left over. The sink's replies are
/// taken in order, one per call.
pub open spec fn cycle(s: StoreMap, target: int, es: Seq<EntryView>, hint: Seq<char>, replies: Seq<Option<int>>) -> (
    Seq<CallView>,
    StoreMap,
    Seq<Option<int>>,
)
    decreases es.len(),
{
    if es.len() == 0 {
        (Seq::empty(), s, replies)
    } else {
        let (c, s1) = step(s, target, es[0], hint, first_reply(replies));
        match c {
            None => cycle(s1, target, es.drop_first(), hint, replies),
            Some(call) => {
                let (cs, s2, rest) = cycle(s1, target, es.drop_first(), hint, rest_replies(replies));
                (seq![call] + cs, s2, rest)
            },
        }
    }
}

/// Where a cycle stands within the current entry.
pub enum Stage {
    /// About to start the entry at `next`.
    Ready,
    /// Waiting for the store's lookup of (guid, publication instant).
    Looking(String, i64),
    /// Waiting for the sink's answer to the call.
    Sending(String, i64, SinkCall),
    /// Waiting for the store's write.
    Writing,
}

/// What the caller reports back after performing an action.
pub enum Event {
    /// Go on (after a `Failed` action, or to start).
    Proceed,
    /// The record the store holds under the looked-up key.
    Found(Option<Post>),
    /// The store could not be read.
    LookupFailed,
    /// The sink's answer: the created message's id (any value after an
    /// edit), or `None` where the call failed.
    Sent(Option<u64>),
    /// The store's answer to the write.
    Written(Result<(), StoreError>),
}

/// What the caller is asked to do next.
pub enum Action {
    /// Look up the record under (target, guid).
    Lookup(u64, String),
    /// Make this call on the sink.
    Call(SinkCall),
    /// Make this write on the store.
    Write(StoreWrite),
    /// The entry at this index failed; nothing was changed for it.
    Failed(usize, EntryError),
    /// Every entry has been processed.
    Finished,
}

/// One reconciliation cycle over the entries of a feed, taken in feed
/// order. The caller performs each action and reports the outcome.
pub struct SyncCycle {
    pub target_id: u64,
    pub hint: String,
    pub entries: Vec<FeedEntry>,
    pub next: usize,
    pub stage: Stage,
}

pub enum StageView {
    Ready,
    Looking(Seq<char>, int),
    Sending(Seq<char>, int, CallView),
    Writing,
}

pub struct CycleView {
    pub target: int,
    pub hint: Seq<char>,
    pub entries: Seq<EntryView>,
    pub next: int,
    pub stage: StageView,
}

pub enum EventView {
    Proceed,
    Found(Option<(int, int)>),
    LookupFailed,
    Sent(Option<int>),
    Written(Result<(), StoreError>),
}

pub enum ActionView {
    Lookup(int, Seq<char>),
    Call(CallView),
    Write(WriteView),
    Failed(int, EntryError),
    Finished,
}

impl View for Stage {
    type V = StageView;

    open spec fn view(&self) -> StageView {
        match self {
            Stage::Ready => StageView::Ready,
            Stage::Looking(g, p) => StageView::Looking(g@, *p as int),
            Stage::Sending(g, p, c) => StageView::Sending(g@, *p as int, c@),
            Stage::Writing => StageView::Writing,
        }
    }
}

impl View for SyncCycle {
    type V = CycleView;

    open spec fn view(&self) -> CycleView {
        CycleView {
            target: self.target_id as int,
            hint: self.hint@,
            entries: self.entries@.map_values(|e: FeedEntry| e@),
            next: self.next as int,
            stage: self.stage@,
        }
    }
}

impl View for Event {
    type V = EventView;

    open spec fn view(&self) -> EventView {
        match self {
            Event::Proceed => EventView::Proceed,
            Event::Found(f) => EventView::Found(found_state(*f)),
            Event::LookupFailed => EventView::LookupFailed,
            Event::Sent(r) => EventView::Sent(
                match r {
                    Some(id) => Some(*id as int),
                    None => None,
                },
            ),
            Event::Written(r) => EventView::Written(*r),
        }
    }
}

impl View for Action {
    type V = ActionView;

    open spec fn view(&self) -> ActionView {
        match self {
            Action::Lookup(t, g) => ActionView::Lookup(*t as int, g@),
            Action::Call(c) => ActionView::Call(c@),
            Action::Write(w) => ActionView::Write(w@),
            Action::Failed(i, e) => ActionView::Failed(*i as int, *e),
            Action::Finished => ActionView::Finished,
        }
    }
}

/// The write of an update keeps the message id, so its view leaves it out.
pub open spec fn write_matches(w: WriteView, x: WriteView) -> bool {
    &&& w.insert == x.insert
    &&& w.key == x.key
    &&& w.last_updated == x.last_updated
    &&& w.insert ==> w.message_id == x.message_id
}

/// Starting the entry at `v.next`: a lookup of its key, a failure where its
/// key cannot be read, or the end of the cycle.
pub open spec fn begin_spec(v: CycleView) -> (CycleView, ActionView) {
    if v.next >= v.entries.len() {
        (CycleView { stage: StageView::Ready, ..v }, ActionView::Finished)
    } else {
        match key_of(v.entries[v.next]) {
            Err(x) => (
                CycleView { next: v.next + 1, stage: StageView::Ready, ..v },
                ActionView::Failed(v.next, x),
            ),
            Ok((g, p)) => (
                CycleView { stage: StageView::Looking(g, p), ..v },
                ActionView::Lookup(v.target, g),
            ),
        }
    }
}

/// The event that the cycle waits for in its stage.
pub open spec fn accepts_spec(v: CycleView, ev: EventView) -> bool {
    match v.stage {
        StageView::Ready => ev is Proceed,
        StageView::Looking(_, _) => ev is Found || ev is LookupFailed,
        StageView::Sending(_, _, _) => ev is Sent,
        StageView::Writing => ev is Written,
    }
}

/// What the cycle does on an event: the next state and action, where the
/// action is a write only as far as `write_matches` says.
pub open spec fn resume_ok(v: CycleView, ev: EventView, v2: CycleView, a: ActionView) -> bool {
    let i = v.next;
    match (v.stage, ev) {
        (StageView::Looking(g, p), EventView::Found(found)) => match plan_of(v.entries[i], found, v.hint) {
            Err(x) => v2 == CycleView { next: i + 1, stage: StageView::Ready, ..v } && a == ActionView::Failed(i, x),
            Ok(None) => (v2, a) == begin_spec(CycleView { next: i + 1, stage: StageView::Ready, ..v }),
            Ok(Some(c)) => v2 == CycleView { stage: StageView::Sending(g, p, c), ..v } && a == ActionView::Call(c),
        },
        (StageView::Looking(_, _), EventView::LookupFailed) => v2 == CycleView {
            next: i + 1,
            stage: StageView::Ready,
            ..v
        } && a == ActionView::Failed(i, EntryError::Store(StoreError::Backend)),
        (StageView::Sending(g, p, c), EventView::Sent(reply)) => match reply {
            None => v2 == CycleView { next: i + 1, stage: StageView::Ready, ..v } && a == ActionView::Failed(i, EntryError::Sink),
            Some(id) => v2 == CycleView { stage: StageView::Writing, ..v } && a is Write && write_matches(
                a->Write_0,
                write_of(v.target, g, p, c, id),
            ),
        },
        (StageView::Writing, EventView::Written(res)) => match res {
            Err(x) => v2 == CycleView { next: i + 1, stage: StageView::Ready, ..v } && a == ActionView::Failed(i, EntryError::Store(x)),
            Ok(_) => (v2, a) == begin_spec(CycleView { next: i + 1, stage: StageView::Ready, ..v }),
        },
        _ => (v2, a) == begin_spec(v),
    }
}

impl SyncCycle {
    /// The state machine's invariant: the entry in flight exists.
    pub open spec fn wf(&self) -> bool {
        &&& self.next <= self.entries.len()
        &&& !(self.stage is Ready) ==> self.next < self.entries.len()
    }

    /// A cycle over `entries` for the target `target_id`, with `hint` as the
    /// informational field of each notification.
    pub fn new(target_id: u64, hint: String, entries: Vec<FeedEntry>) -> (r: SyncCycle)
        ensures
            r.wf(),
            r@ == (CycleView {
                target: target_id as int,
                hint: hint@,
                entries: entries@.map_values(|e: FeedEntry| e@),
                next: 0,
                stage: StageView::Ready,
            }),
    {
        SyncCycle { target_id, hint, entries, next: 0, stage: Stage::Ready }
    }

    /// Whether `event` is the one the cycle waits for.
    pub fn accepts(&self, event: &Event) -> (r: bool)
        ensures
            r == accepts_spec(self@, event@),
    {
        match (&self.stage, event) {
            (Stage::Ready, Event::Proceed) => true,
            (Stage::Looking(_, _), Event::Found(_)) => true,
            (Stage::Looking(_, _), Event::LookupFailed) => true,
            (Stage::Sending(_, _, _), Event::Sent(_)) => true,
            (Stage::Writing, Event::Written(_)) => true,
            _ => false,
        }
    }

    fn begin(&mut self) -> (a: Action)
        requires
            old(self).wf(),
            old(self).stage is Ready,
        ensures
            final(self).wf(),
            (final(self)@, a@) == begin_spec(old(self)@),
    {
        if self.next >= self.entries.len() {
            return Action::Finished;
        }
        let i = self.next;
        assert(self@.entries[i as int] == self.entries[i as int]@);
        match entry_key(&self.entries[i]) {
            Err(x) => {
                self.next = i + 1;
                Action::Failed(i, x)
            },
            Ok((g, p)) => {
                let g2 = g.clone();
                self.stage = Stage::Looking(g, p);
                Action::Lookup(self.target_id, g2)
            },
        }
    }

    /// Takes the outcome of the last action and gives the next one.
    pub fn resume(&mut self, event: Event) -> (a: Action)
        requires
            old(self).wf(),
            accepts_spec(old(self)@, event@),
        ensures
            final(self).wf(),
            resume_ok(old(self)@, event@, final(self)@, a@),
    {
        let i = self.next;
        let mut stage = Stage::Ready;
        core::mem::swap(&mut stage, &mut self.stage);
        match (stage, event) {
            (Stage::Looking(g, p), Event::Found(found)) => {
                assert(old(self)@.entries[i as int] == self.entries[i as int]@);
                match plan_entry(&self.entries[i], &found, self.hint.as_str()) {
                    Err(x) => {
                        self.next = i + 1;
                        Action::Failed(i, x)
                    },
                    Ok(None) => {
                        self.next = i + 1;
                        self.begin()
                    },
                    Ok(Some(c)) => {
                        let a = Action::Call(c.duplicate());
                        self.stage = Stage::Sending(g, p, c);
                        a
                    },
                }
            },
            (Stage::Looking(_, _), Event::LookupFailed) => {
                self.next = i + 1;
                Action::Failed(i, EntryError::Store(StoreError::Backend))
            },
            (Stage::Sending(g, p, c), Event::Sent(reply)) => match reply {
                None => {
                    self.next = i + 1;
                    Action::Failed(i, EntryError::Sink)
                },
                Some(id) => {
                    let w = write_for(self.target_id, &g, p, &c, id);
                    self.stage = Stage::Writing;
                    Action::Write(w)
                },
            },
            (Stage::Writing, Event::Written(res)) => match res {
                Err(x) => {
                    self.next = i + 1;
                    Action::Failed(i, EntryError::Store(x))
                },
                Ok(()) => {
                    self.next = i + 1;
                    self.begin()
                },
            },
            (_, _) => self.begin(),
        }
    }
}

} // verus!
