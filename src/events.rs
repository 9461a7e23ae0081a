use crate::identity::MessageHandle;
use crate::registry::{drain, lemma_drain_keeps, EventDrivenMessageContainer};
use vstd::prelude::*;

verus! {

/// The kinds of notification that callbacks can be registered for, one per
/// kind of platform event that is routed. Events of other kinds run nothing.
#[derive(Clone, Copy, Debug, PartialEq, Eq, Structural, Hash)]
pub enum NotificationKind {
    ChannelCreate,
    ChannelDelete,
    ChannelPinsUpdate,
    ChannelUpdate,
    GuildBanAdd,
    GuildBanRemove,
    GuildCreate,
    GuildDelete,
    GuildEmojisUpdate,
    GuildIntegrationsUpdate,
    GuildMemberAdd,
    GuildMemberRemove,
    GuildMemberUpdate,
    GuildMembersChunk,
    GuildRoleCreate,
    GuildRoleDelete,
    GuildRoleUpdate,
    GuildUnavailable,
    GuildUpdate,
    InviteCreate,
    InviteDelete,
    MessageCreate,
    MessageDelete,
    MessageDeleteBulk,
    MessageUpdate,
    PresenceUpdate,
    PresencesReplace,
    ReactionAdd,
    ReactionRemove,
    ReactionRemoveAll,
    Ready,
    Resumed,
    TypingStart,
    UserUpdate,
    VoiceStateUpdate,
    VoiceServerUpdate,
    WebhookUpdate,
    InteractionCreate,
    IntegrationCreate,
    IntegrationUpdate,
    IntegrationDelete,
    StageInstanceCreate,
    StageInstanceUpdate,
    StageInstanceDelete,
    ThreadCreate,
    ThreadUpdate,
    ThreadDelete,
    ThreadListSync,
    ThreadMemberUpdate,
    ThreadMembersUpdate,
    /// An event that the platform sent but did not name.
    Unknown,
}

/// The routes that every handler has from the start.
#[derive(Clone, Copy, Debug, PartialEq, Eq, Structural)]
pub enum BuiltinRoute {
    /// Start the periodic sweep over the registry, once per process.
    StartUpdateLoop,
    /// Hand a reaction to the listener of its message.
    ReactionAdd,
    /// Hand a removed reaction to the listener of its message.
    ReactionRemove,
    /// Retire the listener of a deleted message.
    MessageDelete,
    /// Retire the listeners of deleted messages.
    MessageDeleteBulk,
}

/// Where a notification goes: a built-in route, or a callback of the user,
/// known by its number.
#[derive(Clone, Copy, Debug, PartialEq, Eq, Structural)]
pub enum Route {
    Builtin(BuiltinRoute),
    Callback(u64),
}

/// A table of callbacks keyed by notification kind. Every callback registered
/// for a notification's kind runs for it, in registration order.
pub struct RichEventHandler {
    callbacks: Vec<(NotificationKind, Route)>,
}

impl View for RichEventHandler {
    type V = Seq<(NotificationKind, Route)>;

    closed spec fn view(&self) -> Seq<(NotificationKind, Route)> {
        self.callbacks@
    }
}

/// The routes registered for `kind` among the first `n` entries of the table.
pub open spec fn routes_upto(t: Seq<(NotificationKind, Route)>, kind: NotificationKind, n: nat) -> Seq<
    Route,
>
    decreases n,
{
    if n == 0 {
        Seq::empty()
    } else if t[n - 1].0 == kind {
        routes_upto(t, kind, (n - 1) as nat).push(t[n - 1].1)
    } else {
        routes_upto(t, kind, (n - 1) as nat)
    }
}

/// The routes registered for `kind`, in registration order.
pub open spec fn routes(t: Seq<(NotificationKind, Route)>, kind: NotificationKind) -> Seq<Route> {
    routes_upto(t, kind, t.len())
}

/// The table that a handler starts with.
pub open spec fn builtin_table() -> Seq<(NotificationKind, Route)> {
    seq![
        (NotificationKind::Ready, Route::Builtin(BuiltinRoute::StartUpdateLoop)),
        (NotificationKind::ReactionAdd, Route::Builtin(BuiltinRoute::ReactionAdd)),
        (NotificationKind::ReactionRemove, Route::Builtin(BuiltinRoute::ReactionRemove)),
        (NotificationKind::MessageDelete, Route::Builtin(BuiltinRoute::MessageDelete)),
        (NotificationKind::MessageDeleteBulk, Route::Builtin(BuiltinRoute::MessageDeleteBulk)),
    ]
}

impl Default for RichEventHandler {
    /// A handler with the built-in routes: the sweep starts on readiness,
    /// reactions go to their message's listener, deleted messages retire theirs.
    fn default() -> (r: RichEventHandler)
        ensures
            r@ == builtin_table(),
    {
        let callbacks = vec![
            (NotificationKind::Ready, Route::Builtin(BuiltinRoute::StartUpdateLoop)),
            (NotificationKind::ReactionAdd, Route::Builtin(BuiltinRoute::ReactionAdd)),
            (NotificationKind::ReactionRemove, Route::Builtin(BuiltinRoute::ReactionRemove)),
            (NotificationKind::MessageDelete, Route::Builtin(BuiltinRoute::MessageDelete)),
            (NotificationKind::MessageDeleteBulk, Route::Builtin(BuiltinRoute::MessageDeleteBulk)),
        ];
        let r = RichEventHandler { callbacks };
        assert(r@ =~= builtin_table());
        r
    }
}

impl RichEventHandler {
    /// A handler with no routes at all.
    pub fn empty() -> (r: RichEventHandler)
        ensures
            r@ == Seq::<(NotificationKind, Route)>::empty(),
    {
        RichEventHandler { callbacks: Vec::new() }
    }

    /// Registers the callback numbered `callback` for notifications of `kind`,
    /// after those registered before.
    pub fn add_event(&mut self, kind: NotificationKind, callback: u64)
        ensures
            final(self)@ == old(self)@.push((kind, Route::Callback(callback))),
    {
        self.callbacks.push((kind, Route::Callback(callback)));
    }

    /// The routes that a notification of `kind` runs, in registration order.
    pub fn routes_for(&self, kind: NotificationKind) -> (r: Vec<Route>)
        ensures
            r@ == routes(self@, kind),
    {
        let mut out: Vec<Route> = Vec::new();
        let mut i: usize = 0;
        while i < self.callbacks.len()
            invariant
                i <= self@.len(),
                self@ == self.callbacks@,
                out@ == routes_upto(self@, kind, i as nat),
            decreases self@.len() - i,
        {
            let (k, route) = self.callbacks[i];
            if k == kind {
                out.push(route);
            }
            i = i + 1;
        }
        out
    }
}

/// Decides whether the sweep starts now: only the first time in a process.
pub fn start_update_loop(started: &mut bool) -> (r: bool)
    ensures
        r == !*old(started),
        *final(started),
{
    let first = !*started;
    *started = true;
    first
}

/// The listener that a reaction added to `message` goes to, if any.
pub fn handle_reaction_add(registry: &EventDrivenMessageContainer, message: MessageHandle) -> (r:
    Option<u64>)
    requires
        registry.wf(),
    ensures
        r == (if registry@.contains_key(message) {
            Some(registry@[message])
        } else {
            None::<u64>
        }),
{
    registry.get(&message)
}

/// The listener that a reaction removed from `message` goes to, if any.
pub fn handle_reaction_remove(registry: &EventDrivenMessageContainer, message: MessageHandle) -> (r:
    Option<u64>)
    requires
        registry.wf(),
    ensures
        r == (if registry@.contains_key(message) {
            Some(registry@[message])
        } else {
            None::<u64>
        }),
{
    registry.get(&message)
}

/// Takes the listener of a deleted message out of the registry. Returns its
/// key, for the listener to learn of the deletion once the registry is free.
pub fn handle_message_delete(
    registry: &mut EventDrivenMessageContainer,
    channel_id: u64,
    message_id: u64,
) -> (r: Vec<u64>)
    requires
        old(registry).wf(),
    ensures
        ({
            let h = MessageHandle { channel_id, message_id };
            &&& final(registry).wf()
            &&& final(registry).issued() == old(registry).issued()
            &&& final(registry)@ == old(registry)@.remove(h)
            &&& r@ == (if old(registry)@.contains_key(h) {
                seq![old(registry)@[h]]
            } else {
                Seq::<u64>::empty()
            })
        }),
{
    let h = MessageHandle::new(channel_id, message_id);
    let mut affected: Vec<u64> = Vec::new();
    if let Some(key) = registry.remove(&h) {
        affected.push(key);
    }
    proof {
        if old(registry)@.contains_key(h) {
            assert(affected@ =~= seq![old(registry)@[h]]);
        } else {
            assert(affected@ =~= Seq::<u64>::empty());
        }
    }
    affected
}

/// The identities of the messages `message_ids` of channel `channel_id`.
pub open spec fn handles_of(channel_id: u64, message_ids: Seq<u64>) -> Seq<MessageHandle> {
    message_ids.map_values(|m: u64| MessageHandle { channel_id, message_id: m })
}

/// Takes the listeners of deleted messages out of the registry. Returns their
/// keys in the order of the messages, for each listener to learn of the
/// deletion once the registry is free.
pub fn handle_message_delete_bulk(
    registry: &mut EventDrivenMessageContainer,
    channel_id: u64,
    message_ids: &Vec<u64>,
) -> (r: Vec<u64>)
    requires
        old(registry).wf(),
    ensures
        final(registry).wf(),
        final(registry).issued() == old(registry).issued(),
        (final(registry)@, r@) == drain(old(registry)@, handles_of(channel_id, message_ids@)),
        forall|k: MessageHandle| #[trigger]
            final(registry)@.contains_key(k) <==> old(registry)@.contains_key(k) && !handles_of(
                channel_id,
                message_ids@,
            ).contains(k),
{
    let mut handles: Vec<MessageHandle> = Vec::new();
    let mut i: usize = 0;
    while i < message_ids.len()
        invariant
            i <= message_ids@.len(),
            handles@ == handles_of(channel_id, message_ids@.subrange(0, i as int)),
        decreases message_ids@.len() - i,
    {
        handles.push(MessageHandle::new(channel_id, message_ids[i]));
        i = i + 1;
        assert(handles@ =~= handles_of(channel_id, message_ids@.subrange(0, i as int)));
    }
    assert(message_ids@.subrange(0, message_ids@.len() as int) == message_ids@);
    registry.remove_all(&handles)
}

/// The identities of the entries of a sweep's snapshot whose listeners
/// reported themselves finished.
pub open spec fn finished_of(snapshot: Seq<(MessageHandle, u64)>, finished: Seq<bool>, n: nat) -> Seq<
    MessageHandle,
>
    decreases n,
{
    if n == 0 {
        Seq::empty()
    } else if finished[n - 1] {
        finished_of(snapshot, finished, (n - 1) as nat).push(snapshot[n - 1].0)
    } else {
        finished_of(snapshot, finished, (n - 1) as nat)
    }
}

/// Whether a sweep's snapshot lists `k` with its listener reported finished.
pub open spec fn reported_finished(
    snapshot: Seq<(MessageHandle, u64)>,
    finished: Seq<bool>,
    k: MessageHandle,
) -> bool {
    exists|i: int| 0 <= i < snapshot.len() && finished[i] && #[trigger] snapshot[i].0 == k
}

proof fn lemma_finished_of(
    snapshot: Seq<(MessageHandle, u64)>,
    finished: Seq<bool>,
    n: nat,
    k: MessageHandle,
)
    requires
        n <= snapshot.len() == finished.len(),
    ensures
        finished_of(snapshot, finished, n).contains(k) <==> exists|i: int|
            0 <= i < n && finished[i] && #[trigger] snapshot[i].0 == k,
    decreases n,
{
    if n > 0 {
        let prev = finished_of(snapshot, finished, (n - 1) as nat);
        lemma_finished_of(snapshot, finished, (n - 1) as nat, k);
        let cur = finished_of(snapshot, finished, n);
        if finished[n - 1] {
            assert(cur == prev.push(snapshot[n - 1].0));
            if prev.contains(k) {
                let j = choose|j: int| 0 <= j < prev.len() && prev[j] == k;
                assert(cur[j] == k);
            }
            if snapshot[n - 1].0 == k {
                assert(cur[prev.len() as int] == k);
            }
            if cur.contains(k) {
                let j = choose|j: int| 0 <= j < cur.len() && cur[j] == k;
                if j < prev.len() {
                    assert(prev[j] == k);
                }
            }
        }
    }
}

/// Ends a sweep: takes the entries of the snapshot whose listener reported
/// itself finished (`finished[i]` for `snapshot[i]`) out of the registry, and
/// returns their keys.
pub fn retire_finished(
    registry: &mut EventDrivenMessageContainer,
    snapshot: &Vec<(MessageHandle, u64)>,
    finished: &Vec<bool>,
) -> (r: Vec<u64>)
    requires
        old(registry).wf(),
        snapshot@.len() == finished@.len(),
    ensures
        final(registry).wf(),
        final(registry).issued() == old(registry).issued(),
        (final(registry)@, r@) == drain(
            old(registry)@,
            finished_of(snapshot@, finished@, snapshot@.len()),
        ),
        forall|k: MessageHandle| #[trigger]
            final(registry)@.contains_key(k) <==> old(registry)@.contains_key(k) && !finished_of(
                snapshot@,
                finished@,
                snapshot@.len(),
            ).contains(k),        forall|k: MessageHandle| #[trigger]
            final(registry)@.contains_key(k) <==> old(registry)@.contains_key(k) && !reported_finished(
                snapshot@,
                finished@,
                k,
            ),
        forall|k: MessageHandle| #[trigger]
            final(registry)@.contains_key(k) ==> final(registry)@[k] == old(registry)@[k],
{
    let mut done: Vec<MessageHandle> = Vec::new();
    let mut i: usize = 0;
    while i < snapshot.len()
        invariant
            i <= snapshot@.len(),
            snapshot@.len() == finished@.len(),
            done@ == finished_of(snapshot@, finished@, i as nat),
        decreases snapshot@.len() - i,
    {
        if finished[i] {
            done.push(snapshot[i].0);
        }
        i = i + 1;
    }
    let r = registry.remove_all(&done);
    proof {
        assert forall|k: MessageHandle| #[trigger]
            finished_of(snapshot@, finished@, snapshot@.len()).contains(k) == reported_finished(
                snapshot@,
                finished@,
                k,
            ) by {
            lemma_finished_of(snapshot@, finished@, snapshot@.len(), k);
        }
    }
    r
}

} // verus!

verus! {

/// A sweep pass never loses a live entry: every entry of the registry that
/// the pass's snapshot does not list with its listener reported finished,
/// whether it was filed before the snapshot or after it, is still there after
/// the pass, under the same key.
pub proof fn lemma_sweep_keeps_unfinished(
    m: Map<MessageHandle, u64>,
    snapshot: Seq<(MessageHandle, u64)>,
    finished: Seq<bool>,
    k: MessageHandle,
)
    requires
        snapshot.len() == finished.len(),
        m.contains_key(k),
        !reported_finished(snapshot, finished, k),
    ensures
        drain(m, finished_of(snapshot, finished, snapshot.len())).0.contains_key(k),
        drain(m, finished_of(snapshot, finished, snapshot.len())).0[k] == m[k],
{
    lemma_finished_of(snapshot, finished, snapshot.len(), k);
    lemma_drain_keeps(m, finished_of(snapshot, finished, snapshot.len()), k);
}

/// A sweep pass retires every entry that its snapshot lists with the listener
/// reported finished.
pub proof fn lemma_sweep_retires_finished(
    m: Map<MessageHandle, u64>,
    snapshot: Seq<(MessageHandle, u64)>,
    finished: Seq<bool>,
    i: int,
)
    requires
        snapshot.len() == finished.len(),
        0 <= i < snapshot.len(),
        finished[i],
    ensures
        !drain(m, finished_of(snapshot, finished, snapshot.len())).0.contains_key(snapshot[i].0),
{
    let k = snapshot[i].0;
    lemma_finished_of(snapshot, finished, snapshot.len(), k);
    lemma_drain_keeps(m, finished_of(snapshot, finished, snapshot.len()), k);
}

} // verus!
