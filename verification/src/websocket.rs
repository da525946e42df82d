//! A WebSocket session: which transactions a client follows, and what is sent
//! to it.
//!
//! Messages come in, are sent and are parsed elsewhere. A session takes what
//! happened and says what to do.

use vstd::prelude::*;
use vstd::string::*;

use crate::text::{same_text, texts};

verus! {

/// After so many seconds without a message a session is over.
pub const INACTIVITY_SECS: u64 = 300;

/// Where a transaction stands.
#[derive(Clone, Copy, Debug, PartialEq, Eq, Structural)]
pub enum TransactionStatus {
    Pending,
    Submitted,
    Confirmed,
    Failed,
}

impl TransactionStatus {
    /// The status as it is sent.
    pub open spec fn text(self) -> Seq<char> {
        match self {
            TransactionStatus::Pending => "PENDING"@,
            TransactionStatus::Submitted => "SUBMITTED"@,
            TransactionStatus::Confirmed => "CONFIRMED"@,
            TransactionStatus::Failed => "FAILED"@,
        }
    }

    /// The status as it is sent.
    pub fn name(&self) -> (name: &'static str)
        ensures
            name@ == self.text(),
    {
        match self {
            TransactionStatus::Pending => "PENDING",
            TransactionStatus::Submitted => "SUBMITTED",
            TransactionStatus::Confirmed => "CONFIRMED",
            TransactionStatus::Failed => "FAILED",
        }
    }
}

/// News of a transaction.
#[derive(Debug)]
pub struct TransactionStatusEvent {
    pub tx_id: String,
    pub status: TransactionStatus,
    pub timestamp: String,
    pub message: Option<String>,
}

/// What a client asks for.
#[derive(Debug)]
pub struct SubscribeMessage {
    pub action: String,
    pub tx_id: String,
}

/// What happens to a session.
#[derive(Debug)]
pub enum Incoming {
    /// The client has sent a request.
    Request(SubscribeMessage),
    /// The client has sent a text that is no request.
    Unparsable,
    /// The client has sent something else than a text.
    Other,
    /// The client has closed the connection, or is gone.
    Closed,
    /// The connection has failed.
    SocketError,
    /// News have come for the subscription of a transaction.
    Update { subscription: String, event: TransactionStatusEvent },
    /// News for a subscription have come too fast, and some are lost.
    Lagged,
    /// There will be no more news.
    ChannelClosed,
    /// A message could not be sent.
    SendFailed,
    /// So many seconds have passed without a message.
    Idle(u64),
}

/// A message to the client: its type, and its data, of which nothing stands for
/// null.
#[derive(Debug, PartialEq, Eq)]
pub struct ServerMessage {
    pub msg_type: String,
    pub data: Vec<(String, Option<String>)>,
}

/// What a message says.
pub struct MessageView {
    pub msg_type: Seq<char>,
    pub data: Seq<(Seq<char>, Option<Seq<char>>)>,
}

/// What an optional text says.
pub open spec fn text_view(text: Option<String>) -> Option<Seq<char>> {
    match text {
        Some(t) => Some(t@),
        None => None,
    }
}

impl View for ServerMessage {
    type V = MessageView;

    open spec fn view(&self) -> MessageView {
        MessageView {
            msg_type: self.msg_type@,
            data: self.data@.map_values(
                |field: (String, Option<String>)| (field.0@, text_view(field.1)),
            ),
        }
    }
}

/// What to do.
#[derive(Debug, PartialEq, Eq)]
pub enum Action {
    /// Count one more subscriber of a transaction.
    AddSubscriber(String),
    /// Count one subscriber of a transaction less.
    RemoveSubscriber(String),
    /// Listen for news of a transaction once more.
    OpenReceiver(String),
    /// Stop listening for news of a transaction.
    DropReceivers(String),
    /// Send a message.
    Send(ServerMessage),
    /// End the session.
    Stop,
}

/// What an action says.
pub enum ActionView {
    AddSubscriber(Seq<char>),
    RemoveSubscriber(Seq<char>),
    OpenReceiver(Seq<char>),
    DropReceivers(Seq<char>),
    Send(MessageView),
    Stop,
}

impl View for Action {
    type V = ActionView;

    open spec fn view(&self) -> ActionView {
        match *self {
            Action::AddSubscriber(id) => ActionView::AddSubscriber(id@),
            Action::RemoveSubscriber(id) => ActionView::RemoveSubscriber(id@),
            Action::OpenReceiver(id) => ActionView::OpenReceiver(id@),
            Action::DropReceivers(id) => ActionView::DropReceivers(id@),
            Action::Send(message) => ActionView::Send(message@),
            Action::Stop => ActionView::Stop,
        }
    }
}

/// What each action says.
pub open spec fn action_views(actions: Seq<Action>) -> Seq<ActionView> {
    actions.map_values(|a: Action| a@)
}

/// What a session remembers.
#[verifier::ext_equal]
pub struct SessionView {
    /// The transactions that the client follows, each as often as it asked.
    pub subscriptions: Seq<Seq<char>>,
    pub open: bool,
}

/// The message that confirms a subscription.
pub open spec fn subscribed_message(tx_id: Seq<char>) -> MessageView {
    MessageView {
        msg_type: "subscribed"@,
        data: seq![("tx_id"@, Some(tx_id)), ("status"@, Some("subscribed"@))],
    }
}

/// The message that tells news.
pub open spec fn update_message(event: TransactionStatusEvent) -> MessageView {
    MessageView {
        msg_type: "status_update"@,
        data: seq![
            ("tx_id"@, Some(event.tx_id@)),
            ("status"@, Some(event.status.text())),
            ("timestamp"@, Some(event.timestamp@)),
            ("message"@, text_view(event.message)),
        ],
    }
}

/// The identifiers but for `id`.
pub open spec fn without_id(ids: Seq<Seq<char>>, id: Seq<char>) -> Seq<Seq<char>>
    decreases ids.len(),
{
    if ids.len() == 0 {
        Seq::empty()
    } else if ids.last() == id {
        without_id(ids.drop_last(), id)
    } else {
        without_id(ids.drop_last(), id).push(ids.last())
    }
}

/// One subscriber less for each identifier.
pub open spec fn removals(ids: Seq<Seq<char>>) -> Seq<ActionView> {
    ids.map_values(|id: Seq<char>| ActionView::RemoveSubscriber(id))
}

/// A session that is over.
pub open spec fn ended(s: SessionView) -> SessionView {
    SessionView { open: false, ..s }
}

/// What a session does with what happens: where it stands then, and what is to
/// be done. An action that is neither a subscription nor its end is ignored, as
/// is a text that is no request. News are sent only for the transaction that the
/// subscription is for.
pub open spec fn session_step(s: SessionView, incoming: Incoming) -> (
    SessionView,
    Seq<ActionView>,
) {
    if !s.open {
        (s, Seq::empty())
    } else {
        match incoming {
            Incoming::Request(request) => if request.action@ == "subscribe"@ {
                (
                    SessionView { subscriptions: s.subscriptions.push(request.tx_id@), ..s },
                    seq![
                        ActionView::AddSubscriber(request.tx_id@),
                        ActionView::OpenReceiver(request.tx_id@),
                        ActionView::Send(subscribed_message(request.tx_id@)),
                    ],
                )
            } else if request.action@ == "unsubscribe"@ {
                (
                    SessionView {
                        subscriptions: without_id(s.subscriptions, request.tx_id@),
                        ..s
                    },
                    seq![
                        ActionView::RemoveSubscriber(request.tx_id@),
                        ActionView::DropReceivers(request.tx_id@),
                    ],
                )
            } else {
                (s, Seq::empty())
            },
            Incoming::Unparsable | Incoming::Other | Incoming::Lagged => (s, Seq::empty()),
            Incoming::Closed => (ended(s), removals(s.subscriptions).push(ActionView::Stop)),
            Incoming::Idle(secs) => if secs >= INACTIVITY_SECS {
                (ended(s), removals(s.subscriptions).push(ActionView::Stop))
            } else {
                (s, Seq::empty())
            },
            Incoming::SocketError | Incoming::ChannelClosed | Incoming::SendFailed => (
                ended(s),
                seq![ActionView::Stop],
            ),
            Incoming::Update { subscription, event } => if subscription@ == event.tx_id@
                && s.subscriptions.contains(subscription@) {
                (s, seq![ActionView::Send(update_message(event))])
            } else {
                (s, Seq::empty())
            },
        }
    }
}

fn field(name: &str, value: &str) -> (field: (String, Option<String>))
    ensures
        field.0@ == name@,
        text_view(field.1) == Some(value@),
{
    (name.to_string(), Some(value.to_string()))
}

impl ServerMessage {
    /// The message that confirms a subscription.
    pub fn subscribed(tx_id: &str) -> (message: ServerMessage)
        ensures
            message@ == subscribed_message(tx_id@),
    {
        let mut data: Vec<(String, Option<String>)> = Vec::new();
        data.push(field("tx_id", tx_id));
        data.push(field("status", "subscribed"));
        let message = ServerMessage { msg_type: "subscribed".to_string(), data };
        assert(message@.data =~= subscribed_message(tx_id@).data);
        message
    }

    /// The message that tells news.
    pub fn status_update(event: TransactionStatusEvent) -> (message: ServerMessage)
        ensures
            message@ == update_message(event),
    {
        let mut data: Vec<(String, Option<String>)> = Vec::new();
        data.push(field("tx_id", event.tx_id.as_str()));
        data.push(field("status", event.status.name()));
        data.push(field("timestamp", event.timestamp.as_str()));
        data.push(("message".to_string(), event.message));
        let message = ServerMessage { msg_type: "status_update".to_string(), data };
        assert(message@.data =~= update_message(event).data);
        message
    }
}

/// A session.
#[derive(Debug)]
pub struct Session {
    subscriptions: Vec<String>,
    open: bool,
}

impl View for Session {
    type V = SessionView;

    closed spec fn view(&self) -> SessionView {
        SessionView { subscriptions: texts(self.subscriptions@), open: self.open }
    }
}

impl Session {
    /// A session of a client that has just connected.
    pub fn new() -> (session: Self)
        ensures
            session@ == (SessionView { subscriptions: Seq::empty(), open: true }),
    {
        let session = Session { subscriptions: Vec::new(), open: true };
        assert(session@ =~= (SessionView { subscriptions: Seq::empty(), open: true }));
        session
    }

    /// Whether the session goes on.
    pub fn is_open(&self) -> (open: bool)
        ensures
            open == self@.open,
    {
        self.open
    }

    /// How many subscriptions the session has.
    pub fn subscription_count(&self) -> (count: usize)
        ensures
            count == self@.subscriptions.len(),
    {
        self.subscriptions.len()
    }

    fn follows(&self, tx_id: &str) -> (found: bool)
        ensures
            found == self@.subscriptions.contains(tx_id@),
    {
        let mut i: usize = 0;
        while i < self.subscriptions.len()
            invariant
                i <= self.subscriptions@.len(),
                forall|k: int| 0 <= k < i ==> self@.subscriptions[k] != tx_id@,
            decreases self.subscriptions@.len() - i,
        {
            if same_text(self.subscriptions[i].as_str(), tx_id) {
                assert(self@.subscriptions[i as int] == tx_id@);
                return true;
            }
            i = i + 1;
        }
        false
    }

    fn forget(&mut self, tx_id: &str)
        ensures
            final(self)@ == (SessionView {
                subscriptions: without_id(old(self)@.subscriptions, tx_id@),
                ..old(self)@
            }),
    {
        let ghost all = texts(self.subscriptions@);
        let mut kept: Vec<String> = Vec::new();
        let mut i: usize = 0;
        assert(all.take(0) =~= Seq::empty());
        while i < self.subscriptions.len()
            invariant
                i <= self.subscriptions@.len(),
                self@ == old(self)@,
                all == texts(self.subscriptions@),
                texts(kept@) =~= without_id(all.take(i as int), tx_id@),
            decreases self.subscriptions@.len() - i,
        {
            proof {
                let now = all.take(i + 1);
                assert(now.drop_last() =~= all.take(i as int));
                assert(now.last() == self.subscriptions@[i as int]@);
            }
            if !same_text(self.subscriptions[i].as_str(), tx_id) {
                kept.push(self.subscriptions[i].clone());
            }
            i = i + 1;
        }
        assert(all.take(i as int) =~= all);
        self.subscriptions = kept;
        assert(self@ =~= (SessionView {
            subscriptions: without_id(old(self)@.subscriptions, tx_id@),
            ..old(self)@
        }));
    }

    fn disconnect(&mut self) -> (actions: Vec<Action>)
        ensures
            final(self)@ == ended(old(self)@),
            action_views(actions@) == removals(old(self)@.subscriptions).push(ActionView::Stop),
    {
        let ghost all = texts(self.subscriptions@);
        let mut actions: Vec<Action> = Vec::new();
        let mut i: usize = 0;
        while i < self.subscriptions.len()
            invariant
                i <= self.subscriptions@.len(),
                self@ == old(self)@,
                all == texts(self.subscriptions@),
                action_views(actions@) =~= removals(all.take(i as int)),
            decreases self.subscriptions@.len() - i,
        {
            let ghost before = actions@;
            let removal = Action::RemoveSubscriber(self.subscriptions[i].clone());
            assert(removal@ == ActionView::RemoveSubscriber(all[i as int]));
            actions.push(removal);
            i = i + 1;
            assert(action_views(actions@) =~= action_views(before).push(removal@));
            assert(removals(all.take(i as int)) =~= removals(all.take(i - 1)).push(removal@));
        }
        assert(all.take(i as int) =~= all);
        actions.push(Action::Stop);
        self.open = false;
        assert(self@ =~= ended(old(self)@));
        assert(action_views(actions@) =~= removals(all).push(ActionView::Stop));
        actions
    }

    fn stop(&mut self) -> (actions: Vec<Action>)
        ensures
            final(self)@ == ended(old(self)@),
            action_views(actions@) == seq![ActionView::Stop],
    {
        self.open = false;
        let mut actions: Vec<Action> = Vec::new();
        actions.push(Action::Stop);
        assert(self@ =~= ended(old(self)@));
        assert(action_views(actions@) =~= seq![ActionView::Stop]);
        actions
    }

    /// Takes what happened, and says what to do, in this order.
    pub fn handle(&mut self, incoming: Incoming) -> (actions: Vec<Action>)
        ensures
            (final(self)@, action_views(actions@)) == session_step(old(self)@, incoming),
    {
        let ghost before = self@;
        let mut actions: Vec<Action> = Vec::new();
        assert(action_views(actions@) =~= Seq::empty());
        if !self.open {
            return actions;
        }
        match incoming {
            Incoming::Request(request) => {
                if same_text(request.action.as_str(), "subscribe") {
                    self.subscriptions.push(request.tx_id.clone());
                    actions.push(Action::AddSubscriber(request.tx_id.clone()));
                    actions.push(Action::OpenReceiver(request.tx_id.clone()));
                    actions.push(
                        Action::Send(ServerMessage::subscribed(request.tx_id.as_str())),
                    );
                    assert(self@ =~= session_step(before, incoming).0);
                    assert(action_views(actions@) =~= session_step(before, incoming).1);
                } else if same_text(request.action.as_str(), "unsubscribe") {
                    self.forget(request.tx_id.as_str());
                    actions.push(Action::RemoveSubscriber(request.tx_id.clone()));
                    actions.push(Action::DropReceivers(request.tx_id.clone()));
                    assert(action_views(actions@) =~= session_step(before, incoming).1);
                }
                actions
            },
            Incoming::Unparsable | Incoming::Other | Incoming::Lagged => actions,
            Incoming::Closed => self.disconnect(),
            Incoming::Idle(secs) => if secs >= INACTIVITY_SECS {
                self.disconnect()
            } else {
                actions
            },
            Incoming::SocketError | Incoming::ChannelClosed | Incoming::SendFailed => self.stop(),
            Incoming::Update { subscription, event } => {
                if same_text(subscription.as_str(), event.tx_id.as_str()) && self.follows(
                    subscription.as_str(),
                ) {
                    actions.push(Action::Send(ServerMessage::status_update(event)));
                    assert(action_views(actions@) =~= session_step(before, incoming).1);
                }
                actions
            },
        }
    }
}

// ── What holds of sessions ──────────────────────────────────────────────────

/// How often `id` is among the identifiers.
pub open spec fn occurrences(ids: Seq<Seq<char>>, id: Seq<char>) -> nat
    decreases ids.len(),
{
    if ids.len() == 0 {
        0
    } else {
        occurrences(ids.drop_last(), id) + (if ids.last() == id {
            1nat
        } else {
            0nat
        })
    }
}

/// By how much actions change the count of subscribers of a transaction.
pub open spec fn count_change(actions: Seq<ActionView>, id: Seq<char>) -> int
    decreases actions.len(),
{
    if actions.len() == 0 {
        0
    } else {
        count_change(actions.drop_last(), id) + (match actions.last() {
            ActionView::AddSubscriber(tx_id) => if tx_id == id {
                1int
            } else {
                0int
            },
            ActionView::RemoveSubscriber(tx_id) => if tx_id == id {
                -1int
            } else {
                0int
            },
            _ => 0int,
        })
    }
}

proof fn lemma_removals(ids: Seq<Seq<char>>, id: Seq<char>)
    ensures
        count_change(removals(ids), id) == -occurrences(ids, id),
    decreases ids.len(),
{
    if ids.len() > 0 {
        lemma_removals(ids.drop_last(), id);
        assert(removals(ids).drop_last() =~= removals(ids.drop_last()));
    }
}

/// Each subscription counts a subscriber, also when it repeats one.
pub proof fn subscriptions_are_counted(s: SessionView, request: SubscribeMessage, id: Seq<char>)
    requires
        s.open,
        request.action@ == "subscribe"@,
    ensures
        ({
            let (t, actions) = session_step(s, Incoming::Request(request));
            let more: int = if request.tx_id@ == id {
                1
            } else {
                0
            };
            &&& occurrences(t.subscriptions, id) == occurrences(s.subscriptions, id) + more
            &&& count_change(actions, id) == more
        }),
{
    let (t, actions) = session_step(s, Incoming::Request(request));
    assert(t.subscriptions.drop_last() =~= s.subscriptions);
    let one = seq![ActionView::AddSubscriber(request.tx_id@)];
    let two = one.push(ActionView::OpenReceiver(request.tx_id@));
    assert(actions.drop_last() =~= two);
    assert(two.drop_last() =~= one);
    assert(one.drop_last() =~= Seq::empty());
    assert(count_change(Seq::<ActionView>::empty(), id) == 0);
    assert(count_change(one, id) == if request.tx_id@ == id { 1int } else { 0int });
    assert(count_change(two, id) == count_change(one, id));
}

/// A client that goes away, or stays silent too long, is taken out of every count
/// as often as it is in, and the session is over.
pub proof fn going_away_cleans_up(s: SessionView, secs: u64, id: Seq<char>)
    requires
        s.open,
        secs >= INACTIVITY_SECS,
    ensures
        count_change(session_step(s, Incoming::Closed).1, id) == -occurrences(
            s.subscriptions,
            id,
        ),
        session_step(s, Incoming::Idle(secs)) == session_step(s, Incoming::Closed),
        !session_step(s, Incoming::Closed).0.open,
{
    let actions = session_step(s, Incoming::Closed).1;
    assert(actions.drop_last() =~= removals(s.subscriptions));
    lemma_removals(s.subscriptions, id);
}

proof fn lemma_without_id(ids: Seq<Seq<char>>, id: Seq<char>, other: Seq<char>)
    ensures
        !without_id(ids, id).contains(id),
        other != id ==> occurrences(without_id(ids, id), other) == occurrences(ids, other),
        occurrences(without_id(ids, id), id) == 0,
    decreases ids.len(),
{
    if ids.len() > 0 {
        let rest = ids.drop_last();
        lemma_without_id(rest, id, other);
        let kept = without_id(rest, id);
        if ids.last() != id {
            let all = kept.push(ids.last());
            assert(all.drop_last() =~= kept);
            if all.contains(id) {
                let i = choose|i: int| 0 <= i < all.len() && all[i] == id;
                assert(i < kept.len());
                assert(kept[i] == id);
            }
        }
    }
}

/// After the end of a subscription nothing more is sent for its transaction, and
/// the other subscriptions stay.
pub proof fn unsubscribing_ends_the_news(
    s: SessionView,
    request: SubscribeMessage,
    subscription: String,
    event: TransactionStatusEvent,
    other: Seq<char>,
)
    requires
        s.open,
        request.action@ == "unsubscribe"@,
        event.tx_id@ == request.tx_id@,
        other != request.tx_id@,
    ensures
        ({
            let t = session_step(s, Incoming::Request(request)).0;
            &&& session_step(t, Incoming::Update { subscription, event }).1 == Seq::<
                ActionView,
            >::empty()
            &&& occurrences(t.subscriptions, request.tx_id@) == 0
            &&& occurrences(t.subscriptions, other) == occurrences(s.subscriptions, other)
        }),
{
    reveal_strlit("subscribe");
    reveal_strlit("unsubscribe");
    assert("subscribe"@[0] == 's' && "unsubscribe"@[0] == 'u');
    lemma_without_id(s.subscriptions, request.tx_id@, other);
}

/// Where a transaction was counted once, the end of its subscription takes it
/// out of the count.
pub proof fn unsubscribing_once_is_balanced(s: SessionView, request: SubscribeMessage)
    requires
        s.open,
        request.action@ == "unsubscribe"@,
        occurrences(s.subscriptions, request.tx_id@) == 1,
    ensures
        count_change(session_step(s, Incoming::Request(request)).1, request.tx_id@)
            == -occurrences(s.subscriptions, request.tx_id@),
{
    reveal_strlit("subscribe");
    reveal_strlit("unsubscribe");
    assert("subscribe"@[0] == 's' && "unsubscribe"@[0] == 'u');
    let id = request.tx_id@;
    let actions = session_step(s, Incoming::Request(request)).1;
    let one = seq![ActionView::RemoveSubscriber(id)];
    assert(actions.drop_last() =~= one);
    assert(one.drop_last() =~= Seq::empty());
    assert(count_change(Seq::<ActionView>::empty(), id) == 0);
    assert(count_change(one, id) == -1);
}

/// A client gets the news of a transaction that it follows, and no news of any
/// that it does not follow.
pub proof fn news_of_followed_transactions_only(
    s: SessionView,
    subscription: String,
    event: TransactionStatusEvent,
)
    requires
        s.open,
    ensures
        s.subscriptions.contains(subscription@) && subscription@ == event.tx_id@ ==> session_step(
            s,
            Incoming::Update { subscription, event },
        ).1 == seq![ActionView::Send(update_message(event))],
        !s.subscriptions.contains(event.tx_id@) ==> session_step(
            s,
            Incoming::Update { subscription, event },
        ).1 == Seq::<ActionView>::empty(),
{
}

/// A session that is over does nothing more.
pub proof fn over_is_over(s: SessionView, incoming: Incoming)
    requires
        !s.open,
    ensures
        session_step(s, incoming) == (s, Seq::<ActionView>::empty()),
{
}

} // verus!
