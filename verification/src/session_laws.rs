//! What a WebSocket session does with each thing that happens to it.

use vstd::prelude::*;

use crate::websocket::{session_step, subscribed_message, update_message, without_id};
use crate::websocket::{
    ActionView, Incoming, SessionView, SubscribeMessage, TransactionStatus, TransactionStatusEvent,
};

verus! {

/// A subscription is remembered behind the others, also where it repeats one; a
/// subscriber is counted, news are listened for, and the subscription is
/// confirmed, in this order.
pub proof fn what_subscribing_does(s: SessionView, request: SubscribeMessage)
    requires
        s.open,
        request.action@ == "subscribe"@,
    ensures
        ({
            let (t, actions) = session_step(s, Incoming::Request(request));
            &&& t.open
            &&& t.subscriptions == s.subscriptions.push(request.tx_id@)
            &&& actions.len() == 3
            &&& actions[0] == ActionView::AddSubscriber(request.tx_id@)
            &&& actions[1] == ActionView::OpenReceiver(request.tx_id@)
            &&& actions[2] is Send
            &&& actions[2]->Send_0.msg_type == "subscribed"@
            &&& actions[2]->Send_0.data == seq![
                ("tx_id"@, Some(request.tx_id@)),
                ("status"@, Some("subscribed"@)),
            ]
        }),
{
}

/// The end of a subscription forgets the transaction altogether; a subscriber is
/// counted off, and its news are not listened for any more, in this order. It is
/// done also for a transaction that the client does not follow.
pub proof fn what_unsubscribing_does(s: SessionView, request: SubscribeMessage)
    requires
        s.open,
        request.action@ == "unsubscribe"@,
    ensures
        ({
            let (t, actions) = session_step(s, Incoming::Request(request));
            &&& t.open
            &&& t.subscriptions == without_id(s.subscriptions, request.tx_id@)
            &&& actions.len() == 2
            &&& actions[0] == ActionView::RemoveSubscriber(request.tx_id@)
            &&& actions[1] == ActionView::DropReceivers(request.tx_id@)
        }),
{
    reveal_strlit("subscribe");
    reveal_strlit("unsubscribe");
    assert("subscribe"@[0] == 's' && "unsubscribe"@[0] == 'u');
}

/// Forgetting an identifier takes out every copy of it, and keeps the others in
/// their order.
pub proof fn forgetting_keeps_the_others(ids: Seq<Seq<char>>, id: Seq<char>, next: Seq<char>)
    ensures
        without_id(Seq::empty(), id) == Seq::<Seq<char>>::empty(),
        without_id(ids.push(id), id) == without_id(ids, id),
        next != id ==> without_id(ids.push(next), id) == without_id(ids, id).push(next),
{
    assert(ids.push(id).drop_last() =~= ids);
    assert(ids.push(next).drop_last() =~= ids);
}

/// What is neither a subscription nor its end, what is no request, and news that
/// were lost, change nothing and are not answered. Nor is a silence of less than
/// five minutes.
pub proof fn what_is_ignored(s: SessionView, incoming: Incoming)
    requires
        incoming matches Incoming::Request(request) ==> request.action@ != "subscribe"@
            && request.action@ != "unsubscribe"@,
        !(incoming is Closed),
        !(incoming is SocketError),
        !(incoming is ChannelClosed),
        !(incoming is SendFailed),
        !(incoming is Update),
        incoming matches Incoming::Idle(secs) ==> secs < 300,
    ensures
        session_step(s, incoming).0 == s,
        session_step(s, incoming).1.len() == 0,
{
}

/// A client that closes, or is silent for five minutes or longer, is counted off
/// once for each of its subscriptions, in their order, before the session ends.
pub proof fn what_going_away_does(s: SessionView, incoming: Incoming)
    requires
        s.open,
        incoming is Closed || incoming is Idle,
        incoming matches Incoming::Idle(secs) ==> secs >= 300,
    ensures
        ({
            let (t, actions) = session_step(s, incoming);
            &&& !t.open
            &&& t.subscriptions == s.subscriptions
            &&& actions.len() == s.subscriptions.len() + 1
            &&& actions.last() is Stop
            &&& forall|i: int|
                0 <= i < s.subscriptions.len() ==> #[trigger] actions[i]
                    == ActionView::RemoveSubscriber(s.subscriptions[i])
        }),
{
}

/// Where the connection or the news fail, the session ends, and nothing else is
/// done.
pub proof fn what_failing_does(s: SessionView, incoming: Incoming)
    requires
        s.open,
        incoming is SocketError || incoming is ChannelClosed || incoming is SendFailed,
    ensures
        ({
            let (t, actions) = session_step(s, incoming);
            &&& !t.open
            &&& t.subscriptions == s.subscriptions
            &&& actions == seq![ActionView::Stop]
        }),
{
}

/// News are sent once where they are of the transaction that the subscription is
/// for and the client follows it, with all that they say, and not otherwise. They
/// change nothing.
pub proof fn what_news_do(s: SessionView, subscription: String, event: TransactionStatusEvent)
    requires
        s.open,
    ensures
        ({
            let (t, actions) = session_step(s, Incoming::Update { subscription, event });
            let due = subscription@ == event.tx_id@ && s.subscriptions.contains(event.tx_id@);
            &&& t == s
            &&& !due ==> actions.len() == 0
            &&& due ==> {
                &&& actions.len() == 1
                &&& actions[0] is Send
                &&& actions[0]->Send_0.msg_type == "status_update"@
                &&& actions[0]->Send_0.data.len() == 4
                &&& actions[0]->Send_0.data[0] == ("tx_id"@, Some(event.tx_id@))
                &&& actions[0]->Send_0.data[1].0 == "status"@
                &&& event.status == TransactionStatus::Pending ==> actions[0]->Send_0.data[1].1
                    == Some("PENDING"@)
                &&& event.status == TransactionStatus::Submitted ==> actions[0]->Send_0.data[1].1
                    == Some("SUBMITTED"@)
                &&& event.status == TransactionStatus::Confirmed ==> actions[0]->Send_0.data[1].1
                    == Some("CONFIRMED"@)
                &&& event.status == TransactionStatus::Failed ==> actions[0]->Send_0.data[1].1
                    == Some("FAILED"@)
                &&& actions[0]->Send_0.data[2] == ("timestamp"@, Some(event.timestamp@))
                &&& actions[0]->Send_0.data[3].0 == "message"@
                &&& event.message is None ==> actions[0]->Send_0.data[3].1 is None
                &&& event.message matches Some(text) ==> actions[0]->Send_0.data[3].1 == Some(text@)
            }
        }),
{
}

/// The messages themselves, wherever they are built.
pub proof fn what_messages_say(tx_id: Seq<char>, event: TransactionStatusEvent)
    ensures
        subscribed_message(tx_id).msg_type == "subscribed"@,
        subscribed_message(tx_id).data.len() == 2,
        subscribed_message(tx_id).data[0] == ("tx_id"@, Some(tx_id)),
        subscribed_message(tx_id).data[1] == ("status"@, Some("subscribed"@)),
        update_message(event).msg_type == "status_update"@,
        update_message(event).data.len() == 4,
        update_message(event).data[0] == ("tx_id"@, Some(event.tx_id@)),
        update_message(event).data[1].0 == "status"@,
        update_message(event).data[2] == ("timestamp"@, Some(event.timestamp@)),
        update_message(event).data[3].0 == "message"@,
{
}

} // verus!
