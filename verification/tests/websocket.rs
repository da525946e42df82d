//! WebSocket sessions on concrete messages.

use stellar_router::websocket::{
    Action, Incoming, ServerMessage, Session, SubscribeMessage, TransactionStatus,
    TransactionStatusEvent, INACTIVITY_SECS,
};

fn request(action: &str, tx_id: &str) -> Incoming {
    Incoming::Request(SubscribeMessage {
        action: action.to_string(),
        tx_id: tx_id.to_string(),
    })
}

fn event(tx_id: &str, status: TransactionStatus, message: Option<&str>) -> TransactionStatusEvent {
    TransactionStatusEvent {
        tx_id: tx_id.to_string(),
        status,
        timestamp: "2026-06-17T00:00:00Z".to_string(),
        message: message.map(|m| m.to_string()),
    }
}

fn update(subscription: &str, tx_id: &str) -> Incoming {
    Incoming::Update {
        subscription: subscription.to_string(),
        event: event(tx_id, TransactionStatus::Pending, Some("ok")),
    }
}

fn sent(actions: &[Action]) -> Vec<&ServerMessage> {
    actions
        .iter()
        .filter_map(|a| match a {
            Action::Send(m) => Some(m),
            _ => None,
        })
        .collect()
}

fn data(message: &ServerMessage, key: &str) -> Option<String> {
    message.data.iter().find(|(k, _)| k == key).and_then(|(_, v)| v.clone())
}

#[test]
fn subscribe_update_unsubscribe_and_cleanup() {
    let mut s = Session::new();
    let actions = s.handle(request("subscribe", "tx123"));
    assert_eq!(actions[0], Action::AddSubscriber("tx123".to_string()));
    assert_eq!(actions[1], Action::OpenReceiver("tx123".to_string()));
    assert_eq!(sent(&actions)[0].msg_type, "subscribed");
    assert_eq!(data(sent(&actions)[0], "tx_id").as_deref(), Some("tx123"));
    assert_eq!(data(sent(&actions)[0], "status").as_deref(), Some("subscribed"));

    let actions = s.handle(update("tx123", "tx123"));
    assert_eq!(sent(&actions)[0].msg_type, "status_update");
    assert_eq!(data(sent(&actions)[0], "tx_id").as_deref(), Some("tx123"));
    assert_eq!(data(sent(&actions)[0], "status").as_deref(), Some("PENDING"));
    assert_eq!(data(sent(&actions)[0], "message").as_deref(), Some("ok"));

    let actions = s.handle(request("unsubscribe", "tx123"));
    assert_eq!(
        actions,
        vec![
            Action::RemoveSubscriber("tx123".to_string()),
            Action::DropReceivers("tx123".to_string())
        ]
    );
    assert!(s.handle(update("tx123", "tx123")).is_empty());

    assert_eq!(s.handle(Incoming::Closed), vec![Action::Stop]);
    assert!(!s.is_open());
}

#[test]
fn several_subscriptions_get_their_own_news() {
    let mut s = Session::new();
    s.handle(request("subscribe", "txA"));
    s.handle(request("subscribe", "txB"));
    // Each receiver hears of every transaction; only its own is passed on.
    assert_eq!(sent(&s.handle(update("txA", "txA"))).len(), 1);
    assert!(s.handle(update("txB", "txA")).is_empty());
    assert!(s.handle(update("txA", "txB")).is_empty());
    assert_eq!(sent(&s.handle(update("txB", "txB"))).len(), 1);
    assert!(s.handle(update("txC", "txC")).is_empty());
}

#[test]
fn repeated_subscriptions_count_twice() {
    let mut s = Session::new();
    s.handle(request("subscribe", "dup"));
    s.handle(request("subscribe", "other"));
    let again = s.handle(request("subscribe", "dup"));
    assert_eq!(again[0], Action::AddSubscriber("dup".to_string()));
    assert_eq!(s.subscription_count(), 3);
    assert_eq!(
        s.handle(Incoming::Closed),
        vec![
            Action::RemoveSubscriber("dup".to_string()),
            Action::RemoveSubscriber("other".to_string()),
            Action::RemoveSubscriber("dup".to_string()),
            Action::Stop,
        ]
    );
}

#[test]
fn unsubscribing_forgets_every_copy() {
    let mut s = Session::new();
    s.handle(request("subscribe", "dup"));
    s.handle(request("subscribe", "dup"));
    s.handle(request("subscribe", "kept"));
    let actions = s.handle(request("unsubscribe", "dup"));
    assert_eq!(actions.len(), 2);
    assert_eq!(s.subscription_count(), 1);
}

#[test]
fn what_is_ignored() {
    let mut s = Session::new();
    assert!(s.handle(request("listen", "tx")).is_empty());
    assert!(s.handle(Incoming::Unparsable).is_empty());
    assert!(s.handle(Incoming::Other).is_empty());
    assert!(s.handle(Incoming::Lagged).is_empty());
    assert!(s.handle(Incoming::Idle(INACTIVITY_SECS - 1)).is_empty());
    assert!(s.is_open());
    assert_eq!(s.subscription_count(), 0);
}

#[test]
fn what_ends_a_session() {
    for cause in [Incoming::SocketError, Incoming::ChannelClosed, Incoming::SendFailed] {
        let mut s = Session::new();
        s.handle(request("subscribe", "tx"));
        assert_eq!(s.handle(cause), vec![Action::Stop]);
        assert!(!s.is_open());
        assert!(s.handle(request("subscribe", "tx")).is_empty());
    }
    let mut s = Session::new();
    s.handle(request("subscribe", "tx"));
    assert_eq!(
        s.handle(Incoming::Idle(300)),
        vec![Action::RemoveSubscriber("tx".to_string()), Action::Stop]
    );
}

#[test]
fn message_fields() {
    let e = event("t", TransactionStatus::Failed, None);
    let m = ServerMessage::status_update(e);
    assert_eq!(m.msg_type, "status_update");
    assert_eq!(
        m.data,
        vec![
            ("tx_id".to_string(), Some("t".to_string())),
            ("status".to_string(), Some("FAILED".to_string())),
            ("timestamp".to_string(), Some("2026-06-17T00:00:00Z".to_string())),
            ("message".to_string(), None),
        ]
    );
    assert_eq!(TransactionStatus::Submitted.name(), "SUBMITTED");
    assert_eq!(TransactionStatus::Confirmed.name(), "CONFIRMED");
}
