use proxy::channel::{ChannelError, EventChannel, DEFAULT_CAPACITY};
use proxy::event::Event;

fn page(n: usize) -> Event {
    Event::page_view(format!("http://b.example/{n}"))
}

#[test]
fn default_capacity_is_thirty_two() {
    assert_eq!(DEFAULT_CAPACITY, 32);
    let channel = EventChannel::with_default_capacity();
    assert_eq!(channel.capacity(), 32);
    assert_eq!(channel.len(), 0);
    assert!(channel.is_empty());
    assert_eq!(channel.missed(), 0);
    assert!(channel.has_consumer());
}

#[test]
fn event_carries_its_url() {
    let event = Event::page_view("http://b.example/p?x=1".to_string());
    assert_eq!(event.url(), "http://b.example/p?x=1");
    assert_eq!(event, Event::PageView { url: "http://b.example/p?x=1".to_string() });
}

#[test]
fn receive_on_an_empty_channel_reports_empty() {
    let mut channel = EventChannel::new(4);
    assert_eq!(channel.receive(), Err(ChannelError::Empty));
    assert_eq!(channel.len(), 0);
}

#[test]
fn events_arrive_in_publish_order() {
    let mut channel = EventChannel::new(4);
    for n in 0..4 {
        assert_eq!(channel.publish(page(n)), Ok(()));
    }
    assert_eq!(channel.len(), 4);
    assert_eq!(channel.missed(), 0);
    for n in 0..4 {
        assert_eq!(channel.receive(), Ok(page(n)));
    }
    assert_eq!(channel.receive(), Err(ChannelError::Empty));
}

#[test]
fn interleaved_publish_and_receive_keep_order() {
    let mut channel = EventChannel::new(2);
    assert_eq!(channel.publish(page(0)), Ok(()));
    assert_eq!(channel.publish(page(1)), Ok(()));
    assert_eq!(channel.receive(), Ok(page(0)));
    assert_eq!(channel.publish(page(2)), Ok(()));
    assert_eq!(channel.receive(), Ok(page(1)));
    assert_eq!(channel.receive(), Ok(page(2)));
    assert_eq!(channel.missed(), 0);
}

#[test]
fn overflow_drops_the_oldest_and_reports_the_loss() {
    let mut channel = EventChannel::with_default_capacity();
    for n in 0..40 {
        assert_eq!(channel.publish(page(n)), Ok(()));
        assert!(channel.len() <= 32);
    }
    assert_eq!(channel.len(), 32);
    assert_eq!(channel.missed(), 8);
    assert_eq!(channel.receive(), Err(ChannelError::Lagged(8)));
    assert_eq!(channel.missed(), 0);
    for n in 8..40 {
        assert_eq!(channel.receive(), Ok(page(n)));
    }
    assert_eq!(channel.receive(), Err(ChannelError::Empty));
}

#[test]
fn delivery_resumes_after_a_loss() {
    let mut channel = EventChannel::new(1);
    assert_eq!(channel.publish(page(0)), Ok(()));
    assert_eq!(channel.publish(page(1)), Ok(()));
    assert_eq!(channel.receive(), Err(ChannelError::Lagged(1)));
    assert_eq!(channel.receive(), Ok(page(1)));
    assert_eq!(channel.publish(page(2)), Ok(()));
    assert_eq!(channel.receive(), Ok(page(2)));
    assert_eq!(channel.receive(), Err(ChannelError::Empty));
}

#[test]
fn publish_without_a_consumer_hands_the_event_back() {
    let mut channel = EventChannel::new(4);
    assert_eq!(channel.publish(page(0)), Ok(()));
    channel.close();
    assert!(!channel.has_consumer());
    assert_eq!(channel.publish(page(1)), Err(page(1)));
    assert_eq!(channel.len(), 1);
    assert_eq!(channel.missed(), 0);
}
