use std::cell::RefCell;
use worker_pool::quota::{alert_for, LimitTracker, Messenger, QuotaAlert};

struct MockMessenger {
    sent_messages: RefCell<Vec<String>>,
}

impl MockMessenger {
    fn new() -> MockMessenger {
        MockMessenger {
            sent_messages: RefCell::new(vec![]),
        }
    }
}

impl Messenger for MockMessenger {
    fn send(&self, message: &str) {
        self.sent_messages.borrow_mut().push(String::from(message));
    }
}

#[test]
fn it_sends_an_over_75_percent_warning_message() {
    let mock_messenger = MockMessenger::new();
    let mut limit_tracker = LimitTracker::new(&mock_messenger, 100);

    limit_tracker.set_value(80);

    assert_eq!(mock_messenger.sent_messages.borrow().len(), 1);
}

#[test]
fn messages_by_level() {
    let m = MockMessenger::new();
    let mut t = LimitTracker::new(&m, 100);
    assert_eq!(t.set_value(74), None);
    assert_eq!(t.set_value(75), Some(QuotaAlert::Warning));
    assert_eq!(t.set_value(90), Some(QuotaAlert::Urgent));
    assert_eq!(t.set_value(100), Some(QuotaAlert::Over));
    assert_eq!(t.value(), 100);
    assert_eq!(t.max(), 100);
    let sent = m.sent_messages.borrow();
    assert_eq!(
        *sent,
        vec![
            String::from("Warning: You've used up over 75% of your quota!"),
            String::from("Urgent warning: You've used up over 90% of your quota!"),
            String::from("Error: You are over your quota!"),
        ]
    );
}

#[test]
fn zero_quota() {
    assert_eq!(alert_for(0, 0), None);
    assert_eq!(alert_for(1, 0), Some(QuotaAlert::Over));
    assert_eq!(alert_for(9, 10), Some(QuotaAlert::Urgent));
    assert_eq!(alert_for(usize::MAX - 1, usize::MAX), Some(QuotaAlert::Urgent));
}
