use nakamoto_chain::txnmgr::{decimal_text, Error, Event, Events};
use std::cell::RefCell;

fn numbered() -> [u8; 32] {
    let mut txid = [0u8; 32];
    for i in 0..32 {
        txid[i] = i as u8;
    }
    txid
}

const NUMBERED: &str = "1f1e1d1c1b1a191817161514131211100f0e0d0c0b0a09080706050403020100";

#[test]
fn test_decimal_text() {
    assert_eq!(decimal_text(0), "0");
    assert_eq!(decimal_text(7), "7");
    assert_eq!(decimal_text(10), "10");
    assert_eq!(decimal_text(109), "109");
    assert_eq!(decimal_text(1842918273), "1842918273");
    assert_eq!(decimal_text(usize::MAX), usize::MAX.to_string());
}

#[test]
fn test_pending_message() {
    let event = Event::Pending { announcements: 12, txid: numbered() };
    assert_eq!(
        event.message(),
        format!("Pending transaction ID {} broadcasted to 12 peers", NUMBERED)
    );
}

#[test]
fn test_accepted_message() {
    let event = Event::Accepted { confirmations: 3, txid: numbered() };
    assert_eq!(
        event.message(),
        format!("Transaction with ID 3 sent to {} peers", NUMBERED)
    );
}

#[test]
fn test_txid_text_has_both_digits_of_each_byte() {
    let mut txid = [0u8; 32];
    txid[0] = 0xab;
    txid[31] = 0x0c;
    let event = Event::Pending { announcements: 0, txid };
    let mut expected = String::from("0c");
    for _ in 0..30 {
        expected.push_str("00");
    }
    expected.push_str("ab");
    assert_eq!(
        event.message(),
        format!("Pending transaction ID {} broadcasted to 0 peers", expected)
    );
}

#[test]
fn test_transaction_error_messages() {
    assert_eq!(Error::Lock.message(), "Poisonsed read/write lock");
    assert_eq!(Error::RelayPeer.message(), "Zero connected relay peers");
    assert_eq!(Error::NotFound.message(), "Transaction not stored to store");
}

struct Recorder(RefCell<Vec<Event>>);

impl Events for Recorder {
    fn event(&self, event: Event) {
        self.0.borrow_mut().push(event);
    }
}

#[test]
fn test_events_are_handed_on() {
    let recorder = Recorder(RefCell::new(Vec::new()));
    let event = Event::Accepted { confirmations: 1, txid: numbered() };
    recorder.event(event);
    assert_eq!(recorder.0.borrow().as_slice(), &[event]);
}
