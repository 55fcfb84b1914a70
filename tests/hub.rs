use tokio::sync::broadcast;
use trackpad::clipboard::{client_item, upload_notice, ClipboardItem, HUB_CAPACITY};

#[test]
fn upload_notice_names_the_file() {
    let item = upload_notice(&"report.pdf".to_string(), 99);
    assert_eq!(item.content, "File uploaded: report.pdf");
    assert_eq!(item.timestamp, 99);
    assert_eq!(item.source, "System");
}

#[test]
fn duplicate_keeps_fields() {
    let item = client_item("abc".to_string(), 5);
    let copy = item.duplicate();
    assert_eq!(copy.content, "abc");
    assert_eq!(copy.timestamp, 5);
    assert_eq!(copy.source, "Client");
}

#[test]
fn every_subscriber_gets_every_item_in_order() {
    let (tx, _keep) = broadcast::channel::<(String, u64, String)>(HUB_CAPACITY);
    let mut subs: Vec<_> = (0..3).map(|_| tx.subscribe()).collect();
    let items: Vec<ClipboardItem> = (0..5u64).map(|n| client_item(format!("item {}", n), n)).collect();
    for it in &items {
        tx.send((it.content.clone(), it.timestamp, it.source.clone())).unwrap();
    }
    for rx in subs.iter_mut() {
        for it in &items {
            let got = rx.try_recv().unwrap();
            assert_eq!(got, (it.content.clone(), it.timestamp, it.source.clone()));
        }
        assert!(rx.try_recv().is_err());
    }
}

#[test]
fn late_subscriber_gets_only_later_items() {
    let (tx, _keep) = broadcast::channel::<String>(HUB_CAPACITY);
    tx.send("early".to_string()).unwrap();
    let mut late = tx.subscribe();
    tx.send("late".to_string()).unwrap();
    assert_eq!(late.try_recv().unwrap(), "late");
    assert!(late.try_recv().is_err());
}
