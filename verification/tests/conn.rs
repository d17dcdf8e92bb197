use ssroute::conn::ConnTable;
use ssroute::packet::ConnKey;

fn key(n: u16) -> ConnKey {
    ConnKey { version: 4, src_ip: 1, dst_ip: 2, sport: n, dport: 80, proto: 6 }
}

#[test]
fn values_by_key() {
    let mut table: ConnTable<u32> = ConnTable::new();
    assert_eq!(table.len(), 0);
    table.insert(key(1), 10);
    table.insert(key(2), 20);
    table.insert(key(1), 11);
    assert_eq!(table.len(), 2);
    assert_eq!(table.get(&key(1)), Some(&11));
    assert_eq!(table.get(&key(3)), None);
    assert!(table.contains(&key(2)));
    *table.get_mut(&key(2)).unwrap() = 21;
    assert!(table.get_mut(&key(3)).is_none());
    assert_eq!(table.remove(&key(2)), Some(21));
    assert_eq!(table.remove(&key(2)), None);
    assert_eq!(table.len(), 1);
    let (k, v) = table.entry_at(0);
    assert_eq!(k, key(1));
    assert_eq!(*v, 11);
}
