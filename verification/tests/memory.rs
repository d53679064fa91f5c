use nakamoto_chain::header::BlockHeader;
use nakamoto_chain::io::FileStore;
use nakamoto_chain::memory::Memory;
use nakamoto_chain::store::{Error, Height, Store};
use nonempty::NonEmpty;

fn header(nonce: u32) -> BlockHeader {
    BlockHeader {
        version: 1,
        prev_blockhash: [0; 32],
        merkle_root: [0; 32],
        time: 1842918273,
        bits: 0x2ffffff,
        nonce,
    }
}

fn batch(from: u32, to: u32) -> Vec<BlockHeader> {
    (from..to).map(header).collect()
}

#[test]
fn test_memory_scenario() {
    let genesis = header(312143);
    let next = header(7);
    let mut store = Memory::new(NonEmpty::new(genesis));

    assert_eq!(store.get(0).unwrap(), genesis);
    assert_eq!(store.genesis().unwrap(), genesis);
    assert!(matches!(store.get(1), Err(Error::NotFound)));
    assert_eq!(store.put(vec![next]).unwrap(), 1);
    assert_eq!(store.get(1).unwrap(), next);
    store.rollback(0).unwrap();
    assert!(matches!(store.get(1), Err(Error::NotFound)));
    assert_eq!(store.len().unwrap(), 1);
}

#[test]
fn test_memory_new_keeps_the_chain() {
    let chain = NonEmpty::from((header(0), batch(1, 4)));
    let store = Memory::new(chain);
    assert_eq!(store.len().unwrap(), 4);
    for i in 0..4 {
        assert_eq!(store.get(i as Height).unwrap(), header(i));
    }
    assert!(matches!(store.get(4), Err(Error::NotFound)));
    assert!(matches!(store.get(u64::MAX), Err(Error::NotFound)));
}

#[test]
fn test_memory_put_returns_the_tip() {
    let mut store = Memory::new(NonEmpty::new(header(0)));
    assert_eq!(store.put(Vec::new()).unwrap(), 0);
    assert_eq!(store.put(batch(1, 33)).unwrap(), 32);
    assert_eq!(store.len().unwrap(), 33);
    for i in 0..33 {
        assert_eq!(store.get(i as Height).unwrap(), header(i));
    }
    assert_eq!(store.put(batch(33, 35)).unwrap(), 34);
    assert_eq!(store.get(34).unwrap(), header(34));
}

#[test]
fn test_memory_rollback_keeps_what_is_below() {
    let mut store = Memory::new(NonEmpty::new(header(0)));
    store.put(batch(1, 10)).unwrap();

    store.rollback(4).unwrap();
    assert_eq!(store.len().unwrap(), 5);
    for i in 0..5 {
        assert_eq!(store.get(i as Height).unwrap(), header(i));
    }
    assert!(matches!(store.get(5), Err(Error::NotFound)));

    // A rollback to the tip changes nothing.
    store.rollback(4).unwrap();
    assert_eq!(store.len().unwrap(), 5);

    // New headers take the heights that were given up.
    assert_eq!(store.put(vec![header(500), header(600)]).unwrap(), 6);
    assert_eq!(store.get(4).unwrap(), header(4));
    assert_eq!(store.get(5).unwrap(), header(500));
    assert_eq!(store.get(6).unwrap(), header(600));
}

#[test]
fn test_memory_rollback_past_the_tip_is_refused() {
    let mut store = Memory::new(NonEmpty::new(header(0)));
    store.put(batch(1, 3)).unwrap();
    assert!(matches!(store.rollback(3), Err(Error::NotFound)));
    assert!(matches!(store.rollback(u64::MAX), Err(Error::NotFound)));
    assert_eq!(store.len().unwrap(), 3);
    assert_eq!(store.get(2).unwrap(), header(2));
}

#[test]
fn test_memory_iter() {
    let mut store = Memory::new(NonEmpty::new(header(0)));
    store.put(batch(1, 32)).unwrap();
    let items = store.iter();
    assert_eq!(items.len(), 32);
    for (i, item) in items.into_iter().enumerate() {
        let (height, found) = item.unwrap();
        assert_eq!(height, i as Height);
        assert_eq!(found, header(i as u32));
        assert_eq!(found, store.get(height).unwrap());
    }
    // Each replay starts afresh.
    assert_eq!(store.iter().len(), 32);
}

#[test]
fn test_memory_sync_and_clone() {
    let mut store = Memory::new(NonEmpty::new(header(0)));
    store.put(batch(1, 3)).unwrap();
    store.sync().unwrap();
    assert_eq!(store.len().unwrap(), 3);

    let copy = store.clone();
    store.rollback(0).unwrap();
    assert_eq!(store.len().unwrap(), 1);
    assert_eq!(copy.len().unwrap(), 3);
    assert_eq!(copy.get(2).unwrap(), header(2));
}

fn outcome<T: std::fmt::Debug>(r: Result<T, Error>) -> String {
    match r {
        Ok(v) => format!("ok {:?}", v),
        Err(e) => format!("err {}", e.message()),
    }
}

fn replayed(items: Vec<Result<(Height, BlockHeader), Error>>) -> Vec<String> {
    items.into_iter().map(outcome).collect()
}

#[test]
fn test_memory_and_file_agree() {
    let genesis = header(312143);
    let mut memory = Memory::new(NonEmpty::new(genesis));
    let mut file = FileStore::create(genesis);

    assert_eq!(outcome(memory.genesis()), outcome(file.genesis()));
    assert_eq!(outcome(memory.put(batch(0, 20))), outcome(file.put(batch(0, 20))));
    for h in [0, 1, 19, 20, 21, 1000] {
        assert_eq!(outcome(memory.get(h)), outcome(file.get(h)));
    }
    assert_eq!(outcome(memory.len()), outcome(file.len()));
    assert_eq!(replayed(memory.iter()), replayed(file.iter()));

    assert_eq!(outcome(memory.rollback(7)), outcome(file.rollback(7)));
    assert_eq!(outcome(memory.rollback(8)), outcome(file.rollback(8)));
    assert_eq!(outcome(memory.len()), outcome(file.len()));
    assert_eq!(outcome(memory.get(7)), outcome(file.get(7)));
    assert_eq!(outcome(memory.get(8)), outcome(file.get(8)));

    assert_eq!(outcome(memory.put(batch(90, 93))), outcome(file.put(batch(90, 93))));
    assert_eq!(outcome(memory.sync()), outcome(file.sync()));
    assert_eq!(replayed(memory.iter()), replayed(file.iter()));
    assert_eq!(outcome(memory.rollback(0)), outcome(file.rollback(0)));
    assert_eq!(replayed(memory.iter()), replayed(file.iter()));
    assert_eq!(outcome(memory.len()), "ok 1");
}
