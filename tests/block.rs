use blockvec::block::Block;

#[test]
fn test_default_builder() {
    let b = Block::builder();
    assert_eq!("", b.name);
    assert!(b.data.is_empty());
    assert_eq!(0, b.flags);
    assert_eq!(None, b.connection);
}

#[test]
fn test_failed_build() {
    assert!(Block::builder().build().is_none());
    let b = Block::builder();
    let block = b.name("Failure").data(&[42, 0, 127]).flags(1 << 4).build();
    assert!(block.is_none());
}

#[test]
fn test_build() {
    let b = Block::builder();
    let block = b
        .name("Success")
        .data(&[42])
        .flags(1 << 3)
        .connection("sqlite database")
        .build()
        .unwrap();
    assert_eq!("Success", block.name);
    assert_eq!(&42, block.data.get(0).unwrap());
    assert_eq!(8, block.flags);
    assert_eq!("sqlite database", block.connection);
}

#[test]
fn build_keeps_every_field() {
    let block = Block::builder()
        .name("Success")
        .data(&[42])
        .flags(8)
        .connection("sqlite database")
        .build()
        .unwrap();
    assert_eq!("Success", block.name);
    assert_eq!(vec![42u8], block.data);
    assert_eq!(8, block.flags);
    assert_eq!("sqlite database", block.connection);
}

#[test]
fn last_connection_wins() {
    let block = Block::builder()
        .connection("first")
        .name("n")
        .connection("second")
        .build()
        .unwrap();
    assert_eq!("second", block.connection);
    assert_eq!("n", block.name);
    assert!(block.data.is_empty());
    assert_eq!(0, block.flags);
}

#[test]
fn setters_without_connection_give_nothing() {
    let built = Block::builder()
        .name("a")
        .name("b")
        .data(&[1, 2, 3])
        .data(&[])
        .flags(u64::MAX)
        .build();
    assert!(built.is_none());
}

#[test]
fn later_setters_replace_earlier_values() {
    let block = Block::builder()
        .name("old")
        .data(&[9, 9])
        .flags(1)
        .connection("db")
        .name("new")
        .data(&[7])
        .flags(u64::MAX)
        .build()
        .unwrap();
    assert_eq!("new", block.name);
    assert_eq!(vec![7u8], block.data);
    assert_eq!(u64::MAX, block.flags);
    assert_eq!("db", block.connection);
}

#[test]
fn empty_connection_still_builds() {
    let block = Block::builder().connection("").build().unwrap();
    assert_eq!("", block.connection);
    assert_eq!("", block.name);
}
