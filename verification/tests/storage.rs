use datafusion_pg_catalog::binary::{find_stored, read_binary, write_binary, BinaryError, StoredTable, MAGIC};
use datafusion_pg_catalog::bytes::{
    copy_bytes, read_big_endian, read_big_endian_signed, read_little_endian, write_little_endian,
};
use datafusion_pg_catalog::sorted::{insert_sorted, order_texts, Order};

fn stored(catalog: &str, schema: &str, table: &str, contents: &[u8]) -> StoredTable {
    StoredTable {
        catalog: catalog.to_string(),
        schema: schema.to_string(),
        table: table.to_string(),
        contents: contents.to_vec(),
    }
}

#[test]
fn written_tables_are_read_back() {
    let tables = vec![
        stored("postgres", "pg_catalog", "pg_class", &[1, 2, 3]),
        stored("", "s", "t\u{e9}", &[]),
    ];
    let bytes = write_binary(&tables);
    assert_eq!(read_binary(&bytes), Ok(tables));
}

#[test]
fn layout_of_a_file() {
    let bytes = write_binary(&vec![stored("c", "s", "ab", &[9])]);
    assert_eq!(
        bytes,
        vec![
            b'P', b'G', b'C', b'A', b'T', 0, 1, 1, 0, 0, 0, 1, b'c', 1, b's', 2, b'a', b'b', 1, 0, 0,
            0, 0, 0, 0, 0, 9
        ]
    );
    assert_eq!(&bytes[..7], &MAGIC);
}

#[test]
fn other_files_are_refused() {
    let bytes = write_binary(&vec![stored("c", "s", "ab", &[9])]);
    assert_eq!(read_binary(&b"PGCAT".to_vec()), Err(BinaryError::Truncated));
    let mut other = copy_bytes(&bytes, 0, bytes.len());
    other[6] = 2;
    assert_eq!(read_binary(&other), Err(BinaryError::Magic));
    for n in 7..bytes.len() {
        assert_eq!(
            read_binary(&copy_bytes(&bytes, 0, n)),
            Err(BinaryError::Truncated),
            "{n} bytes"
        );
    }
    let mut name = copy_bytes(&bytes, 0, bytes.len());
    name[12] = 0xff;
    assert_eq!(read_binary(&name), Err(BinaryError::Name));
}

#[test]
fn the_last_table_of_a_place_counts() {
    let tables = vec![
        stored("c", "s", "t", &[1]),
        stored("c", "s", "t", &[2]),
        stored("c", "s", "u", &[3]),
    ];
    assert_eq!(find_stored(&tables, "c", "s", "t"), Some(&tables[1]));
    assert_eq!(find_stored(&tables, "c", "t", "t"), None);
}

#[test]
fn numbers_as_bytes() {
    assert_eq!(write_little_endian(0x0102, 4), vec![2, 1, 0, 0]);
    assert_eq!(read_little_endian(&vec![9, 2, 1, 0, 0], 1, 5), 0x0102);
    assert_eq!(read_big_endian(&[1, 2]), 0x0102);
    assert_eq!(read_big_endian_signed(&[0xff, 0xff, 0xff, 0xfe]), -2);
    assert_eq!(read_big_endian_signed(&[0x7f, 0xff]), 32767);
}

#[test]
fn entries_stay_in_the_order_of_their_names() {
    let mut v: Vec<(String, u8)> = Vec::new();
    for (k, n) in [("b", 1), ("a", 2), ("ab", 3), ("b", 4), ("B", 5)] {
        insert_sorted(&mut v, k.to_string(), n);
    }
    let shown: Vec<(&str, u8)> = v.iter().map(|(k, n)| (k.as_str(), *n)).collect();
    assert_eq!(shown, vec![("B", 5), ("a", 2), ("ab", 3), ("b", 4)]);
    assert_eq!(order_texts("a", "ab"), Order::Before);
    assert_eq!(order_texts("b", "ab"), Order::After);
    assert_eq!(order_texts("ab", "ab"), Order::Same);
    // Texts beyond ASCII compare as their bytes do.
    assert_eq!(order_texts("z", "\u{e9}"), Order::Before);
}
