use fdt_props::{
    DevTree, DevTreeError, DevTreeIter, DevTreeNode, DevTreeProp, Phandle, PropReader,
    SliceReadError, StringPropIter,
};

/// A buffer whose name table starts at offset 8 and holds "reg", "model" and
/// a name with a byte that no UTF-8 text has, followed by bytes without a
/// terminator.
const BUF: &[u8] = b"\0\0\0\0\0\0\0\0reg\0model\0\xffx\0tail";
const NODES: &[usize] = &[16, 40, 72];

fn tree() -> DevTree<'static> {
    DevTree::new(BUF, 8, NODES)
}

fn prop<'a>(fdt: &'a DevTree<'static>, at: usize, value: &'static [u8], nameoff: usize) -> DevTreeProp<'a, 'static> {
    DevTreeProp::new(DevTreeIter::new(fdt, at), value, nameoff)
}

#[test]
fn u32_reads_the_word_at_each_index() {
    let fdt = tree();
    let p = prop(&fdt, 20, &[0, 0, 0, 1, 0x12, 0x34, 0x56, 0x78, 0xff, 0xff, 0xff, 0xff], 0);
    assert!(matches!(p.u32(0), Ok(1)));
    assert!(matches!(p.u32(1), Ok(0x1234_5678)));
    assert!(matches!(p.u32(2), Ok(u32::MAX)));
}

#[test]
fn u32_returns_every_stored_word_exactly() {
    let fdt = tree();
    for v in [0u32, 1, 0xff, 0x100, 0xffff, 0x1_0000, 0x00ff_ffff, 0x0100_0000, 0x8000_0000, 0xdead_beef, u32::MAX] {
        let mut region = vec![0xa5u8; 16];
        region[8..12].copy_from_slice(&v.to_be_bytes());
        let region: &'static [u8] = Vec::leak(region);
        let p = prop(&fdt, 20, region, 0);
        assert!(matches!(p.u32(2), Ok(w) if w == v));
    }
}

#[test]
fn u32_out_of_range_is_an_invalid_offset() {
    let fdt = tree();
    let p = prop(&fdt, 20, &[0, 0, 0, 1, 0, 0, 0], 0);
    assert!(matches!(p.u32(0), Ok(1)));
    assert!(matches!(p.u32(1), Err(DevTreeError::InvalidOffset(4, 4))));
    assert!(matches!(p.u32(2), Err(DevTreeError::InvalidOffset(8, 4))));
    assert!(matches!(p.u32(100), Err(DevTreeError::InvalidOffset(400, 4))));
    let last = usize::MAX / 4;
    assert!(matches!(p.u32(last), Err(DevTreeError::InvalidOffset(at, 4)) if at == last * 4));
}

#[test]
fn word_whose_offset_is_too_large_is_reported_at_the_largest_offset() {
    let fdt = tree();
    let p = prop(&fdt, 20, &[0, 0, 0, 1, 0, 0, 0, 2], 0);
    assert!(matches!(p.u32(usize::MAX / 4 + 1), Err(DevTreeError::InvalidOffset(usize::MAX, 4))));
    assert!(matches!(p.u32(usize::MAX), Err(DevTreeError::InvalidOffset(usize::MAX, 4))));
    assert!(matches!(p.phandle(usize::MAX), Err(DevTreeError::InvalidOffset(usize::MAX, 4))));
    assert!(matches!(p.u64(usize::MAX / 8 + 1), Err(DevTreeError::InvalidOffset(usize::MAX, 8))));
    assert!(matches!(p.u64(usize::MAX), Err(DevTreeError::InvalidOffset(usize::MAX, 8))));
}

#[test]
fn u32_on_an_empty_value_is_an_invalid_offset() {
    let fdt = tree();
    let p = prop(&fdt, 20, &[], 0);
    assert!(matches!(p.u32(0), Err(DevTreeError::InvalidOffset(0, 4))));
    assert!(matches!(p.u64(0), Err(DevTreeError::InvalidOffset(0, 8))));
    assert!(matches!(p.phandle(0), Err(DevTreeError::InvalidOffset(0, 4))));
}

#[test]
fn u64_reads_the_word_at_each_index() {
    let fdt = tree();
    let p = prop(
        &fdt,
        20,
        &[0, 0, 0, 0, 0, 0, 0, 2, 0x01, 0x23, 0x45, 0x67, 0x89, 0xab, 0xcd, 0xef],
        0,
    );
    assert!(matches!(p.u64(0), Ok(2)));
    assert!(matches!(p.u64(1), Ok(0x0123_4567_89ab_cdef)));
}

#[test]
fn u64_out_of_range_is_an_invalid_offset() {
    let fdt = tree();
    let p = prop(&fdt, 20, &[0; 12], 0);
    assert!(matches!(p.u64(0), Ok(0)));
    assert!(matches!(p.u64(1), Err(DevTreeError::InvalidOffset(8, 8))));
    assert!(matches!(p.u64(2), Err(DevTreeError::InvalidOffset(16, 8))));
    let last = usize::MAX / 8;
    assert!(matches!(p.u64(last), Err(DevTreeError::InvalidOffset(at, 8)) if at == last * 8));
}

#[test]
fn phandle_is_a_32_bit_word() {
    let fdt = tree();
    let p = prop(&fdt, 20, &[0, 0, 0, 7, 0, 0, 1, 0], 0);
    let first: Phandle = p.phandle(0).unwrap();
    assert_eq!(first, 7);
    assert!(matches!(p.phandle(1), Ok(0x100)));
    assert!(matches!(p.phandle(2), Err(DevTreeError::InvalidOffset(8, 4))));
    assert_eq!(p.phandle(1).unwrap(), p.u32(1).unwrap());
}

#[test]
fn length_and_raw_give_the_value_region() {
    let fdt = tree();
    let value: &'static [u8] = &[9, 8, 7];
    let p = prop(&fdt, 20, value, 0);
    assert_eq!(p.length(), 3);
    assert_eq!(p.raw(), value);
    assert_eq!(p.propbuf(), value);
    assert!(core::ptr::eq(p.raw().as_ptr(), value.as_ptr()));
    let empty = prop(&fdt, 20, &[], 0);
    assert_eq!(empty.length(), 0);
    assert_eq!(empty.raw(), &[] as &[u8]);
}

#[test]
fn handle_keeps_what_it_was_made_of() {
    let fdt = tree();
    let p = prop(&fdt, 41, &[1], 4);
    assert_eq!(p.nameoff(), 4);
    assert_eq!(p.fdt().off_dt_strings(), 8);
    assert_eq!(p.fdt().buf(), BUF);
    assert_eq!(p.fdt().node_offsets(), NODES);
    let q = p.clone();
    assert_eq!(q.nameoff(), 4);
    assert_eq!(q.raw(), &[1]);
    assert_eq!(q.node().unwrap(), p.node().unwrap());
}

#[test]
fn name_is_read_from_the_name_table() {
    let fdt = tree();
    assert!(matches!(prop(&fdt, 20, &[], 0).name(), Ok("reg")));
    assert!(matches!(prop(&fdt, 20, &[], 4).name(), Ok("model")));
    assert!(matches!(prop(&fdt, 20, &[], 6).name(), Ok("del")));
    assert!(matches!(prop(&fdt, 20, &[], 3).name(), Ok("")));
}

#[test]
fn name_that_is_not_utf8_is_a_str_error() {
    let fdt = tree();
    match prop(&fdt, 20, &[], 10).name() {
        Err(DevTreeError::StrError(e)) => assert_eq!(e.valid_up_to(), 0),
        other => panic!("{:?}", other),
    }
}

#[test]
fn name_without_a_terminator_is_an_unexpected_end() {
    let fdt = tree();
    assert!(matches!(prop(&fdt, 20, &[], 13).name(), Err(DevTreeError::UnexpectedEndOfInput)));
    assert!(matches!(prop(&fdt, 20, &[], 17).name(), Err(DevTreeError::UnexpectedEndOfInput)));
    assert!(matches!(prop(&fdt, 20, &[], 1000).name(), Err(DevTreeError::UnexpectedEndOfInput)));
    assert!(matches!(
        prop(&fdt, 20, &[], usize::MAX).name(),
        Err(DevTreeError::UnexpectedEndOfInput)
    ));
}

#[test]
fn str_reads_one_string() {
    let fdt = tree();
    assert!(matches!(prop(&fdt, 20, b"abc\0", 0).str(), Ok("abc")));
    assert!(matches!(prop(&fdt, 20, b"okay\0disabled\0", 0).str(), Ok("okay")));
    assert!(matches!(prop(&fdt, 20, b"\0", 0).str(), Ok("")));
    assert!(matches!(prop(&fdt, 20, "gr\u{fc}n\0".as_bytes(), 0).str(), Ok("gr\u{fc}n")));
}

#[test]
fn str_on_an_empty_value_is_a_parse_error() {
    let fdt = tree();
    assert!(matches!(prop(&fdt, 20, b"", 0).str(), Err(DevTreeError::ParseError)));
}

#[test]
fn str_without_a_terminator_is_an_unexpected_end() {
    let fdt = tree();
    assert!(matches!(prop(&fdt, 20, b"abc", 0).str(), Err(DevTreeError::UnexpectedEndOfInput)));
}

#[test]
fn str_that_is_not_utf8_is_a_str_error() {
    let fdt = tree();
    match prop(&fdt, 20, b"ab\xc3\0", 0).str() {
        Err(DevTreeError::StrError(e)) => assert_eq!(e.valid_up_to(), 2),
        other => panic!("{:?}", other),
    }
}

#[test]
fn string_reader_yields_each_string_then_ends() {
    let mut strings = StringPropIter::new(b"a\0bb\0");
    assert!(matches!(strings.next(), Ok(Some("a"))));
    assert!(matches!(strings.next(), Ok(Some("bb"))));
    assert!(matches!(strings.next(), Ok(None)));
    assert!(matches!(strings.next(), Ok(None)));
}

#[test]
fn fresh_string_reader_yields_the_same_sequence() {
    let region: &[u8] = b"a\0bb\0";
    let mut first = StringPropIter::new(region);
    let mut second = StringPropIter::new(region);
    let mut seen = 0;
    loop {
        let a = first.next().unwrap();
        let b = second.next().unwrap();
        assert_eq!(a, b);
        if a.is_none() {
            break;
        }
        seen += 1;
    }
    assert_eq!(seen, 2);
    let mut third = StringPropIter::new(region);
    assert!(matches!(third.next(), Ok(Some("a"))));
}

#[test]
fn iter_str_reads_the_value_region() {
    let fdt = tree();
    let p = prop(&fdt, 20, b"one\0two\0three\0", 0);
    let mut strings = p.iter_str();
    assert!(matches!(strings.next(), Ok(Some("one"))));
    assert!(matches!(strings.next(), Ok(Some("two"))));
    assert!(matches!(strings.next(), Ok(Some("three"))));
    assert!(matches!(strings.next(), Ok(None)));
    let mut again = p.iter_str();
    assert!(matches!(again.next(), Ok(Some("one"))));
}

#[test]
fn string_reader_over_an_empty_region_ends_at_once() {
    let mut strings = StringPropIter::new(b"");
    assert!(matches!(strings.next(), Ok(None)));
    assert!(matches!(strings.next(), Ok(None)));
}

#[test]
fn string_reader_yields_empty_strings() {
    let mut strings = StringPropIter::new(b"\0\0x\0");
    assert!(matches!(strings.next(), Ok(Some(""))));
    assert!(matches!(strings.next(), Ok(Some(""))));
    assert!(matches!(strings.next(), Ok(Some("x"))));
    assert!(matches!(strings.next(), Ok(None)));
}

#[test]
fn string_reader_stays_put_when_the_terminator_is_missing() {
    let mut strings = StringPropIter::new(b"ab\0cd");
    assert!(matches!(strings.next(), Ok(Some("ab"))));
    assert!(matches!(strings.next(), Err(DevTreeError::UnexpectedEndOfInput)));
    assert!(matches!(strings.next(), Err(DevTreeError::UnexpectedEndOfInput)));
}

#[test]
fn string_reader_stays_put_at_a_string_that_is_not_utf8() {
    let mut strings = StringPropIter::new(b"\xff\xfe\0ok\0");
    assert!(matches!(strings.next(), Err(DevTreeError::StrError(_))));
    assert!(matches!(strings.next(), Err(DevTreeError::StrError(_))));
    assert!(matches!(strings.next(), Err(DevTreeError::StrError(_))));
}

#[test]
fn string_reader_stops_at_the_first_string_that_is_not_utf8() {
    let mut strings = StringPropIter::new(b"ok\0a\xc3\0end\0");
    assert!(matches!(strings.next(), Ok(Some("ok"))));
    match strings.next() {
        Err(DevTreeError::StrError(e)) => assert_eq!(e.valid_up_to(), 1),
        other => panic!("{:?}", other),
    }
    match strings.next() {
        Err(DevTreeError::StrError(e)) => assert_eq!(e.valid_up_to(), 1),
        other => panic!("{:?}", other),
    }
}

#[test]
fn cloned_string_reader_moves_on_its_own() {
    let mut strings = StringPropIter::new(b"a\0bb\0");
    assert!(matches!(strings.next(), Ok(Some("a"))));
    let mut copy = strings.clone();
    assert!(matches!(copy.next(), Ok(Some("bb"))));
    assert!(matches!(copy.next(), Ok(None)));
    assert!(matches!(strings.next(), Ok(Some("bb"))));
}

#[test]
fn last_node_is_the_nearest_node_before_the_cursor() {
    let fdt = tree();
    assert_eq!(DevTreeIter::new(&fdt, 17).last_node(), Some(DevTreeNode { index: 0, offset: 16 }));
    assert_eq!(DevTreeIter::new(&fdt, 40).last_node(), Some(DevTreeNode { index: 0, offset: 16 }));
    assert_eq!(DevTreeIter::new(&fdt, 41).last_node(), Some(DevTreeNode { index: 1, offset: 40 }));
    assert_eq!(DevTreeIter::new(&fdt, 72).last_node(), Some(DevTreeNode { index: 1, offset: 40 }));
    assert_eq!(DevTreeIter::new(&fdt, 73).last_node(), Some(DevTreeNode { index: 2, offset: 72 }));
    assert_eq!(
        DevTreeIter::new(&fdt, usize::MAX).last_node(),
        Some(DevTreeNode { index: 2, offset: 72 })
    );
}

#[test]
fn last_node_of_a_cursor_before_every_node_is_none() {
    let fdt = tree();
    assert_eq!(DevTreeIter::new(&fdt, 0).last_node(), None);
    assert_eq!(DevTreeIter::new(&fdt, 16).last_node(), None);
    let bare = DevTree::new(BUF, 8, &[]);
    assert_eq!(DevTreeIter::new(&bare, 100).last_node(), None);
}

#[test]
fn last_node_can_be_asked_again() {
    let fdt = tree();
    let cursor = DevTreeIter::new(&fdt, 50);
    assert_eq!(cursor.last_node(), cursor.last_node());
    assert_eq!(cursor.offset(), 50);
    assert_eq!(cursor.fdt().off_dt_strings(), 8);
}

#[test]
fn node_is_the_owner_of_the_property() {
    let fdt = tree();
    let owner = |at: usize| prop(&fdt, at, &[], 0).node().unwrap();
    assert_eq!(owner(24), DevTreeNode { index: 0, offset: 16 });
    assert_eq!(owner(36), DevTreeNode { index: 0, offset: 16 });
    assert_eq!(owner(48), DevTreeNode { index: 1, offset: 40 });
    assert_eq!(owner(80), DevTreeNode { index: 2, offset: 72 });
    let p = prop(&fdt, 48, &[], 0);
    assert_eq!(p.node().unwrap(), p.node().unwrap());
}

#[test]
fn node_of_a_property_without_a_node_is_a_corrupt_structure() {
    let fdt = tree();
    let p = prop(&fdt, 16, &[0, 0, 0, 1], 0);
    assert!(matches!(p.node(), Err(DevTreeError::CorruptStructure)));
    assert!(matches!(p.node(), Err(DevTreeError::CorruptStructure)));
    assert!(matches!(prop(&fdt, 0, &[], 0).node(), Err(DevTreeError::CorruptStructure)));
    let bare = DevTree::new(BUF, 8, &[]);
    assert!(matches!(
        prop(&bare, usize::MAX, &[], 0).node(),
        Err(DevTreeError::CorruptStructure)
    ));
    // The value of such a property can still be read.
    assert!(matches!(p.u32(0), Ok(1)));
    assert!(matches!(p.name(), Ok("reg")));
}

#[test]
fn new_keeps_what_it_is_given() {
    let fdt = tree();
    let cursor = DevTreeIter::new(&fdt, 41);
    let made = DevTreeProp::new(cursor, &[0, 0, 0, 5], 4);
    assert_eq!(made.raw(), &[0, 0, 0, 5]);
    assert_eq!(made.nameoff(), 4);
    assert_eq!(made.parent_iter().offset(), 41);
    assert_eq!(made.parent_iter().last_node(), cursor.last_node());
    assert!(matches!(made.u32(0), Ok(5)));
    assert!(matches!(made.name(), Ok("model")));
}

#[test]
fn node_in_a_listing_that_is_out_of_order_is_the_last_listed_before_the_cursor() {
    let nodes: &[usize] = &[30, 10, 50, 20];
    let fdt = DevTree::new(BUF, 8, nodes);
    assert_eq!(DevTreeIter::new(&fdt, 25).last_node(), Some(DevTreeNode { index: 3, offset: 20 }));
    assert_eq!(DevTreeIter::new(&fdt, 15).last_node(), Some(DevTreeNode { index: 1, offset: 10 }));
    assert_eq!(DevTreeIter::new(&fdt, 10).last_node(), None);
}

#[test]
fn read_errors_keep_their_kind() {
    assert!(matches!(
        DevTreeError::from_read(SliceReadError::InvalidOffset(3, 4)),
        DevTreeError::InvalidOffset(3, 4)
    ));
    assert!(matches!(
        DevTreeError::from_read(SliceReadError::InvalidOffset(usize::MAX, 8)),
        DevTreeError::InvalidOffset(usize::MAX, 8)
    ));
    assert!(matches!(
        DevTreeError::from_read(SliceReadError::UnexpectedEndOfInput),
        DevTreeError::UnexpectedEndOfInput
    ));
}
