use minidb::common::{PageID, TransactionID, INVALID_PAGE_ID, PAGE_SIZE, LSN};
use minidb::table_page::{PageError, TablePage, HEADER_SIZE};
use minidb::tuple::{make_tuple_bytes, Tuple};

fn tuple_of_len(total_len: usize, fill: u8, xmin: u32) -> Vec<u8> {
    let row = vec![fill; total_len - 8];
    make_tuple_bytes(xmin, 0xffff_ffff, &row)
}

#[test]
fn e1_single_insert() {
    let mut page = TablePage::new(PageID(0));
    assert_eq!(page.tuple_count(), 0);
    let a = tuple_of_len(20, 0xaa, 1);
    page.insert(&a).unwrap();
    assert_eq!(page.tuple_count(), 1);
    assert_eq!(page.line_pointer_offset(0), (PAGE_SIZE - 20) as u32);
    assert_eq!(page.line_pointer_size(0), 20);
    assert_eq!(page.get_tuple(0), a);
    assert_eq!(&page.data[PAGE_SIZE - 20..], a.as_slice());
}

#[test]
fn e2_two_inserts() {
    let mut page = TablePage::new(PageID(0));
    let a = tuple_of_len(20, 0xaa, 1);
    let b = tuple_of_len(30, 0xbb, 1);
    page.insert(&a).unwrap();
    page.insert(&b).unwrap();
    assert_eq!(page.line_pointer_offset(0), (PAGE_SIZE - 20) as u32);
    assert_eq!(page.line_pointer_size(0), 20);
    assert_eq!(page.line_pointer_offset(1), (PAGE_SIZE - 50) as u32);
    assert_eq!(page.line_pointer_size(1), 30);
    assert_eq!(page.lower_offset(), (HEADER_SIZE + 16) as u32);
    assert_eq!(page.upper_offset(), (PAGE_SIZE - 50) as u32);
}

#[test]
fn e3_delete_stamps_xmax() {
    let mut page = TablePage::new(PageID(0));
    let a = tuple_of_len(20, 0xaa, 1);
    let b = tuple_of_len(30, 0xbb, 1);
    page.insert(&a).unwrap();
    page.insert(&b).unwrap();
    page.delete(0, TransactionID(7));
    assert_eq!(page.tuple_count(), 2);
    let t0 = page.get_tuple(0);
    assert_eq!(u32::from_le_bytes([t0[4], t0[5], t0[6], t0[7]]), 7);
    // bytes of tuple 0 outside xmax are untouched
    assert_eq!(&t0[..4], &a[..4]);
    assert_eq!(&t0[8..], &a[8..]);
    // slot 1 is untouched
    assert_eq!(page.get_tuple(1), b);
    let off: usize = page.line_pointer_offset(0) as usize;
    assert_eq!(&page.data[off..off + 20], t0.as_slice());
}

#[test]
fn e4_page_full() {
    let mut page = TablePage::new(PageID(0));
    let t = tuple_of_len(100, 0xcc, 1);
    let mut inserted = 0usize;
    loop {
        if page.free_space() < t.len() + 8 {
            assert_eq!(page.insert(&t), Err(PageError::Full));
            break;
        }
        page.insert(&t).unwrap();
        inserted += 1;
        assert!(inserted < PAGE_SIZE);
    }
    assert_eq!(page.tuple_count(), inserted);
    // (PAGE_SIZE - HEADER_SIZE) / (100 + 8) tuples fit
    assert_eq!(inserted, (PAGE_SIZE - HEADER_SIZE) / 108);
}

#[test]
fn p1_page_round_trip() {
    let mut page = TablePage::new(PageID(3));
    let tuples: Vec<Vec<u8>> = (0u8..7)
        .map(|k| tuple_of_len(12 + 3 * k as usize, k, k as u32))
        .collect();
    for t in &tuples {
        page.insert(t).unwrap();
    }
    assert_eq!(page.tuple_count(), tuples.len());
    let out = page.get_tuples();
    assert_eq!(out, tuples);
}

#[test]
fn p2_free_space_monotone() {
    let mut page = TablePage::new(PageID(0));
    let mut last: usize = page.free_space();
    assert_eq!(last, PAGE_SIZE - HEADER_SIZE);
    for k in 0u8..5 {
        page.insert(&tuple_of_len(16 + k as usize * 4, k, 2)).unwrap();
        let now = page.free_space();
        assert!(now < last);
        last = now;
    }
    page.delete(2, TransactionID(9));
    assert_eq!(page.free_space(), last);
}

#[test]
fn p3_offsets_never_cross() {
    let mut page = TablePage::new(PageID(0));
    for k in 0u8..10 {
        let _ = page.insert(&tuple_of_len(50, k, 2));
        if k % 2 == 0 {
            page.delete(0, TransactionID(4));
        }
        let lower: usize = page.lower_offset() as usize;
        let upper: usize = page.upper_offset() as usize;
        assert!(HEADER_SIZE <= lower);
        assert!(lower <= upper);
        assert!(upper <= PAGE_SIZE);
    }
}

#[test]
fn p4_delete_preserves_bytes_except_xmax() {
    let mut page = TablePage::new(PageID(0));
    for k in 0u8..4 {
        page.insert(&tuple_of_len(24, k, 5)).unwrap();
    }
    let before = page.data.clone();
    let off: usize = page.line_pointer_offset(2) as usize;
    page.delete(2, TransactionID(11));
    for j in 0..PAGE_SIZE {
        if j >= off + 4 && j < off + 8 {
            continue;
        }
        assert_eq!(page.data[j], before[j], "byte {} changed", j);
    }
}

#[test]
fn tuple_set_xmax_touches_only_xmax() {
    let bytes = make_tuple_bytes(3, 0xffff_ffff, &[9, 8, 7, 6]);
    let mut t = Tuple::new(None, &bytes);
    t.set_xmax(TransactionID(21));
    assert_eq!(t.xmin(), 3);
    assert_eq!(t.xmax(), 21);
    assert_eq!(&t.data[..4], &bytes[..4]);
    assert_eq!(&t.data[8..], &bytes[8..]);
}

#[test]
fn new_page_header_fields() {
    let page = TablePage::new(PageID(42));
    assert_eq!(page.page_id(), PageID(42));
    assert_eq!(page.lsn(), LSN(0));
    assert_eq!(page.next_page_id(), PageID(INVALID_PAGE_ID));
    assert_eq!(u16::from_le_bytes([page.data[0], page.data[1]]), 1);
    assert_eq!(page.lower_offset(), HEADER_SIZE as u32);
    assert_eq!(page.upper_offset(), PAGE_SIZE as u32);
}

#[test]
fn setters_keep_tuples() {
    let mut page = TablePage::new(PageID(1));
    let a = tuple_of_len(20, 0xaa, 1);
    page.insert(&a).unwrap();
    page.set_lsn(LSN(77));
    page.set_next_page_id(PageID(5));
    assert_eq!(page.lsn(), LSN(77));
    assert_eq!(page.next_page_id(), PageID(5));
    assert_eq!(page.page_id(), PageID(1));
    assert_eq!(page.get_tuple(0), a);
}

#[test]
fn from_data_round_trip() {
    let mut page = TablePage::new(PageID(9));
    page.insert(&tuple_of_len(33, 0x11, 4)).unwrap();
    let copy = TablePage::from_data(&page.data);
    assert_eq!(copy.data, page.data);
    assert_eq!(copy.page_id(), PageID(9));
    assert_eq!(copy.get_tuple(0), page.get_tuple(0));
}
