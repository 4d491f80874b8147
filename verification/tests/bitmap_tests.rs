use scheduler::sink_bitmap::{Bitmap, BitmapStatus};

#[test]
fn new_in_mem_fills() {
    let b = Bitmap::new_in_mem(4, 0xff);
    assert_eq!(b.len(), 4);
    for i in 0..4 {
        assert_eq!(b.byte_at(i), 0xff);
    }
}

#[test]
fn virgin_map_transition_new_edge_then_no_new() {
    // Coverage [0x00, 0x01] against virgin [0xFF, 0xFF]: a new edge,
    // and the virgin map is left as [0xFF, 0xFE].
    let mut cov = Bitmap::new_in_mem(2, 0);
    cov.set_byte(1, 0x01);
    let mut virgin = Bitmap::new_in_mem(2, 0xff);
    let st = cov.has_new_bit(&mut virgin);
    assert_eq!(st, BitmapStatus::NewEdge);
    assert_eq!(virgin.byte_at(0), 0xff);
    assert_eq!(virgin.byte_at(1), 0xfe);
    // Repeating the same coverage yields nothing new.
    let st2 = cov.has_new_bit(&mut virgin);
    assert_eq!(st2, BitmapStatus::NoNew);
    assert_eq!(virgin.byte_at(1), 0xfe);
}

#[test]
fn new_hit_when_byte_already_partly_seen() {
    let mut cov = Bitmap::new_in_mem(1, 0);
    cov.set_byte(0, 0x02);
    let mut virgin = Bitmap::new_in_mem(1, 0xff);
    // First clear another bit so the byte is no longer wholly virgin.
    let mut cov0 = Bitmap::new_in_mem(1, 0);
    cov0.set_byte(0, 0x01);
    assert_eq!(cov0.has_new_bit(&mut virgin), BitmapStatus::NewEdge);
    // Now a different bit in the same byte is only a new hit.
    assert_eq!(cov.has_new_bit(&mut virgin), BitmapStatus::NewHit);
}

#[test]
fn rescan_after_copy_from_global_is_no_new() {
    // A local map re-synced from the global map reports nothing new for
    // the same coverage input.
    let mut cov = Bitmap::new_in_mem(2, 0);
    cov.set_byte(0, 0x80);
    let mut global = Bitmap::new_in_mem(2, 0xff);
    assert_eq!(cov.has_new_bit(&mut global), BitmapStatus::NewEdge);
    let mut local = Bitmap::new_in_mem(2, 0xff);
    local.copy_from(&global);
    assert_eq!(cov.has_new_bit(&mut local), BitmapStatus::NoNew);
}
