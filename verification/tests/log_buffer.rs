use simple3dgs::log_buffer::LogBuffer;

#[test]
fn snapshot_preserves_order() {
    let mut buf = LogBuffer::new();
    buf.push("a");
    buf.push("b");
    assert_eq!(buf.snapshot(), ["a", "b"]);
}

#[test]
fn cap_drops_oldest() {
    let mut buf = LogBuffer::with_cap(2);
    buf.push("a");
    buf.push("b");
    buf.push("c");
    assert_eq!(buf.snapshot(), ["b", "c"]);
}

#[test]
fn clear_empties() {
    let mut buf = LogBuffer::new();
    buf.push("a");
    buf.clear();
    assert!(buf.snapshot().is_empty());
}

#[test]
fn zero_cap_still_keeps_the_newest_line() {
    let mut buf = LogBuffer::with_cap(0);
    buf.push("a");
    buf.push("b");
    assert_eq!(buf.snapshot(), ["b"]);
}

#[test]
fn default_cap_is_four_thousand() {
    let mut buf = LogBuffer::new();
    for i in 0..4005 {
        buf.push(&format!("line {i}"));
    }
    let snap = buf.snapshot();
    assert_eq!(snap.len(), 4000);
    assert_eq!(snap[0], "line 5");
    assert_eq!(snap[3999], "line 4004");
}
