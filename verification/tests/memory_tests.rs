use mprober_lib::memory::free;
use mprober_lib::ProbeError;

fn meminfo(values: [u64; 11]) -> Vec<u8> {
    let labels = [
        "MemTotal", "MemFree", "MemAvailable", "Buffers", "Cached", "SwapCached", "SwapTotal",
        "SwapFree", "Shmem", "Slab", "SUnreclaim",
    ];
    let mut text = String::new();
    for (label, value) in labels.iter().zip(values.iter()) {
        text.push_str(&format!("{}:{:>12} kB\n", label, value));
    }
    text.into_bytes()
}

#[test]
fn memory_identity_holds_exactly() {
    // total 1000, free 200, buffers 50, cached 300, slab 100, unreclaimable 50
    // => cache 350, used 400; everything scaled to bytes
    let f = free(meminfo([1000, 200, 300, 50, 300, 0, 100, 60, 10, 100, 50])).unwrap();
    assert_eq!(f.mem.total, 1000 * 1024);
    assert_eq!(f.mem.free, 200 * 1024);
    assert_eq!(f.mem.available, 300 * 1024);
    assert_eq!(f.mem.buffers, 50 * 1024);
    assert_eq!(f.mem.cache, 350 * 1024);
    assert_eq!(f.mem.used, 400 * 1024);
    assert_eq!(f.mem.shared, 10 * 1024);
    assert_eq!(
        f.mem.used + f.mem.free + f.mem.buffers + f.mem.cache,
        f.mem.total
    );
    assert_eq!(f.swap.total, 100 * 1024);
    assert_eq!(f.swap.free, 60 * 1024);
    assert_eq!(f.swap.cache, 0);
    assert_eq!(f.swap.used, 40 * 1024);
    assert_eq!(f.swap.used + f.swap.free + f.swap.cache, f.swap.total);
}

#[test]
fn memory_skips_unknown_lines() {
    let mut text = String::from("Bogus: 1 kB\n");
    text.push_str(core::str::from_utf8(&meminfo([8, 1, 2, 1, 4, 0, 4, 2, 0, 1, 0])).unwrap());
    let f = free(text.into_bytes()).unwrap();
    assert_eq!(f.mem.total, 8 * 1024);
}

#[test]
fn memory_missing_label_is_an_error() {
    let data = b"MemTotal: 1000 kB\nMemFree: 200 kB\n".to_vec();
    assert_eq!(free(data), Err(ProbeError::UnexpectedEof));
}

#[test]
fn memory_rejects_an_impossible_snapshot() {
    // unreclaimable slab larger than cached plus slab: the subtraction
    // would go negative
    assert_eq!(
        free(meminfo([1000, 200, 300, 50, 10, 0, 100, 60, 10, 10, 50])),
        Err(ProbeError::InvalidData)
    );
    // free plus buffers plus cache above the total
    assert_eq!(
        free(meminfo([100, 200, 300, 50, 300, 0, 100, 60, 10, 100, 50])),
        Err(ProbeError::InvalidData)
    );
}

#[test]
fn memory_value_must_be_numeric() {
    let data = b"MemTotal: lots kB\n".to_vec();
    assert_eq!(free(data), Err(ProbeError::InvalidData));
}
