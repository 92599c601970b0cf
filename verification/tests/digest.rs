use s3edit::digest::Digest;

#[test]
fn fingerprint_is_deterministic() {
    let bytes = b"some remote object content";
    assert_eq!(Digest::fingerprint(bytes), Digest::fingerprint(bytes));
    let again = bytes.to_vec();
    assert_eq!(Digest::fingerprint(bytes), Digest::fingerprint(&again));
}

#[test]
fn fingerprint_distinguishes_a_corpus() {
    let corpus: Vec<&[u8]> = vec![
        b"",
        b"a",
        b"b",
        b"hello",
        b"hello world",
        b"hello world!",
        b"Hello world",
        b"the quick brown fox",
        b"\x00",
        b"\x00\x00",
    ];
    for (i, x) in corpus.iter().enumerate() {
        for (j, y) in corpus.iter().enumerate() {
            if i != j {
                assert_ne!(Digest::fingerprint(x), Digest::fingerprint(y));
            }
        }
    }
}

#[test]
fn fingerprint_matches_known_values() {
    // 64-bit FNV-1a reference values.
    assert_eq!(Digest::fingerprint(b""), 0xcbf2_9ce4_8422_2325);
    assert_eq!(Digest::fingerprint(b"a"), 0xaf63_dc4c_8601_ec8c);
    assert_eq!(Digest::fingerprint(b"foobar"), 0x8594_4171_f739_67e8);
    assert_eq!(Digest::fingerprint(b"hello"), 0xa430_d846_80aa_bd0b);
}

#[test]
fn incremental_digest_matches_one_pass() {
    let mut d = Digest::new();
    d.update(b"hello ");
    d.update(b"world");
    assert_eq!(d.finish(), Digest::fingerprint(b"hello world"));

    let mut chunked = Digest::new();
    for chunk in [&b"he"[..], &b""[..], &b"l"[..], &b"lo"[..]] {
        chunked.update(chunk);
    }
    assert_eq!(chunked.finish(), Digest::fingerprint(b"hello"));
}

#[test]
fn empty_digest_is_offset_basis() {
    let d = Digest::new();
    assert_eq!(d.finish(), Digest::fingerprint(b""));
}
