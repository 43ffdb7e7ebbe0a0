use dirvault::container::{encode_header, parse_header_prefix, FIXED_HEADER};
use dirvault::error::VaultError;
use dirvault::kdf::{derive_key, KdfParams, KeyMaterial};
use dirvault::keystream::FileCipher;
use dirvault::naming::ContainerNamer;
use dirvault::scheduler::{max_parallel, Dispatcher, JobLedger};
use dirvault::vault::{open_container, open_header, seal_container, seal_header};

fn cheap() -> KdfParams {
    KdfParams { lanes: 1, mem_cost: 8, time_cost: 1 }
}

fn material(secret: &[u8], nonce: [u8; 24]) -> KeyMaterial {
    let key = derive_key(secret, &nonce, &cheap()).unwrap();
    KeyMaterial { nonce, key }
}

fn keystream_bytes(key: &Vec<u8>, nonce: &[u8; 24], n: usize) -> Vec<u8> {
    let mut c = FileCipher::new(key, nonce);
    let mut zeros = vec![0u8; n];
    c.apply(&mut zeros);
    zeros
}

#[test]
fn header_layout_is_nonce_length_path() {
    let nonce = [7u8; 24];
    let path = vec![1u8, 2, 3, 4, 5];
    let h = encode_header(&nonce, &path).unwrap();
    assert_eq!(h.len(), 24 + 4 + 5);
    assert_eq!(&h[..24], &nonce[..]);
    assert_eq!(&h[24..28], &[5u8, 0, 0, 0]);
    assert_eq!(&h[28..], &path[..]);
}

#[test]
fn header_length_field_is_little_endian() {
    let nonce = [0u8; 24];
    let path = vec![9u8; 300];
    let h = encode_header(&nonce, &path).unwrap();
    assert_eq!(&h[24..28], &[44u8, 1, 0, 0]);
}

#[test]
fn prefix_of_short_file_is_malformed() {
    let head = vec![0u8; 27];
    assert_eq!(parse_header_prefix(&head, 27).err(), Some(VaultError::MalformedContainer));
}

#[test]
fn prefix_with_path_past_end_is_malformed() {
    let mut head = vec![0u8; 28];
    head[24] = 10;
    assert_eq!(parse_header_prefix(&head, 37).err(), Some(VaultError::MalformedContainer));
    let ok = parse_header_prefix(&head, 38).unwrap();
    assert_eq!(ok.path_len, 10);
}

#[test]
fn prefix_reads_nonce_and_length() {
    let mut head = vec![0u8; 28];
    for i in 0..24 {
        head[i] = i as u8;
    }
    head[24] = 1;
    head[25] = 2;
    let p = parse_header_prefix(&head, 10_000).unwrap();
    assert_eq!(p.path_len, 513);
    for i in 0..24 {
        assert_eq!(p.nonce[i], i as u8);
    }
}

#[test]
fn key_derivation_is_deterministic() {
    let a = derive_key(b"pw", &[3u8; 24], &cheap()).unwrap();
    let b = derive_key(b"pw", &[3u8; 24], &cheap()).unwrap();
    assert_eq!(a.len(), 32);
    assert_eq!(a, b);
}

#[test]
fn key_depends_on_salt_and_secret() {
    let a = derive_key(b"pw", &[3u8; 24], &cheap()).unwrap();
    let b = derive_key(b"pw", &[4u8; 24], &cheap()).unwrap();
    let c = derive_key(b"wrong", &[3u8; 24], &cheap()).unwrap();
    assert_ne!(a, b);
    assert_ne!(a, c);
}

#[test]
fn refused_costs_fail_key_derivation() {
    let bad = KdfParams { lanes: 0, mem_cost: 8, time_cost: 1 };
    assert_eq!(derive_key(b"pw", &[3u8; 24], &bad).err(), Some(VaultError::KeyDerivationFailure));
    let bad_time = KdfParams { lanes: 1, mem_cost: 8, time_cost: 0 };
    assert_eq!(
        derive_key(b"pw", &[3u8; 24], &bad_time).err(),
        Some(VaultError::KeyDerivationFailure)
    );
}

#[test]
fn standard_costs() {
    let p = KdfParams::standard();
    assert_eq!(p.lanes, 8);
    assert_eq!(p.mem_cost, 16384);
    assert_eq!(p.time_cost, 8);
}

#[test]
fn nonces_are_distinct_across_files() {
    let mut seen: Vec<KeyMaterial> = Vec::new();
    for _ in 0..32 {
        seen.push(KeyMaterial::generate(b"pw", &cheap()).unwrap());
    }
    for i in 0..seen.len() {
        for j in (i + 1)..seen.len() {
            assert_ne!(seen[i].nonce, seen[j].nonce);
            assert_ne!(seen[i].key, seen[j].key);
        }
    }
}

#[test]
fn keystream_changes_data_and_restores_it() {
    let km = material(b"pw", [1u8; 24]);
    let ks = keystream_bytes(&km.key, &km.nonce, 64);
    assert!(ks.iter().any(|b| *b != 0));
    let mut c = FileCipher::new(&km.key, &km.nonce);
    let mut data = ks.clone();
    c.apply(&mut data);
    assert_eq!(data, vec![0u8; 64]);
    assert_eq!(c.used(), 64);
}

#[test]
fn keystream_in_chunks_matches_whole() {
    let km = material(b"pw", [2u8; 24]);
    let whole = keystream_bytes(&km.key, &km.nonce, 200);
    let mut c = FileCipher::new(&km.key, &km.nonce);
    let mut parts = Vec::new();
    for len in [1usize, 63, 1, 64, 70, 1] {
        let mut chunk = vec![0u8; len];
        c.apply(&mut chunk);
        parts.extend_from_slice(&chunk);
    }
    assert_eq!(parts, whole);
}

#[test]
fn sealed_container_has_plain_nonce_and_encrypted_path() {
    let km = material(b"pw", [5u8; 24]);
    let body = b"hello world".to_vec();
    let c = seal_container(&km, "report.txt", &body, 4).unwrap();
    assert_eq!(c.len(), FIXED_HEADER + 10 + 11);
    assert_eq!(&c[..24], &[5u8; 24]);
    assert_eq!(&c[24..28], &[10u8, 0, 0, 0]);
    assert_ne!(&c[28..38], b"report.txt");
    assert_ne!(&c[38..], &body[..]);
    let ks = keystream_bytes(&km.key, &km.nonce, 21);
    for i in 0..10 {
        assert_eq!(c[28 + i], b"report.txt"[i] ^ ks[i]);
    }
    for i in 0..11 {
        assert_eq!(c[38 + i], body[i] ^ ks[10 + i]);
    }
}

#[test]
fn seal_header_leaves_cipher_after_path() {
    let km = material(b"pw", [6u8; 24]);
    let s = seal_header(&km, "a/b").unwrap();
    assert_eq!(s.header.len(), 31);
    assert_eq!(s.cipher.used(), 3);
}

#[test]
fn round_trip_various_sizes_and_chunks() {
    let km = material(b"secret", [9u8; 24]);
    for size in [0usize, 1, 63, 64, 65, 1000] {
        let body: Vec<u8> = (0..size).map(|i| (i * 31 % 251) as u8).collect();
        for chunk in [1usize, 7, 64, 4096] {
            let c = seal_container(&km, "dir/sub/file.bin", &body, chunk).unwrap();
            let o = open_container(b"secret", &cheap(), &c, 13).unwrap();
            assert_eq!(o.path, "dir/sub/file.bin");
            assert_eq!(o.body, body);
        }
    }
}

#[test]
fn chunk_size_does_not_change_container() {
    let km = material(b"secret", [8u8; 24]);
    let body: Vec<u8> = (0..500).map(|i| i as u8).collect();
    let a = seal_container(&km, "x", &body, 1).unwrap();
    let b = seal_container(&km, "x", &body, 500).unwrap();
    let c = seal_container(&km, "x", &body, 77).unwrap();
    assert_eq!(a, b);
    assert_eq!(a, c);
}

#[test]
fn non_ascii_path_round_trips() {
    let km = material(b"pw", [4u8; 24]);
    let c = seal_container(&km, "döcs/ñotes✓.md", &b"abc".to_vec(), 2).unwrap();
    let o = open_container(b"pw", &cheap(), &c, 2).unwrap();
    assert_eq!(o.path, "döcs/ñotes✓.md");
    assert_eq!(o.body, b"abc".to_vec());
}

#[test]
fn corrupt_length_field_is_malformed() {
    let km = material(b"pw", [3u8; 24]);
    let mut c = seal_container(&km, "report.txt", &b"hello world".to_vec(), 8).unwrap();
    c[24] = 0xFF;
    c[25] = 0xFF;
    assert_eq!(
        open_container(b"pw", &cheap(), &c, 8).err(),
        Some(VaultError::MalformedContainer)
    );
    let mut d = seal_container(&km, "report.txt", &b"hello world".to_vec(), 8).unwrap();
    d[24] = 22;
    assert_eq!(
        open_container(b"pw", &cheap(), &d, 8).err(),
        Some(VaultError::MalformedContainer)
    );
}

#[test]
fn truncated_container_is_malformed() {
    let km = material(b"pw", [3u8; 24]);
    let c = seal_container(&km, "report.txt", &b"hello world".to_vec(), 8).unwrap();
    assert_eq!(
        open_container(b"pw", &cheap(), &c[..20].to_vec(), 8).err(),
        Some(VaultError::MalformedContainer)
    );
    assert_eq!(
        open_container(b"pw", &cheap(), &c[..37].to_vec(), 8).err(),
        Some(VaultError::MalformedContainer)
    );
}

#[test]
fn undecodable_path_is_malformed() {
    let km = material(b"pw", [2u8; 24]);
    let ks = keystream_bytes(&km.key, &km.nonce, 2);
    let enc = vec![0xFFu8 ^ ks[0], 0xFEu8 ^ ks[1]];
    assert_eq!(
        open_header(&km.key, &km.nonce, enc).err(),
        Some(VaultError::MalformedContainer)
    );
    let good = vec![b'o' ^ ks[0], b'k' ^ ks[1]];
    let o = open_header(&km.key, &km.nonce, good).unwrap();
    assert_eq!(o.path, "ok");
    assert_eq!(o.cipher.used(), 2);
}

#[test]
fn open_with_refused_costs_fails() {
    let km = material(b"pw", [2u8; 24]);
    let c = seal_container(&km, "a", &b"b".to_vec(), 8).unwrap();
    let bad = KdfParams { lanes: 2, mem_cost: 8, time_cost: 1 };
    assert_eq!(
        open_container(b"pw", &bad, &c, 8).err(),
        Some(VaultError::KeyDerivationFailure)
    );
}

#[test]
fn scenario_report_and_notes() {
    let files: Vec<(&str, Vec<u8>)> =
        vec![("report.txt", b"hello world".to_vec()), ("docs/notes.md", b"abc".to_vec())];
    let mut containers = Vec::new();
    for (path, body) in &files {
        let km = KeyMaterial::generate(b"pw", &cheap()).unwrap();
        containers.push(seal_container(&km, path, body, 4).unwrap());
    }
    assert_eq!(containers.len(), 2);
    for (c, (path, body)) in containers.iter().zip(files.iter()) {
        let o = open_container(b"pw", &cheap(), c, 4).unwrap();
        assert_eq!(o.path, *path);
        assert_eq!(o.body, *body);
    }
    let fixed = material(b"pw", [1u8; 24]);
    let c0 = seal_container(&fixed, "report.txt", &b"hello world".to_vec(), 4).unwrap();
    let wrong_key = derive_key(b"wrong", &fixed.nonce, &cheap()).unwrap();
    let mut cipher = FileCipher::new(&wrong_key, &fixed.nonce);
    let mut path = c0[28..38].to_vec();
    cipher.apply(&mut path);
    let mut body = c0[38..].to_vec();
    cipher.apply(&mut body);
    assert_eq!(body.len(), 11);
    assert_ne!(path, b"report.txt".to_vec());
    assert_ne!(body, b"hello world".to_vec());
    let c = &containers[0];
    let wrong = open_container(b"wrong", &cheap(), c, 4);
    match wrong {
        Ok(o) => {
            assert_eq!(o.body.len(), 11);
            assert_ne!(o.body, b"hello world".to_vec());
        }
        Err(e) => assert_eq!(e, VaultError::MalformedContainer),
    }
}

#[test]
fn dispatch_prefers_first_idle_worker() {
    let mut d = Dispatcher::new(3);
    assert_eq!(d.workers(), 3);
    assert_eq!(d.select(&vec![true, true, true]), 0);
    assert_eq!(d.select(&vec![false, true, true]), 1);
    assert_eq!(d.select(&vec![false, false, true]), 2);
}

#[test]
fn dispatch_round_robin_when_all_busy() {
    let mut d = Dispatcher::new(3);
    let busy = vec![false, false, false];
    assert_eq!(d.select(&busy), 1);
    assert_eq!(d.select(&busy), 2);
    assert_eq!(d.select(&busy), 0);
    assert_eq!(d.select(&vec![false, false, true]), 2);
    assert_eq!(d.select(&busy), 0);
}

#[test]
fn more_jobs_than_workers_each_go_to_one_worker() {
    let mut d = Dispatcher::new(2);
    let mut per_worker = vec![0usize; 2];
    let busy = vec![false, false];
    for _ in 0..7 {
        let w = d.select(&busy);
        assert!(w < 2);
        per_worker[w] += 1;
    }
    assert_eq!(per_worker[0] + per_worker[1], 7);
    assert_eq!(per_worker, vec![3, 4]);
}

#[test]
fn parallelism_is_seven_tenths_at_least_one() {
    assert_eq!(max_parallel(0), 1);
    assert_eq!(max_parallel(1), 1);
    assert_eq!(max_parallel(2), 1);
    assert_eq!(max_parallel(3), 2);
    assert_eq!(max_parallel(8), 5);
    assert_eq!(max_parallel(10), 7);
    assert_eq!(max_parallel(16), 11);
    assert_eq!(max_parallel(usize::MAX), usize::MAX / 10 * 7 + 3);
}

#[test]
fn container_names_are_fresh() {
    let mut n = ContainerNamer::new();
    let mut names = Vec::new();
    for _ in 0..50 {
        names.push(n.next_name().unwrap());
    }
    assert_eq!(n.count(), 50);
    for (i, a) in names.iter().enumerate() {
        assert_eq!(a.len(), 40);
        assert!(a.ends_with(".cha"));
        assert_eq!(a.matches('-').count(), 4);
        for b in &names[i + 1..] {
            assert_ne!(a, b);
        }
    }
}

#[test]
fn ledger_counts_each_job_once() {
    let mut l = JobLedger::new();
    assert!(l.all_done());
    let a = l.submit();
    let b = l.submit();
    assert_eq!((a, b), (0, 1));
    assert!(!l.all_done());
    assert!(l.complete(b));
    assert!(!l.complete(b));
    assert!(!l.complete(7));
    assert!(!l.all_done());
    assert!(l.complete(a));
    assert!(l.all_done());
}

#[test]
fn issue_appends_extension_and_refuses_repeats() {
    let mut n = ContainerNamer::new();
    let id = "0123456789abcdef0123456789abcdef0123".to_string();
    assert_eq!(id.len(), 36);
    assert_eq!(n.issue(id.clone()), Some(format!("{id}.cha")));
    assert_eq!(n.issue(id.clone()), None);
    assert_eq!(n.count(), 1);
    let other = "fedcba9876543210fedcba9876543210fedc".to_string();
    assert_eq!(n.issue(other.clone()), Some(format!("{other}.cha")));
    assert_eq!(n.count(), 2);
}
