use edr_kill_switch::hasher::{compute_sha256_hex, FileDigest, HashCache};
use edr_kill_switch::integrity::{
    canonical, seal_line, sidecar_entry, verify_line, IntegrityKey,
};
use edr_kill_switch::logger::LogEvent;

const FOX: &str = "The quick brown fox jumps over the lazy dog";
const FOX_TAG: &str = "f7bc83f430538424b13298e6aa6fb143ef4d59a14946175997479dbc2d1a3cd8";
const ABC: &str = "ba7816bf8f01cfea414140de5dae2223b00361a396177a9cb410ff61f20015ad";
const EMPTY: &str = "e3b0c44298fc1c149afbf4c8996fb92427ae41e4649b934ca495991b7852b855";

#[test]
fn tag_is_hmac_sha256_in_lower_case_hex() {
    assert_eq!(seal_line(b"key", FOX), FOX_TAG);
    assert_ne!(seal_line(b"kez", FOX), FOX_TAG);
    assert_ne!(seal_line(b"key", "The quick brown fox"), FOX_TAG);
}

#[test]
fn a_sealed_line_verifies_and_a_changed_one_does_not() {
    let key = IntegrityKey::generate();
    let line = "12:03:44 KILL 4212 OK";
    let tag = key.seal(line);
    assert_eq!(tag.len(), 64);
    assert!(key.verify(line, &tag));
    assert!(!key.verify("12:03:44 KILL 4213 OK", &tag));
    assert!(!key.verify(line, &tag.to_uppercase().replace('0', "1")));
    assert!(!key.verify(line, ""));
    assert!(verify_line(b"key", FOX, FOX_TAG));
    assert!(!verify_line(b"key", FOX, &FOX_TAG[1..]));
}

#[test]
fn keys_are_32_bytes_and_differ() {
    let a = IntegrityKey::generate();
    let b = IntegrityKey::generate();
    let line = "x";
    assert_ne!(a.seal(line), b.seal(line));
    let fixed = IntegrityKey::from_bytes(b"key".to_vec());
    assert_eq!(fixed.seal(FOX), FOX_TAG);
}

#[test]
fn sidecar_entry_is_tag_space_line() {
    assert_eq!(sidecar_entry(b"key", FOX), format!("{} {}", FOX_TAG, FOX));
}

#[test]
fn canonical_form_holds_the_instant_and_every_field() {
    let e = LogEvent::ProcessKilled {
        pid: 4212,
        process_name: "evil.exe".to_string(),
        timestamp: 1_431_648_000_123,
        success: true,
        reason: "terminated".to_string(),
    };
    assert_eq!(
        canonical(&e),
        "1431648000123 PROCESS_KILLED - PID: 4212, Process: evil.exe, Success: true, Reason: terminated"
    );
    let key = IntegrityKey::from_bytes(vec![7u8; 32]);
    assert_eq!(key.seal_event(&e), key.seal(&canonical(&e)));
}

#[test]
fn digest_is_sha256_in_lower_case_hex() {
    assert_eq!(compute_sha256_hex(&vec![b"abc".to_vec()]), ABC);
    assert_eq!(compute_sha256_hex(&vec![]), EMPTY);
    assert_eq!(compute_sha256_hex(&vec![vec![], vec![]]), EMPTY);
}

#[test]
fn digest_does_not_depend_on_how_the_content_is_cut() {
    assert_eq!(compute_sha256_hex(&vec![b"a".to_vec(), b"".to_vec(), b"bc".to_vec()]), ABC);
    let mut digest = FileDigest::new();
    digest.update(b"ab");
    digest.update(b"c");
    assert_eq!(digest.finish(), ABC);
    assert_eq!(FileDigest::new().finish(), EMPTY);
    let big = vec![0x5au8; 100_000];
    let whole = compute_sha256_hex(&vec![big.clone()]);
    let cut: Vec<Vec<u8>> = big.chunks(8192).map(|c| c.to_vec()).collect();
    assert_eq!(compute_sha256_hex(&cut), whole);
    assert_eq!(whole.len(), 64);
}

#[test]
fn hash_of_a_path_is_settled_by_the_first_call() {
    let mut cache = HashCache::new(false);
    assert_eq!(cache.lookup("/bin/tool"), None);
    assert_eq!(cache.calculate_file_hash("/bin/tool", &vec![b"abc".to_vec()]), ABC);
    assert_eq!(cache.lookup("/bin/tool"), Some(ABC.to_string()));
    assert_eq!(cache.calculate_file_hash("/bin/tool", &vec![b"changed".to_vec()]), ABC);
    assert_eq!(cache.calculate_file_hash("/bin/tool", &vec![]), ABC);
    assert_eq!(cache.len(), 1);
    assert_eq!(cache.calculate_file_hash("/bin/other", &vec![]), EMPTY);
    assert_eq!(cache.lookup("/bin/TOOL"), None);
    assert_eq!(cache.len(), 2);
}

#[test]
fn cache_can_fold_the_case_of_paths() {
    let mut cache = HashCache::new(true);
    assert_eq!(cache.remember("C:\\Apps\\Tool.exe", ABC.to_string()), ABC);
    assert_eq!(cache.lookup("c:\\apps\\TOOL.EXE"), Some(ABC.to_string()));
    assert_eq!(cache.remember("c:\\apps\\tool.exe", EMPTY.to_string()), ABC);
    assert_eq!(cache.len(), 1);
}
