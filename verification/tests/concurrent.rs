use std::sync::Mutex;

// Many concurrent tasks race to claim the same content object; exactly one
// wins the claim, so the object would be searched exactly once.
#[test]
fn concurrent_claim_is_won_exactly_once() {
    for _round in 0..20 {
        let registry = Mutex::new(git_rg::DedupRegistry::new());
        let wins = Mutex::new(0usize);
        let pool = rayon::ThreadPoolBuilder::new().num_threads(8).build().unwrap();
        pool.scope(|s| {
            for _ in 0..16 {
                s.spawn(|_| {
                    let oid = git_rg::Oid::from_bytes(vec![7u8; 20]).unwrap();
                    let newly = registry.lock().unwrap().insert(&oid);
                    if newly {
                        *wins.lock().unwrap() += 1;
                    }
                });
            }
        });
        assert_eq!(*wins.lock().unwrap(), 1);
        let oid = git_rg::Oid::from_bytes(vec![7u8; 20]).unwrap();
        assert!(registry.lock().unwrap().contains(&oid));
    }
}

// Tasks claiming distinct objects never block one another out: every
// distinct identifier is claimed exactly once.
#[test]
fn concurrent_distinct_claims_all_succeed() {
    let registry = Mutex::new(git_rg::DedupRegistry::new());
    let wins = Mutex::new(0usize);
    let pool = rayon::ThreadPoolBuilder::new().num_threads(8).build().unwrap();
    let registry_ref = &registry;
    let wins_ref = &wins;
    pool.scope(|s| {
        for seed in 0..16u8 {
            s.spawn(move |_| {
                let oid = git_rg::Oid::from_bytes(vec![seed; 20]).unwrap();
                let newly = registry_ref.lock().unwrap().insert(&oid);
                if newly {
                    *wins_ref.lock().unwrap() += 1;
                }
            });
        }
    });
    assert_eq!(*wins.lock().unwrap(), 16);
}
