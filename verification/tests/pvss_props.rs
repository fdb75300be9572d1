//! Properties of the PVSS layer, exercised against the real curve.

use optrand::pvss::PvssContext;
use optrand::pvss::PvssError;

fn setup(n: usize, t: usize) -> Vec<PvssContext> {
    let mut pks = Vec::new();
    let mut sks = Vec::new();
    for _ in 0..n {
        let (sk, pk) = PvssContext::keygen();
        sks.push(sk);
        pks.push(pk);
    }
    let h2 = PvssContext::genesis_h2();
    (0..n)
        .map(|i| PvssContext::new(i, t, h2.clone(), pks.clone(), sks[i].clone()).unwrap())
        .collect()
}

#[test]
fn dealing_verifies() {
    let ctxs = setup(4, 1);
    let d = ctxs[0].generate_shares();
    assert!(ctxs[1].verify_sharing(&d).is_ok());
}

#[test]
fn aggregate_passes_pverify() {
    let ctxs = setup(4, 1);
    let d0 = ctxs[0].generate_shares();
    let d1 = ctxs[1].generate_shares();
    assert!(ctxs[3].verify_sharing(&d0).is_ok());
    assert!(ctxs[3].verify_sharing(&d1).is_ok());
    let (agg, _pi) = ctxs[0].aggregate(&vec![0, 1], &vec![d0, d1]).unwrap();
    assert!(ctxs[2].pverify(&agg).is_ok());
}

#[test]
fn decomposition_verifies() {
    let ctxs = setup(4, 1);
    let d0 = ctxs[0].generate_shares();
    let d1 = ctxs[1].generate_shares();
    let (agg, pi) = ctxs[0].aggregate(&vec![0, 1], &vec![d0, d1]).unwrap();
    assert!(ctxs[2].decomp_verify(&agg, &pi).is_ok());
}

#[test]
fn reconstruction_is_subset_independent() {
    let n = 4;
    let ctxs = setup(n, 1);
    let dealings: Vec<_> = (0..2).map(|i| ctxs[i].generate_shares()).collect();
    let (agg, _pi) = ctxs[0].aggregate(&vec![0, 1], &dealings).unwrap();
    // every replica decrypts its own share, and each share verifies
    let mut shares = Vec::new();
    for i in 0..n {
        let d = ctxs[i].decrypt_share(&agg.encs[i]).unwrap();
        assert!(ctxs[0].verify_share(i, &d.dec, &agg.encs[i], &d.dleq_proof));
        shares.push(d);
    }
    // subset {0, 1}
    let mut s01: Vec<Option<_>> = vec![None, None, None, None];
    s01[0] = Some(shares[0].clone());
    s01[1] = Some(shares[1].clone());
    // subset {2, 3}
    let mut s23: Vec<Option<_>> = vec![None, None, None, None];
    s23[2] = Some(shares[2].clone());
    s23[3] = Some(shares[3].clone());
    let b1 = ctxs[0].reconstruct(&s01).unwrap();
    let b2 = ctxs[1].reconstruct(&s23).unwrap();
    assert_eq!(b1.value, b2.value);
    assert_eq!(b1.beacon, b2.beacon);
}

#[test]
fn wrong_length_is_malformed() {
    let ctxs = setup(4, 1);
    let mut d = ctxs[0].generate_shares();
    d.comms.pop();
    assert_eq!(ctxs[1].verify_sharing(&d), Err(PvssError::Malformed));
}

#[test]
fn swapped_proofs_are_invalid_dleq() {
    let ctxs = setup(4, 1);
    let mut d = ctxs[0].generate_shares();
    d.proofs.swap(0, 1);
    assert_eq!(ctxs[1].verify_sharing(&d), Err(PvssError::InvalidDleq));
}

#[test]
fn high_degree_dealing_is_off_polynomial() {
    // a dealing over a degree-1 polynomial has valid DLEQ proofs, but its
    // commitments do not lie on a degree-0 polynomial
    let n = 4;
    let mut pks = Vec::new();
    let mut sks = Vec::new();
    for _ in 0..n {
        let (sk, pk) = PvssContext::keygen();
        sks.push(sk);
        pks.push(pk);
    }
    let h2 = PvssContext::genesis_h2();
    let deg1 = PvssContext::new(0, 1, h2.clone(), pks.clone(), sks[0].clone()).unwrap();
    let deg0 = PvssContext::new(1, 0, h2, pks, sks[1].clone()).unwrap();
    let d = deg1.generate_shares();
    assert_eq!(deg0.verify_sharing(&d), Err(PvssError::NotOnPolynomial));
}

#[test]
fn share_from_wrong_replica_fails() {
    let n = 4;
    let ctxs = setup(n, 1);
    let dealings: Vec<_> = (0..2).map(|i| ctxs[i].generate_shares()).collect();
    let (agg, _pi) = ctxs[0].aggregate(&vec![0, 1], &dealings).unwrap();
    let d = ctxs[2].decrypt_share(&agg.encs[2]).unwrap();
    assert!(ctxs[0].verify_share(2, &d.dec, &agg.encs[2], &d.dleq_proof));
    // the same share does not verify under another replica's key
    assert!(!ctxs[0].verify_share(3, &d.dec, &agg.encs[3], &d.dleq_proof));
}

#[test]
fn aggregate_refuses_short_input() {
    let ctxs = setup(4, 1);
    let d0 = ctxs[0].generate_shares();
    assert!(ctxs[0].aggregate(&vec![0], &vec![d0]).is_err());
}
