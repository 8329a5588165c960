use turbomcp_wasm::auth::jwks::{
    AuthError, FetchFailure, FetchNext, Jwk, JwkSet, JwksCache, JwtAlgorithm,
};

#[test]
fn test_jwk_is_rsa() {
    let jwk = Jwk {
        kty: "RSA".to_string(),
        kid: Some("key1".to_string()),
        alg: Some("RS256".to_string()),
        use_: Some("sig".to_string()),
        n: Some("modulus".to_string()),
        e: Some("AQAB".to_string()),
        crv: None,
        x: None,
        y: None,
        k: None,
    };

    assert!(jwk.is_rsa());
    assert!(!jwk.is_ec());
    assert!(jwk.is_signing_key());
    assert_eq!(jwk.algorithm(), Some(JwtAlgorithm::RS256));
}

#[test]
fn test_jwk_is_ec() {
    let jwk = Jwk {
        kty: "EC".to_string(),
        kid: Some("key2".to_string()),
        alg: Some("ES256".to_string()),
        use_: Some("sig".to_string()),
        n: None,
        e: None,
        crv: Some("P-256".to_string()),
        x: Some("x-coord".to_string()),
        y: Some("y-coord".to_string()),
        k: None,
    };

    assert!(!jwk.is_rsa());
    assert!(jwk.is_ec());
    assert!(jwk.is_signing_key());
    assert_eq!(jwk.algorithm(), Some(JwtAlgorithm::ES256));
}

#[test]
fn test_jwks_find_by_kid() {
    let jwks = JwkSet {
        keys: vec![
            Jwk {
                kty: "RSA".to_string(),
                kid: Some("key1".to_string()),
                alg: Some("RS256".to_string()),
                use_: None,
                n: Some("n".to_string()),
                e: Some("e".to_string()),
                crv: None,
                x: None,
                y: None,
                k: None,
            },
            Jwk {
                kty: "EC".to_string(),
                kid: Some("key2".to_string()),
                alg: Some("ES256".to_string()),
                use_: None,
                n: None,
                e: None,
                crv: Some("P-256".to_string()),
                x: Some("x".to_string()),
                y: Some("y".to_string()),
                k: None,
            },
        ],
    };

    assert!(jwks.find_by_kid("key1").is_some());
    assert!(jwks.find_by_kid("key2").is_some());
    assert!(jwks.find_by_kid("key3").is_none());
}

// ==========================================================================
// Security Tests: Algorithm Confusion Attack Prevention
// ==========================================================================

#[test]
fn test_jwk_is_symmetric() {
    let jwk = Jwk {
        kty: "oct".to_string(),
        kid: Some("hmac-key".to_string()),
        alg: Some("HS256".to_string()),
        use_: Some("sig".to_string()),
        n: None,
        e: None,
        crv: None,
        x: None,
        y: None,
        k: Some("c2VjcmV0".to_string()), // base64url encoded "secret"
    };

    assert!(jwk.is_symmetric());
    assert!(!jwk.is_rsa());
    assert!(!jwk.is_ec());
}

#[test]
fn test_rsa_key_compatible_with_rs_algorithms() {
    let rsa_jwk = Jwk {
        kty: "RSA".to_string(),
        kid: None,
        alg: None,
        use_: None,
        n: Some("modulus".to_string()),
        e: Some("AQAB".to_string()),
        crv: None,
        x: None,
        y: None,
        k: None,
    };

    // RSA key should be compatible with RS* algorithms
    assert!(rsa_jwk.is_compatible_with_algorithm(JwtAlgorithm::RS256));
    assert!(rsa_jwk.is_compatible_with_algorithm(JwtAlgorithm::RS384));
    assert!(rsa_jwk.is_compatible_with_algorithm(JwtAlgorithm::RS512));

    // RSA key should NOT be compatible with other algorithms
    assert!(!rsa_jwk.is_compatible_with_algorithm(JwtAlgorithm::ES256));
    assert!(!rsa_jwk.is_compatible_with_algorithm(JwtAlgorithm::ES384));
    assert!(!rsa_jwk.is_compatible_with_algorithm(JwtAlgorithm::HS256));
    assert!(!rsa_jwk.is_compatible_with_algorithm(JwtAlgorithm::HS384));
    assert!(!rsa_jwk.is_compatible_with_algorithm(JwtAlgorithm::HS512));
}

#[test]
fn test_ec_key_compatible_with_es_algorithms() {
    let ec_p256_jwk = Jwk {
        kty: "EC".to_string(),
        kid: None,
        alg: None,
        use_: None,
        n: None,
        e: None,
        crv: Some("P-256".to_string()),
        x: Some("x-coord".to_string()),
        y: Some("y-coord".to_string()),
        k: None,
    };

    // P-256 key should only be compatible with ES256
    assert!(ec_p256_jwk.is_compatible_with_algorithm(JwtAlgorithm::ES256));
    assert!(!ec_p256_jwk.is_compatible_with_algorithm(JwtAlgorithm::ES384));

    // EC key should NOT be compatible with RS* or HS* algorithms
    assert!(!ec_p256_jwk.is_compatible_with_algorithm(JwtAlgorithm::RS256));
    assert!(!ec_p256_jwk.is_compatible_with_algorithm(JwtAlgorithm::HS256));

    // P-384 key should only be compatible with ES384
    let ec_p384_jwk = Jwk {
        kty: "EC".to_string(),
        kid: None,
        alg: None,
        use_: None,
        n: None,
        e: None,
        crv: Some("P-384".to_string()),
        x: Some("x-coord".to_string()),
        y: Some("y-coord".to_string()),
        k: None,
    };

    assert!(!ec_p384_jwk.is_compatible_with_algorithm(JwtAlgorithm::ES256));
    assert!(ec_p384_jwk.is_compatible_with_algorithm(JwtAlgorithm::ES384));
}

#[test]
fn test_symmetric_key_compatible_with_hs_algorithms() {
    let hmac_jwk = Jwk {
        kty: "oct".to_string(),
        kid: None,
        alg: None,
        use_: None,
        n: None,
        e: None,
        crv: None,
        x: None,
        y: None,
        k: Some("c2VjcmV0".to_string()),
    };

    // Symmetric key should be compatible with HS* algorithms
    assert!(hmac_jwk.is_compatible_with_algorithm(JwtAlgorithm::HS256));
    assert!(hmac_jwk.is_compatible_with_algorithm(JwtAlgorithm::HS384));
    assert!(hmac_jwk.is_compatible_with_algorithm(JwtAlgorithm::HS512));

    // Symmetric key should NOT be compatible with asymmetric algorithms
    assert!(!hmac_jwk.is_compatible_with_algorithm(JwtAlgorithm::RS256));
    assert!(!hmac_jwk.is_compatible_with_algorithm(JwtAlgorithm::ES256));
}

#[test]
fn test_algorithm_confusion_attack_prevention() {
    // This test verifies that the classic RS256 -> HS256 attack is prevented.
    // In this attack, the attacker changes the algorithm to HS256 and uses
    // the RSA public key as the HMAC secret.
    let rsa_public_key = Jwk {
        kty: "RSA".to_string(),
        kid: None,
        alg: Some("RS256".to_string()), // Key advertises RS256
        use_: Some("sig".to_string()),
        n: Some("modulus".to_string()),
        e: Some("AQAB".to_string()),
        crv: None,
        x: None,
        y: None,
        k: None,
    };

    // Attacker tries to use RSA public key with HS256 algorithm
    let result = rsa_public_key.validate_algorithm_compatibility(JwtAlgorithm::HS256);
    assert!(result.is_err(), "RSA key should not be usable with HS256");

    let err = result.unwrap_err();
    let err_msg = err.to_string();
    assert!(
        err_msg.contains("not compatible") && err_msg.contains("algorithm confusion"),
        "Error should mention algorithm confusion attack: {}",
        err_msg
    );
}

// ==========================================================================
// Security Tests: JWKS URL Validation
// ==========================================================================

#[test]
fn test_jwks_url_https_required() {
    // HTTPS URL should be allowed
    let https_cache = JwksCache::new("https://auth.example.com/.well-known/jwks.json");
    assert!(https_cache.validate_url().is_ok());
}

#[test]
fn test_jwks_url_http_rejected() {
    // HTTP URL should be rejected
    let http_cache = JwksCache::new("http://auth.example.com/.well-known/jwks.json");
    let result = http_cache.validate_url();
    assert!(result.is_err());

    let err = result.unwrap_err();
    assert!(
        err.to_string().contains("HTTPS"),
        "Error should mention HTTPS requirement: {}",
        err.to_string()
    );
}

#[test]
fn test_jwks_url_localhost_allowed() {
    // Localhost URLs should be allowed for development
    let localhost_cache = JwksCache::new("http://localhost:8080/.well-known/jwks.json");
    assert!(localhost_cache.validate_url().is_ok());

    let localhost_127 = JwksCache::new("http://127.0.0.1:8080/.well-known/jwks.json");
    assert!(localhost_127.validate_url().is_ok());

    let localhost_ipv6 = JwksCache::new("http://[::1]:8080/.well-known/jwks.json");
    assert!(localhost_ipv6.validate_url().is_ok());
}

#[test]
fn test_jwks_url_insecure_mode() {
    // With allow_insecure_http(), HTTP should be allowed
    let cache =
        JwksCache::new("http://test-server/.well-known/jwks.json").allow_insecure_http();
    assert!(cache.validate_url().is_ok());
}

// ==========================================================================
// Security Tests: Symmetric Key Rejection in Public JWKS
// ==========================================================================

#[test]
fn test_jwk_validate_for_public_jwks_rejects_symmetric() {
    let hmac_key = Jwk {
        kty: "oct".to_string(),
        kid: Some("hmac-key-1".to_string()),
        alg: Some("HS256".to_string()),
        use_: Some("sig".to_string()),
        n: None,
        e: None,
        crv: None,
        x: None,
        y: None,
        k: Some("c2VjcmV0".to_string()),
    };

    let result = hmac_key.validate_for_public_jwks();
    assert!(result.is_err(), "Symmetric key should be rejected");

    let err = result.unwrap_err();
    let err_msg = err.to_string();
    assert!(
        err_msg.contains("Symmetric keys") && err_msg.contains("must not appear"),
        "Error should explain symmetric key prohibition: {}",
        err_msg
    );
}

#[test]
fn test_jwk_validate_for_public_jwks_accepts_asymmetric() {
    // RSA key should be accepted
    let rsa_key = Jwk {
        kty: "RSA".to_string(),
        kid: Some("rsa-key-1".to_string()),
        alg: Some("RS256".to_string()),
        use_: Some("sig".to_string()),
        n: Some("modulus".to_string()),
        e: Some("AQAB".to_string()),
        crv: None,
        x: None,
        y: None,
        k: None,
    };
    assert!(rsa_key.validate_for_public_jwks().is_ok());

    // EC key should be accepted
    let ec_key = Jwk {
        kty: "EC".to_string(),
        kid: Some("ec-key-1".to_string()),
        alg: Some("ES256".to_string()),
        use_: Some("sig".to_string()),
        n: None,
        e: None,
        crv: Some("P-256".to_string()),
        x: Some("x-coord".to_string()),
        y: Some("y-coord".to_string()),
        k: None,
    };
    assert!(ec_key.validate_for_public_jwks().is_ok());
}

#[test]
fn test_jwks_filter_for_public_jwks() {
    let jwks = JwkSet {
        keys: vec![
            // Valid RSA key
            Jwk {
                kty: "RSA".to_string(),
                kid: Some("rsa-1".to_string()),
                alg: Some("RS256".to_string()),
                use_: Some("sig".to_string()),
                n: Some("n".to_string()),
                e: Some("e".to_string()),
                crv: None,
                x: None,
                y: None,
                k: None,
            },
            // Invalid HMAC key (should be filtered out)
            Jwk {
                kty: "oct".to_string(),
                kid: Some("hmac-1".to_string()),
                alg: Some("HS256".to_string()),
                use_: Some("sig".to_string()),
                n: None,
                e: None,
                crv: None,
                x: None,
                y: None,
                k: Some("secret".to_string()),
            },
            // Valid EC key
            Jwk {
                kty: "EC".to_string(),
                kid: Some("ec-1".to_string()),
                alg: Some("ES256".to_string()),
                use_: Some("sig".to_string()),
                n: None,
                e: None,
                crv: Some("P-256".to_string()),
                x: Some("x".to_string()),
                y: Some("y".to_string()),
                k: None,
            },
        ],
    };

    let filtered = jwks.filter_for_public_jwks();

    // Should only have 2 keys (RSA and EC, HMAC filtered out)
    assert_eq!(filtered.keys.len(), 2);
    assert!(filtered.find_by_kid("rsa-1").is_some());
    assert!(filtered.find_by_kid("hmac-1").is_none()); // Filtered out
    assert!(filtered.find_by_kid("ec-1").is_some());
}

#[test]
fn cached_keys_are_served_only_while_fresh() {
    let mut cache =
        JwksCache::new("https://auth.example.com/.well-known/jwks.json").with_ttl_seconds(60);
    assert!(cache.cached_jwks(0).is_none());
    cache.store(JwkSet { keys: vec![] }, 1_000);
    assert!(cache.cached_jwks(1_000).is_some());
    assert!(cache.cached_jwks(60_999).is_some());
    assert!(cache.cached_jwks(61_000).is_none());
    cache.clear();
    assert!(cache.cached_jwks(1_000).is_none());
}

#[test]
fn ttl_is_capped_at_six_hours() {
    let mut cache =
        JwksCache::new("https://auth.example.com/.well-known/jwks.json").with_ttl_seconds(86_400);
    cache.store(JwkSet { keys: vec![] }, 0);
    assert!(cache.cached_jwks(21_599_999).is_some());
    assert!(cache.cached_jwks(21_600_000).is_none());
}

#[test]
fn retries_back_off_exponentially_and_stop() {
    let cache = JwksCache::new("https://auth.example.com/.well-known/jwks.json")
        .with_retry_config(3, 100);
    assert_eq!(cache.retry_delay_ms(0), Some(100));
    assert_eq!(cache.retry_delay_ms(1), Some(200));
    assert_eq!(cache.retry_delay_ms(2), Some(400));
    assert_eq!(cache.retry_delay_ms(3), None);
    let huge = JwksCache::new("https://a").with_retry_config(100, u64::MAX / 2);
    assert_eq!(huge.retry_delay_ms(5), Some(u64::MAX));
}

#[test]
fn server_errors_are_retried_client_errors_are_not() {
    assert_eq!(JwksCache::classify_status(503), FetchFailure::Transient);
    assert_eq!(JwksCache::classify_status(500), FetchFailure::Transient);
    assert_eq!(JwksCache::classify_status(404), FetchFailure::Permanent);
}

#[test]
fn algorithm_names_round_trip() {
    for alg in [
        JwtAlgorithm::RS256,
        JwtAlgorithm::RS384,
        JwtAlgorithm::RS512,
        JwtAlgorithm::ES256,
        JwtAlgorithm::ES384,
        JwtAlgorithm::HS256,
        JwtAlgorithm::HS384,
        JwtAlgorithm::HS512,
    ] {
        assert_eq!(JwtAlgorithm::parse(alg.as_str()), Some(alg));
    }
    assert_eq!(JwtAlgorithm::parse("none"), None);
}

#[test]
fn transient_failures_are_retried_until_the_retries_run_out() {
    let cache = JwksCache::new("https://auth.example.com/jwks").with_retry_config(2, 50);
    let err = || AuthError::KeyFetchError("Failed to fetch JWKS from authorization server".to_string());
    assert!(matches!(
        cache.after_failed_fetch(0, FetchFailure::Transient, err()),
        FetchNext::RetryAfter(50)
    ));
    assert!(matches!(
        cache.after_failed_fetch(1, FetchFailure::Transient, err()),
        FetchNext::RetryAfter(100)
    ));
    match cache.after_failed_fetch(2, FetchFailure::Transient, err()) {
        FetchNext::GiveUp(e) => assert_eq!(e, err()),
        other => panic!("expected to give up, got {other:?}"),
    }
    match cache.after_failed_fetch(0, FetchFailure::Permanent, AuthError::Internal("x".to_string())) {
        FetchNext::GiveUp(e) => assert_eq!(e, AuthError::Internal("x".to_string())),
        other => panic!("expected to give up, got {other:?}"),
    }
    assert_eq!(JwksCache::classify_status(503), FetchFailure::Transient);
    assert_eq!(JwksCache::classify_status(404), FetchFailure::Permanent);
}

#[test]
fn loopback_lookalike_hosts_are_not_loopback() {
    for url in [
        "http://localhost.evil.com/jwks.json",
        "http://127.0.0.1.evil.com/jwks.json",
        "http://evil.com/?next=http://localhost/",
        "http://localhost@evil.com/jwks.json",
        "http://localhost:80x/jwks.json",
        "ftp://localhost/jwks.json",
        " https://auth.example.com/jwks",
        "https:auth.example.com",
        "not a url",
    ] {
        assert!(JwksCache::new(url).validate_url().is_err(), "{url}");
    }
    for url in [
        "HTTPS://auth.example.com/jwks.json",
        "https://",
        "http://LOCALHOST/jwks.json",
        "http://localhost",
        "http://localhost?x=1",
        "http://127.0.0.1#k",
        "http://[::1]:8080/jwks.json",
    ] {
        assert!(JwksCache::new(url).validate_url().is_ok(), "{url}");
    }
}

#[test]
fn fetch_statuses_decide_success_and_retry() {
    assert!(JwksCache::check_fetch_status(200).is_ok());
    assert!(matches!(
        JwksCache::check_fetch_status(503),
        Err((FetchFailure::Transient, AuthError::KeyFetchError(ref m)))
            if m == "Failed to fetch JWKS from authorization server"
    ));
    assert!(matches!(
        JwksCache::check_fetch_status(404),
        Err((FetchFailure::Permanent, AuthError::KeyFetchError(_)))
    ));
}
