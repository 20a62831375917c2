use ampscan::auth::{confirmation_matches, hash_password, password_long_enough, verify_password, AuthError};
use ampscan::db::models::User;
use ampscan::db::port_repo::{default_ports, needs_seeding};
use ampscan::db::prefix_repo::{prefix_ip_version, validate_new_prefix, PrefixError};
use ampscan::db::user_repo::{authenticate, check_user_deletable, has_users, require_user_updated};
use ampscan::db::{require_found, zeroize_key, Record, RepoError};
use ampscan::sys_limits::{try_raise_fd_limit, FdLimitAction, FdLimitError, FdLimitQuery, FdLimits};

#[test]
fn test_hash_and_verify() {
    let password = "test_password_123";
    let hash = hash_password(password).unwrap();
    assert!(verify_password(password, &hash).unwrap());
    assert!(!verify_password("wrong_password", &hash).unwrap());
}

#[test]
fn hashes_are_salted_phc_strings() {
    let a = hash_password("same password").unwrap();
    let b = hash_password("same password").unwrap();
    assert!(a.starts_with("$argon2id$"));
    assert_ne!(a, b);
    assert!(verify_password("same password", &b).unwrap());
}

#[test]
fn unreadable_hash_is_an_error() {
    assert!(matches!(verify_password("x", "not a hash"), Err(AuthError::InvalidHashFormat(_))));
}

#[test]
fn login_checks_the_stored_hash() {
    let user = User {
        id: 1,
        username: "admin".to_string(),
        password_hash: hash_password("correct horse").unwrap(),
        created_at: String::new(),
        updated_at: String::new(),
    };
    let same = User { password_hash: user.password_hash.clone(), ..user.clone() };
    assert_eq!(authenticate(same, "correct horse").unwrap().username, "admin");
    match authenticate(user.clone(), "battery staple") {
        Err(AuthError::InvalidPassword { username }) => assert_eq!(username, "admin"),
        _ => panic!("wrong password must fail"),
    }
    let broken = User { password_hash: "plain".to_string(), ..user };
    assert!(matches!(authenticate(broken, "x"), Err(AuthError::InvalidHashFormat(_))));
}

#[test]
fn new_password_rules() {
    assert!(password_long_enough("12345678"));
    assert!(!password_long_enough("1234567"));
    assert!(password_long_enough("çççç"));
    assert!(confirmation_matches("secret123", "secret123"));
    assert!(!confirmation_matches("secret123", "secret124"));
}

#[test]
fn key_is_wiped() {
    let mut key = "super-secret-key".to_string();
    zeroize_key(&mut key);
    assert!(key.is_empty());
}

#[test]
fn default_ports_are_the_twenty_one_amplifiers() {
    let seeds = default_ports();
    assert_eq!(seeds.len(), 21);
    let numbers: Vec<u16> = seeds.iter().map(|s| s.port).collect();
    assert_eq!(
        numbers,
        vec![17, 19, 53, 69, 111, 123, 137, 161, 389, 427, 520, 1900, 3283, 3702, 5353, 5683, 10001, 11211, 37810, 4145, 5678]
    );
    assert_eq!(seeds.iter().filter(|s| s.protocol == "tcp").count(), 2);
    assert_eq!(seeds[2].probe_type, "dns");
    assert!(seeds[2].payload.is_none());
    assert_eq!(seeds[9].name, "SLP");
    assert_eq!(seeds[9].payload.as_ref().unwrap().len(), 54);
    assert_eq!(seeds[10].name, "RIPv1");
    assert_eq!(seeds[10].probe_type, "ripv1");
    assert_eq!(seeds[18].payload, Some(vec![0xFF]));
    assert!(needs_seeding(0));
    assert!(!needs_seeding(21));
}

#[test]
fn prefix_rules() {
    assert_eq!(validate_new_prefix("192.168.0.0/24").ok(), Some(4));
    assert_eq!(validate_new_prefix("10.0.0.0/8").ok(), Some(4));
    assert_eq!(validate_new_prefix("2001:db8::/120").ok(), Some(6));
    match validate_new_prefix("2001:db8::/64") {
        Err(e @ PrefixError::Ipv6TooLarge { prefix_len: 64 }) => assert_eq!(
            e.message(),
            "IPv6 prefix /64 is too large (would scan 2^64 hosts). Maximum allowed is /112 (65536 hosts). Use a more specific prefix."
        ),
        _ => panic!("a /64 must be refused"),
    }
    match validate_new_prefix("2001:db8::/48") {
        Err(e) => assert!(e.message().contains("billions of")),
        Ok(_) => panic!("a /48 must be refused"),
    }
    match validate_new_prefix("garbage") {
        Err(e) => assert_eq!(e.message(), "Invalid CIDR prefix: 'garbage'"),
        Ok(_) => panic!("garbage must be refused"),
    }
    assert_eq!(prefix_ip_version("2001:db8::/32").ok(), Some(6));
    assert!(prefix_ip_version("1.2.3.4").is_err());
}

#[test]
fn repository_guards() {
    assert!(require_found(1, Record::Port, 7).is_ok());
    assert!(matches!(require_found(0, Record::Prefix, 7), Err(RepoError::NotFound { record: Record::Prefix, id: 7 })));
    assert!(matches!(check_user_deletable(1), Err(RepoError::LastAdminUser)));
    assert!(check_user_deletable(2).is_ok());
    assert!(matches!(require_user_updated(0, "bob"), Err(RepoError::UserNotFound(u)) if u == "bob"));
    assert!(has_users(1));
    assert!(!has_users(0));
}

#[test]
fn test_raise_limits_success() {
    let res = try_raise_fd_limit(10, FdLimitQuery::Current(FdLimits { soft: 1024, hard: 1048576 }));
    assert!(res.is_ok());
}

#[test]
fn fd_limit_decisions() {
    assert_eq!(try_raise_fd_limit(10, FdLimitQuery::Unsupported), Ok(FdLimitAction::Keep));
    assert_eq!(try_raise_fd_limit(10, FdLimitQuery::Failed), Err(FdLimitError::QueryFailed));
    assert_eq!(
        try_raise_fd_limit(4096, FdLimitQuery::Current(FdLimits { soft: 1024, hard: 1048576 })),
        Ok(FdLimitAction::Raise { needed: 4160, target: 4160 })
    );
    assert_eq!(
        try_raise_fd_limit(4096, FdLimitQuery::Current(FdLimits { soft: 1024, hard: 2048 })),
        Ok(FdLimitAction::Raise { needed: 4160, target: 2048 })
    );
    assert_eq!(
        try_raise_fd_limit(4096, FdLimitQuery::Current(FdLimits { soft: 8192, hard: 4096 })),
        Ok(FdLimitAction::WarnHardLimit { needed: 4160 })
    );
    assert_eq!(
        try_raise_fd_limit(100, FdLimitQuery::Current(FdLimits { soft: 1024, hard: 4096 })),
        Ok(FdLimitAction::Keep)
    );
    assert_eq!(FdLimitError::QueryFailed.message(), "Failed to retrieve file descriptor limits (getrlimit)");
}
