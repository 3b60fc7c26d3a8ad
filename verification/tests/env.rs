use vitro::cell::{allocate_ip, load_ip_pool, release_ip, save_ip_pool, IpPool};
use vitro::env::{env_dir, env_flake_dir, env_repo_dir};

#[test]
fn env_dir_path() {
    assert_eq!(env_dir("myapp-feat"), "/var/lib/vitro/envs/myapp-feat");
}

#[test]
fn env_repo_dir_path() {
    assert_eq!(env_repo_dir("myapp-feat"), "/var/lib/vitro/envs/myapp-feat/repo");
}

#[test]
fn env_flake_dir_path() {
    assert_eq!(env_flake_dir("myapp-feat"), "/var/lib/vitro/envs/myapp-feat/flake");
}

fn pool(pairs: &[(&str, &str)]) -> IpPool {
    IpPool::of(pairs.iter().map(|(a, b)| (a.to_string(), b.to_string())).collect())
}

#[test]
fn ip_pool_roundtrip() {
    let pool = pool(&[("env-a", "192.168.83.11"), ("env-b", "192.168.83.12")]);
    let json = save_ip_pool(&pool);
    let loaded = load_ip_pool(Some(&json));
    let mut left = pool.pairs().clone();
    let mut right = loaded.pairs().clone();
    left.sort();
    right.sort();
    assert_eq!(left, right);
}

#[test]
fn ip_pool_first_free() {
    let mut pool = pool(&[("env-a", "192.168.83.11"), ("env-b", "192.168.83.12")]);
    assert_eq!(allocate_ip(&mut pool, "env-c").ok(), Some("192.168.83.13".to_string()));
}

#[test]
fn ip_pool_range() {
    // the range is .11 to .254 (244 addresses)
    let mut pool = pool(&[]);
    let mut count = 0;
    for i in 11..=254u16 {
        let ip = allocate_ip(&mut pool, &format!("env-{i}")).unwrap();
        assert_eq!(ip, format!("192.168.83.{i}"));
        count += 1;
    }
    assert_eq!(count, 244);
    assert!(allocate_ip(&mut pool, "one-more").is_err());
    release_ip(&mut pool, "env-100");
    assert_eq!(allocate_ip(&mut pool, "one-more").unwrap(), "192.168.83.100");
}
