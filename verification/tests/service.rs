use shortener::errors::{CreateError, ResolveError, StoreError};
use shortener::service::{CreateOpts, RedirectService, TokenData};
use shortener::store::RedirectStore;
use shortener::token::{generate_token, TOKEN_LEN};

const ALPHABET: &str = "abcdefghijklmnopqrstuvwxyz0123456789";

fn service(secret: &str) -> RedirectService {
    RedirectService::new(TokenData(secret.to_string()), RedirectStore::new())
}

fn opts(secret: &str, url: &str, path: Option<&str>) -> CreateOpts {
    CreateOpts {
        token: secret.to_string(),
        url: url.to_string(),
        path: path.map(|p| p.to_string()),
    }
}

#[test]
fn generated_token_shape() {
    let t = generate_token();
    assert_eq!(t.chars().count(), TOKEN_LEN);
    assert!(t.chars().all(|c| ALPHABET.contains(c)));
}

#[test]
fn create_without_path_generates_and_resolves() {
    let mut svc = service("s3cret");
    let r = svc.create(opts("s3cret", "https://example.com", None));
    let tok = r.expect("creation against an empty store cannot collide");
    assert_eq!(tok.chars().count(), TOKEN_LEN);
    assert!(tok.chars().all(|c| ALPHABET.contains(c)));
    assert_eq!(svc.resolve(&tok), Ok("https://example.com".to_string()));
}

#[test]
fn create_wrong_secret_unauthorized() {
    let mut svc = service("s3cret");
    let tok = svc
        .create(opts("s3cret", "https://example.com", Some("docs")))
        .unwrap();
    assert_eq!(tok, "docs");

    let r = svc.create(opts("guess", "https://evil.example", Some("mine")));
    assert_eq!(r, Err(CreateError::Unauthorized));
    // The store is untouched: the old mapping stands, the new one was never made.
    assert_eq!(
        svc.resolve(&"docs".to_string()),
        Ok("https://example.com".to_string())
    );
    assert_eq!(
        svc.resolve(&"mine".to_string()),
        Err(ResolveError::NotFound)
    );
}

#[test]
fn create_taken_path_conflict_keeps_prior_mapping() {
    let mut svc = service("s3cret");
    assert_eq!(
        svc.create(opts("s3cret", "https://one.example", Some("docs"))),
        Ok("docs".to_string())
    );
    assert_eq!(
        svc.create(opts("s3cret", "https://two.example", Some("docs"))),
        Err(CreateError::PathTaken)
    );
    assert_eq!(
        svc.resolve(&"docs".to_string()),
        Ok("https://one.example".to_string())
    );
}

#[test]
fn create_lowercases_requested_path() {
    let mut svc = service("s3cret");
    assert_eq!(
        svc.create(opts("s3cret", "https://example.com", Some("DoCs"))),
        Ok("docs".to_string())
    );
    assert_eq!(
        svc.resolve(&"docs".to_string()),
        Ok("https://example.com".to_string())
    );
    // Lookup stays case-sensitive against the stored, lowercased token.
    assert_eq!(
        svc.resolve(&"DoCs".to_string()),
        Err(ResolveError::NotFound)
    );
}

#[test]
fn create_empty_path_falls_back_to_generation() {
    let mut svc = service("s3cret");
    let tok = svc
        .create(opts("s3cret", "https://example.com", Some("")))
        .unwrap();
    assert_eq!(tok.chars().count(), TOKEN_LEN);
    assert!(tok.chars().all(|c| ALPHABET.contains(c)));
}

#[test]
fn resolve_unknown_not_found() {
    let svc = service("s3cret");
    assert_eq!(
        svc.resolve(&"zzzzzz".to_string()),
        Err(ResolveError::NotFound)
    );
}

#[test]
fn same_path_race_exactly_one_succeeds() {
    let mut svc = service("s3cret");
    let urls = [
        "https://a.example",
        "https://b.example",
        "https://c.example",
        "https://d.example",
        "https://e.example",
    ];
    let mut ok = 0;
    let mut taken = 0;
    for url in urls {
        match svc.create(opts("s3cret", url, Some("hot"))) {
            Ok(tok) => {
                assert_eq!(tok, "hot");
                ok += 1;
            }
            Err(CreateError::PathTaken) => taken += 1,
            Err(e) => panic!("unexpected error: {:?}", e),
        }
    }
    assert_eq!(ok, 1);
    assert_eq!(taken, urls.len() - 1);
    assert_eq!(
        svc.resolve(&"hot".to_string()),
        Ok("https://a.example".to_string())
    );
}

#[test]
fn store_insert_conflict_is_signalled() {
    let mut store = RedirectStore::new();
    assert_eq!(
        store.insert("abc".to_string(), "https://one.example".to_string()),
        Ok(())
    );
    assert_eq!(
        store.insert("abc".to_string(), "https://two.example".to_string()),
        Err(StoreError::Conflict)
    );
    assert_eq!(
        store.lookup(&"abc".to_string()),
        Ok("https://one.example".to_string())
    );
}
