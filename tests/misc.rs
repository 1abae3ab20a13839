use guild_core::convert::{converti, convertu};
use guild_core::oauth::{RevokeTokenRequest, TokenRequest};
use guild_core::role_limit::{roles_to_remove, BindRoles, BindRolesOrs};

#[test]
fn convert_round_trip() {
    assert_eq!(converti(u64::MAX), -1);
    assert_eq!(converti(5), 5);
    assert_eq!(converti(1 << 63), i64::MIN);
    assert_eq!(convertu(-1), u64::MAX);
    assert_eq!(convertu(i64::MIN), 1 << 63);
    assert_eq!(convertu(converti(123_456_789_012_345_678)), 123_456_789_012_345_678);
}

fn formula() -> BindRoles {
    // (1 & !2) | 3
    BindRoles {
        bind: vec![
            BindRolesOrs { normal: vec![1], negated: vec![2] },
            BindRolesOrs { normal: vec![3], negated: vec![] },
        ],
    }
}

#[test]
fn role_formula_evaluation() {
    let f = formula();
    assert!(f.allows(&vec![1]));
    assert!(!f.allows(&vec![1, 2]));
    assert!(f.allows(&vec![1, 2, 3]));
    assert!(!f.allows(&vec![]));
    assert!(!BindRoles { bind: vec![] }.allows(&vec![1]));
}

#[test]
fn roles_removed_when_formula_fails() {
    let limits = vec![(50, formula()), (60, BindRoles { bind: vec![BindRolesOrs { normal: vec![], negated: vec![] }] })];
    assert_eq!(roles_to_remove(&vec![50, 2, 1, 60], &limits), vec![50]);
    assert_eq!(roles_to_remove(&vec![50, 1, 60], &limits), Vec::<i64>::new());
    assert_eq!(roles_to_remove(&vec![2], &limits), Vec::<i64>::new());
}

#[test]
fn token_requests() {
    match TokenRequest::authorization_code("abc", "https://x") {
        TokenRequest::AuthorizationCode { code, redirect_uri } => {
            assert_eq!(code, "abc");
            assert_eq!(redirect_uri, "https://x");
        }
        _ => panic!("wrong kind"),
    }
    assert!(matches!(TokenRequest::refresh_token("r"), TokenRequest::RefreshToken { refresh_token: "r" }));
    let r = RevokeTokenRequest::ambiguous_token("t");
    assert_eq!(r.token, "t");
    assert!(r.token_type.is_none());
    assert!(RevokeTokenRequest::refresh_token("t").token_type.is_some());
    assert!(RevokeTokenRequest::authorization_code("t").token_type.is_some());
}
