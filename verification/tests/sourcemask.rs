use irc_ingress::sourcemask::normalize_sourcemask;

#[test]
fn test_normalize_sourcemask() {
    assert_eq!("ax*!*bob*@*.com", &normalize_sourcemask("ax*!*bob*@*.com"));
    assert_eq!("ax*!*@*.com", &normalize_sourcemask("ax*@*.com"));
    assert_eq!("ax*!bo*@*", &normalize_sourcemask("ax*!bo*"));
    assert_eq!("*ax!*@*.com", &normalize_sourcemask("*ax@*.com"));
    assert_eq!("u*xn!b*o@*", &normalize_sourcemask("u*xn!b*o"));
    assert_eq!("*!*@*", &normalize_sourcemask("*"));
    assert_eq!("bob.com!*@*", &normalize_sourcemask("bob.com"));
}

#[test]
fn test_normalize_sourcemask_canonical_identity() {
    assert_eq!("bob!bobby@host.com", &normalize_sourcemask("bob!bobby@host.com"));
    assert_eq!("nick!user@host", &normalize_sourcemask("nick!user@host"));
}
