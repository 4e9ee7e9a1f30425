use ac::git_remote::{Remote, UrlScheme};

#[test]
fn test_parse() {
    let input = "git@github.com:andschneider/ac.git";
    let output = Remote::new(input.to_string()).unwrap();
    assert_eq!(output.owner.unwrap(), "andschneider");
    assert_eq!(output.scheme, UrlScheme::Ssh);
    assert_eq!(output.name, "ac");
}

#[test]
fn flip_between_ssh_and_https() {
    let ssh = Remote::new("git@github.com:andschneider/ac.git".to_string()).unwrap();
    assert_eq!(ssh.to_https(), "https://github.com/andschneider/ac.git");
    assert_eq!(ssh.to_ssh(), "git@github.com:andschneider/ac.git");
    assert_eq!(ssh.flip_url(), "https://github.com/andschneider/ac.git");

    let https = Remote::new("https://github.com/andschneider/ac.git".to_string()).unwrap();
    assert_eq!(https.scheme, UrlScheme::Https);
    assert_eq!(https.flip_url(), "git@github.com:andschneider/ac.git");
}

#[test]
fn raw_text_is_kept() {
    let input = "https://github.com/andschneider/ac.git";
    let remote = Remote::new(input.to_string()).unwrap();
    assert_eq!(remote.raw, input);
}

#[test]
fn unusual_url_text_is_refused() {
    assert!(Remote::new("https://dev.azure.com/org/project/_git/repo".to_string()).is_none());
    assert!(Remote::new("https://DEV.Azure.COM/org/project/_git/repo".to_string()).is_none());
    assert!(Remote::new("https://github.com/a%20b/c.git".to_string()).is_none());
    assert!(Remote::new("ssh:a".to_string()).is_none());
    assert!(Remote::new(" ssh:a".to_string()).is_none());
    assert!(Remote::new("git@github.com:owner/r\u{00e9}po.git".to_string()).is_none());
    assert!(Remote::new("ssh://a/.".to_string()).is_none());
    assert!(Remote::new("ssh://a/x/..".to_string()).is_none());
    assert!(Remote::new("ssh://a/?".to_string()).is_none());
    assert!(Remote::new("ssh://a/#".to_string()).is_none());
    assert!(Remote::new("user@host:.".to_string()).is_none());
    assert!(Remote::new("user@host:?".to_string()).is_none());
}

#[test]
fn azure_named_repos_still_parse() {
    let remote = Remote::new("git@github.com:foo/azure-sdk.git".to_string()).unwrap();
    assert_eq!(remote.owner.unwrap(), "foo");
    assert_eq!(remote.name, "azure-sdk");
    assert_eq!(remote.scheme, UrlScheme::Ssh);
}
