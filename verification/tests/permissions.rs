use ac::permissions::{Permission, PermissionError};

#[test]
fn test_permission_from_symbolic() {
    let cases = vec![
        ("drwxrwxr-x", "775"),
        ("-rw-r-----", "640"),
        ("drwxr--r--", "744"),
        ("--w-r-----", "240"),
        ("----------", "000"),
        ("-----", ""),
    ];
    for (input, want) in cases {
        match Permission::from_symbolic(input.to_string()) {
            Ok(perm) => {
                assert_eq!(want, perm.to_octal());
                assert_eq!(input, perm.to_symbolic());
            }
            Err(e) => {
                assert_eq!(e, PermissionError::InvalidSymbolic(input.to_string()));
            }
        }
    }
}

#[test]
fn test_permission_from_octal() {
    let cases = vec![
        ("775", "-rwxrwxr-x"),
        ("640", "-rw-r-----"),
        ("240", "--w-r-----"),
        ("000", "----------"),
        ("778", ""),
    ];
    for (input, want) in cases {
        let i: u16 = input.parse().unwrap();
        match Permission::from_octal(i) {
            Ok(perm) => {
                assert_eq!(input, perm.to_octal());
                assert_eq!(want, perm.to_symbolic());
            }
            Err(e) => {
                assert_eq!(e, PermissionError::InvalidOctal(input.to_string()));
            }
        }
    }
}

#[test]
fn digit_round_trip() {
    let table = ["---", "--x", "-w-", "-wx", "r--", "r-x", "rw-", "rwx"];
    for (d, sym) in table.iter().enumerate() {
        assert_eq!(Permission::convert_rwx(sym), d as u8);
    }
}

#[test]
fn convert_rwx_counts_any_letter() {
    assert_eq!(Permission::convert_rwx("rwz"), 7);
    assert_eq!(Permission::convert_rwx("x--"), 4);
    assert_eq!(Permission::convert_rwx("-q-"), 2);
}

#[test]
fn octal_round_trip_all_digits() {
    for owner in 0..8u16 {
        for group in 0..8u16 {
            for other in 0..8u16 {
                let n = 100 * owner + 10 * group + other;
                let p = Permission::from_octal(n).unwrap();
                assert_eq!(p.to_octal(), format!("{:03}", n));
            }
        }
    }
}

#[test]
fn symbolic_round_trip_canonical() {
    let table = ["---", "--x", "-w-", "-wx", "r--", "r-x", "rw-", "rwx"];
    for first in ["-", "d"] {
        for o in table {
            for g in table {
                for t in table {
                    let s = format!("{}{}{}{}", first, o, g, t);
                    let p = Permission::from_symbolic(s.clone()).unwrap();
                    assert_eq!(p.to_symbolic(), s);
                }
            }
        }
    }
}

#[test]
fn length_boundary() {
    let wrong_lengths = ["", "-", "rwx", "-rw-r----", "-rw-r------", "rwxrwxrwxrwx"];
    for s in wrong_lengths {
        match Permission::from_symbolic(s.to_string()) {
            Err(PermissionError::InvalidSymbolic(t)) => assert_eq!(t, s),
            _ => panic!("a string of length other than 10 must be refused"),
        }
    }
}

#[test]
fn numeric_boundary() {
    assert!(Permission::from_octal(777).is_ok());
    match Permission::from_octal(778) {
        Err(PermissionError::InvalidOctal(s)) => assert_eq!(s, "778"),
        _ => panic!("778 must be refused"),
    }
}

#[test]
fn octal_digit_out_of_range() {
    for n in [8u16, 80, 98, 708, 770 + 9] {
        match Permission::from_octal(n) {
            Err(PermissionError::InvalidOctal(s)) => assert_eq!(s, n.to_string()),
            _ => panic!("a value with a decimal digit over 7 must be refused"),
        }
    }
}

#[test]
fn concrete_scenarios() {
    let p = Permission::from_symbolic("drwxrwxr-x".to_string()).unwrap();
    assert_eq!(p.to_octal(), "775");
    let p = Permission::from_symbolic("-rw-r-----".to_string()).unwrap();
    assert_eq!(p.to_octal(), "640");
    let p = Permission::from_octal(775).unwrap();
    assert_eq!(p.to_symbolic(), "-rwxrwxr-x");
    match Permission::from_octal(778) {
        Err(PermissionError::InvalidOctal(s)) => assert_eq!(s, "778"),
        _ => panic!("778 must be refused"),
    }
    match Permission::from_symbolic("-----".to_string()) {
        Err(PermissionError::InvalidSymbolic(s)) => assert_eq!(s, "-----"),
        _ => panic!("a 5-character string must be refused"),
    }
}

#[test]
fn parse_dispatches_numeric_and_symbolic() {
    let p = Permission::parse("640".to_string()).unwrap();
    assert_eq!(p.to_symbolic(), "-rw-r-----");
    let p = Permission::parse("-rw-r-----".to_string()).unwrap();
    assert_eq!(p.to_octal(), "640");
    let p = Permission::parse("+775".to_string()).unwrap();
    assert_eq!(p.to_octal(), "775");
    let p = Permission::parse("drwxrwxr-x".to_string()).unwrap();
    assert_eq!(p.to_octal(), "775");
    match Permission::parse("778".to_string()) {
        Err(PermissionError::InvalidOctal(s)) => assert_eq!(s, "778"),
        _ => panic!("778 must be refused on the octal path"),
    }
    match Permission::parse("70000".to_string()) {
        Err(PermissionError::InvalidSymbolic(s)) => assert_eq!(s, "70000"),
        _ => panic!("a number over 65535 must fall back to the symbolic path"),
    }
}
