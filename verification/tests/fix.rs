use strictfix::bytes::{append_bytes, append_decimal};
use strictfix::finding::{check_strict, StrictResult};
use strictfix::rewrite::{exec_fix, replace_first_bytes, replacement_for, rewrite_lines};

#[test]
fn decimal_digits() {
    let mut out: Vec<u8> = Vec::new();
    append_decimal(&mut out, 0);
    out.push(b' ');
    append_decimal(&mut out, 7);
    out.push(b' ');
    append_decimal(&mut out, 10);
    out.push(b' ');
    append_decimal(&mut out, 12345);
    out.push(b' ');
    append_decimal(&mut out, u64::MAX);
    assert_eq!(out, format!("0 7 10 12345 {}", u64::MAX).into_bytes());
}

#[test]
fn append_keeps_what_was_there() {
    let mut out: Vec<u8> = b"ab".to_vec();
    append_bytes(&mut out, b"cd");
    append_bytes(&mut out, b"");
    assert_eq!(out, b"abcd".to_vec());
}

#[test]
fn key_joins_the_four_parts() {
    let f = StrictResult::new("a.rs", 1, 9, "let x = a.unwrap();");
    assert_eq!(f.key_bytes(), b"a.rs_1_9_let x = a.unwrap();".to_vec());
}

#[test]
fn identifier_is_the_digest_of_the_key() {
    let f = StrictResult::new("a.rs", 1, 9, "let x = a.unwrap();");
    assert_eq!(f.gen_md5hash(), "2d6d09ac2fee3d9d1d0a67cff7742e84");
    let g = StrictResult::new("", 0, 0, "");
    assert_eq!(g.gen_md5hash(), "402a9945f96da49f4ccc3f7da2f3e92e");
}

#[test]
fn identifier_is_the_same_for_the_same_parts() {
    let f = StrictResult::new("a.rs", 1, 9, "let x = a.unwrap();");
    let g = StrictResult::new("a.rs", 1, 9, "let x = a.unwrap();");
    assert_eq!(f.gen_md5hash(), g.gen_md5hash());
    assert_eq!(f.gen_md5hash(), f.gen_md5hash());
    assert_eq!(f.gen_md5hash().len(), 32);
}

#[test]
fn identifier_changes_with_each_part() {
    let base = StrictResult::new("a.rs", 1, 9, "let x = a.unwrap();").gen_md5hash();
    assert_ne!(StrictResult::new("b.rs", 1, 9, "let x = a.unwrap();").gen_md5hash(), base);
    assert_eq!(
        StrictResult::new("a.rs", 2, 9, "let x = a.unwrap();").gen_md5hash(),
        "71b614163dd7b0f1a39ccb4f054ab58f"
    );
    assert_ne!(StrictResult::new("a.rs", 1, 8, "let x = a.unwrap();").gen_md5hash(), base);
    assert_ne!(StrictResult::new("a.rs", 1, 9, "let y = a.unwrap();").gen_md5hash(), base);
}

#[test]
fn replacement_carries_the_identifier() {
    assert_eq!(replacement_for("abc123"), b".expect(\"error-id:abc123\")".to_vec());
    assert_eq!(replacement_for(""), b".expect(\"error-id:\")".to_vec());
}

#[test]
fn replace_first_leaves_later_occurrences() {
    assert_eq!(replace_first_bytes(b"a--b--c", b"--", b"+"), b"a+b--c".to_vec());
    assert_eq!(replace_first_bytes(b"abc", b"x", b"y"), b"abc".to_vec());
    assert_eq!(replace_first_bytes(b"abc", b"abc", b""), b"".to_vec());
    assert_eq!(replace_first_bytes(b"abc", b"c", b"cd"), b"abcd".to_vec());
    assert_eq!(replace_first_bytes(b"abc", b"", b"-"), b"-abc".to_vec());
}

#[test]
fn fix_rewrites_the_found_call() {
    let lines: Vec<String> = vec!["let x = a.unwrap();".to_string()];
    let f = check_strict("a.rs", 1, "let x = a.unwrap();").expect("a finding");
    let out = exec_fix(&f, &lines);
    assert_eq!(
        out,
        vec![b"let x = a.expect(\"error-id:2d6d09ac2fee3d9d1d0a67cff7742e84\");".to_vec()]
    );
}

#[test]
fn fix_keeps_line_count_and_other_lines() {
    let lines: Vec<String> = vec![
        "a.unwrap();\n".to_string(),
        "\n".to_string(),
        "let x = a.unwrap();\r\n".to_string(),
        "b.unwrap()".to_string(),
    ];
    let f = StrictResult::new("a.rs", 3, 9, "let x = a.unwrap();");
    let id = f.gen_md5hash();
    let out = exec_fix(&f, &lines);
    assert_eq!(out.len(), 4);
    assert_eq!(out[0], b"a.unwrap();\n".to_vec());
    assert_eq!(out[1], b"\n".to_vec());
    assert_eq!(out[2], format!("let x = a.expect(\"error-id:{}\");\r\n", id).into_bytes());
    assert_eq!(out[3], b"b.unwrap()".to_vec());
}

#[test]
fn fix_changes_only_the_first_call_of_the_line() {
    let lines: Vec<String> = vec!["a.unwrap().b.unwrap()\n".to_string()];
    let out = rewrite_lines(&lines, 1, "ff");
    assert_eq!(out, vec![b"a.expect(\"error-id:ff\").b.unwrap()\n".to_vec()]);
}

#[test]
fn fix_of_a_line_that_is_not_there_changes_nothing() {
    let lines: Vec<String> = vec!["a.unwrap()\n".to_string(), "b.unwrap()\n".to_string()];
    assert_eq!(
        rewrite_lines(&lines, 0, "ff"),
        vec![b"a.unwrap()\n".to_vec(), b"b.unwrap()\n".to_vec()]
    );
    assert_eq!(
        rewrite_lines(&lines, 3, "ff"),
        vec![b"a.unwrap()\n".to_vec(), b"b.unwrap()\n".to_vec()]
    );
}

#[test]
fn fix_of_a_line_without_the_call_changes_nothing() {
    let lines: Vec<String> = vec!["let x = 1;\n".to_string()];
    assert_eq!(rewrite_lines(&lines, 1, "ff"), vec![b"let x = 1;\n".to_vec()]);
}
