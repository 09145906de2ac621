use fssh::algorithms::{
    cipher_key_len, filter_algorithms, find_common_cipher, offered_ciphers, DEFAULT_CIPHERS,
};
use fssh::text::{contains, is_empty, is_space, join_names, same_text, split, trim};

fn some(text: &str) -> Option<String> {
    Some(text.to_string())
}

#[test]
fn the_first_name_of_the_client_that_the_server_has() {
    assert_eq!(find_common_cipher("a,b,c".to_string(), "c,b"), "b");
    assert_eq!(find_common_cipher("a,b,c".to_string(), "c"), "c");
    assert_eq!(find_common_cipher("a,b".to_string(), "ab,A"), "");
    assert_eq!(find_common_cipher("".to_string(), "a"), "");
    assert_eq!(find_common_cipher("x,,a".to_string(), "a,,b"), "");
    assert_eq!(
        find_common_cipher(DEFAULT_CIPHERS.to_string(), "aes128-gcm@openssh.com,aes256-gcm@openssh.com"),
        "aes256-gcm@openssh.com"
    );
}

#[test]
fn excluded_names_are_taken_out() {
    assert_eq!(filter_algorithms("a,b,c", &None), "a,b,c");
    assert_eq!(filter_algorithms("a,b,c", &some("b")), "a,c");
    assert_eq!(filter_algorithms("a,b,a,c", &some("c,a,x")), "b");
    assert_eq!(filter_algorithms("a,b", &some("")), "a,b");
    assert_eq!(filter_algorithms("a,,b", &some("")), "a,b");
    assert_eq!(filter_algorithms("a,b", &some("b,a")), "");
    assert_eq!(filter_algorithms("", &some("a")), "");
}

#[test]
fn exclusion_leaves_the_rest_in_order() {
    let all = "e,d,c,b,a";
    let left = filter_algorithms(all, &some("d,b"));
    let names: Vec<&str> = left.split(',').collect();
    assert_eq!(names, vec!["e", "c", "a"]);
}

#[test]
fn later_names_and_the_servers_order_do_not_matter() {
    assert_eq!(find_common_cipher("a,b".to_string(), "c,b"), "b");
    assert_eq!(find_common_cipher("a,b,c".to_string(), "c,b"), "b");
    assert_eq!(find_common_cipher("a,b,c".to_string(), "b,c,b"), "b");
}

#[test]
fn excluding_twice_is_excluding_both() {
    for (algs, one, two) in [("a,b,c", "a", "c"), ("a,b", "b,a", "x"), ("a,,b", "a,b", ""), ("a", "", "")] {
        let twice = filter_algorithms(&filter_algorithms(algs, &some(one)), &some(two));
        assert_eq!(twice, filter_algorithms(algs, &some(&format!("{},{}", one, two))));
    }
    assert_eq!(split("a,b,,c", ','), [split("a,b", ','), split(",c", ',')].concat());
}

#[test]
fn a_given_list_is_offered_as_it_is() {
    assert_eq!(offered_ciphers(&None, &None), DEFAULT_CIPHERS);
    assert_eq!(
        DEFAULT_CIPHERS,
        "chacha20-poly1305@openssh.com,aes256-gcm@openssh.com,aes128-gcm@openssh.com"
    );
    assert_eq!(
        offered_ciphers(&None, &some("chacha20-poly1305@openssh.com")),
        "aes256-gcm@openssh.com,aes128-gcm@openssh.com"
    );
    assert_eq!(offered_ciphers(&some("x,y"), &some("x")), "x,y");
}

#[test]
fn key_material_goes_by_the_name() {
    assert_eq!(cipher_key_len("chacha20-poly1305@openssh.com"), Some(64));
    assert_eq!(cipher_key_len("aes256-gcm@openssh.com"), Some(44));
    assert_eq!(cipher_key_len("aes128-gcm@openssh.com"), Some(28));
    assert_eq!(cipher_key_len("aes192-gcm@openssh.com"), None);
    assert_eq!(cipher_key_len("my-aes256-aes128"), Some(44));
    assert_eq!(cipher_key_len("aes128chacha20"), Some(64));
    assert_eq!(cipher_key_len(""), None);
}

#[test]
fn texts_are_split_and_joined() {
    assert_eq!(split("a,b,,c", ','), vec!["a", "b", "", "c"]);
    assert_eq!(split("", ','), vec![""]);
    assert_eq!(split(",", ','), vec!["", ""]);
    assert_eq!(split("\u{e9}@x", '@'), vec!["\u{e9}", "x"]);
    assert_eq!(join_names(&vec!["a", "", "b"]), "a,,b");
    assert_eq!(join_names(&vec![]), "");
    for text in ["", "a", "a,b", ",a,,b,"] {
        assert_eq!(join_names(&split(text, ',')), text);
    }
    for names in [vec!["a"], vec!["a", "b"], vec!["", ""]] {
        assert_eq!(split(&join_names(&names), ','), names);
    }
}

#[test]
fn texts_are_trimmed_and_searched() {
    assert_eq!(trim("  SSH-2.0-x \r\n"), "SSH-2.0-x");
    assert_eq!(trim("\u{3000}a b\u{85}"), "a b");
    assert_eq!(trim(" \t\n"), "");
    assert_eq!(trim("abc"), "abc");
    for c in ['\u{9}', '\u{d}', ' ', '\u{85}', '\u{a0}', '\u{1680}', '\u{2000}', '\u{200a}', '\u{2028}', '\u{2029}', '\u{202f}', '\u{205f}', '\u{3000}'] {
        assert!(is_space(c) && c.is_whitespace());
    }
    for c in ['a', '\u{8}', '\u{e}', '\u{200b}', '\u{feff}'] {
        assert!(!is_space(c) && !c.is_whitespace());
    }
    assert!(contains("abcabd", "abd") && contains("abc", "") && contains("abc", "abc"));
    assert!(!contains("abc", "abcd") && !contains("aaab", "ba"));
    assert!(same_text("a", "a") && !same_text("a", "b") && !same_text("a", "aa"));
    assert!(is_empty("") && !is_empty(" "));
}

#[test]
fn white_space_agrees_with_the_standard_library() {
    for n in 0..0x11_0000u32 {
        if let Some(c) = char::from_u32(n) {
            assert_eq!(is_space(c), c.is_whitespace());
        }
    }
}
