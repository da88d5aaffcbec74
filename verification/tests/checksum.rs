use policy_monitor::checksum::checksum;
use policy_monitor::checksum::hex_string;
use policy_monitor::models::PolicySnapshot;

#[test]
fn checksum_of_known_texts() {
    assert_eq!(
        PolicySnapshot::calculate_checksum(""),
        "e3b0c44298fc1c149afbf4c8996fb92427ae41e4649b934ca495991b7852b855"
    );
    assert_eq!(
        PolicySnapshot::calculate_checksum("hello"),
        "2cf24dba5fb0a30e26e83b2ac5b9e29e1b161e5c1fa7425e73043362938b9824"
    );
    assert_eq!(
        checksum("abc"),
        "ba7816bf8f01cfea414140de5dae2223b00361a396177a9cb410ff61f20015ad"
    );
}

#[test]
fn checksum_is_deterministic() {
    let text = "Terms of service, version 3";
    assert_eq!(checksum(text), checksum(text));
    assert_eq!(checksum(text), checksum(&text.to_string()));
    assert_ne!(checksum(text), checksum("Terms of service, version 4"));
    assert_ne!(checksum("a"), checksum("a "));
    assert_eq!(checksum(text).len(), 64);
}

#[test]
fn hex_string_is_lower_case_with_two_digits_a_byte() {
    assert_eq!(hex_string(&[0xde, 0xad, 0xbe, 0xef]), "deadbeef");
    assert_eq!(hex_string(&[0x00, 0x01, 0x0a, 0xf0, 0xff]), "00010af0ff");
    assert_eq!(hex_string(&[]), "");
    assert_eq!(hex_string(b"Hello world!"), "48656c6c6f20776f726c6421");
}

#[test]
fn word_and_char_counts() {
    assert_eq!(PolicySnapshot::calculate_word_count(""), 0);
    assert_eq!(PolicySnapshot::calculate_word_count("   "), 0);
    assert_eq!(PolicySnapshot::calculate_word_count("one"), 1);
    assert_eq!(PolicySnapshot::calculate_word_count("  one  two\nthree\t"), 3);
    assert_eq!(PolicySnapshot::calculate_word_count("one\u{a0}two\u{3000}three"), 3);
    assert_eq!(PolicySnapshot::calculate_char_count(""), 0);
    assert_eq!(PolicySnapshot::calculate_char_count("abc"), 3);
    assert_eq!(PolicySnapshot::calculate_char_count("é ü"), 3);
}

#[test]
fn checksum_takes_the_text_as_it_is() {
    let plain = checksum("abc");
    let spaced = checksum("abc ");
    let upper = checksum("ABC");
    assert_ne!(plain, spaced);
    assert_ne!(plain, upper);
    assert_ne!(spaced, upper);
    assert_ne!(checksum(" abc"), plain);
    assert_ne!(checksum("abc\n"), plain);
}
