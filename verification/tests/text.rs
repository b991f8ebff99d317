use vinylla::{blank_art, max_len, process_search_string, Record, Track};

#[test]
fn max_len_keeps_short_strings() {
    let mut s = String::from("hello");
    max_len(&mut s, 10);
    assert_eq!(s, "hello");
}

#[test]
fn max_len_truncates_with_ellipsis() {
    let mut s = String::from("abcdefghij");
    max_len(&mut s, 8);
    assert_eq!(s, "abcde...");
    assert_eq!(s.len(), 8);
}

#[test]
fn max_len_returns_the_string_for_chaining() {
    let mut s = String::from("a long enough string");
    let r = max_len(&mut s, 9);
    assert_eq!(r.as_str(), "a long...");
}

#[test]
fn search_string_capitalizes_and_joins() {
    let s = String::from("stan getz / joao gilberto");
    assert_eq!(process_search_string(s), "Stan+Getz+Joao+Gilberto");
}

#[test]
fn search_string_trims_and_keeps_empty_words() {
    assert_eq!(process_search_string(String::from("  hello world \n")), "Hello+World");
    assert_eq!(process_search_string(String::from("a  b")), "A++B");
    assert_eq!(process_search_string(String::from("")), "");
    assert_eq!(process_search_string(String::from("x - y")), "X+Y");
}

#[test]
fn record_key_is_first_artist_and_title() {
    let record = Record {
        title: String::from("Getz/Gilberto"),
        artists: vec![String::from("Stan Getz"), String::from("Joao Gilberto")],
        year: 1964,
        genre: vec![String::from("Jazz")],
        style: vec![String::from("Bossa Nova")],
        country: String::from("US"),
        format: String::from("Vinyl: LP"),
        image: blank_art(45, 20),
        tracklist: vec![Track {
            title: String::from("The Girl from Ipanema"),
            duration: String::from("5:22"),
            position: String::from("A1"),
        }],
    };
    assert_eq!(
        record.key(),
        (String::from("Stan Getz"), String::from("Getz/Gilberto"))
    );
}
