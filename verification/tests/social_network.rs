use feed_parrot::social_network::{process_tag, process_tags, ucfirst};

#[test]
fn test_process_tag() {
    assert_eq!(process_tag("dog-cow"), "DogCow".to_string());
    assert_eq!(process_tag("dog_cow"), "DogCow".to_string());
    assert_eq!(process_tag("dog cow"), "DogCow".to_string());
    assert_eq!(process_tag("dog\u{00A0}cow"), "DogCow".to_string());
    assert_eq!(process_tag("dog/cow"), "DogCow".to_string());
    assert_eq!(process_tag("🦜🦜🦜"), "🦜🦜🦜".to_string());
    assert_eq!(process_tag("東京カメラ部"), "東京カメラ部".to_string());
    assert_eq!(process_tag("dog--cow"), "DogCow".to_string());
    assert_eq!(process_tag("-dog-cow-"), "DogCow".to_string());
    assert_eq!(process_tag("MacOS X"), "MacOSX".to_string());
    assert_eq!(process_tag("system7"), "System7".to_string());
    assert_eq!(process_tag("introdução"), "Introdução".to_string());
    assert_eq!(process_tag("Côtes-d'Armor"), "CôtesDArmor".to_string());
    assert_eq!(process_tag("écalgrain bay"), "ÉcalgrainBay".to_string());
    assert_eq!(process_tag("καῦνος"), "Καῦνος".to_string());
    assert_eq!(process_tag("العربية"), "العربية".to_string());
}

#[test]
fn test_process_tag_special_cases() {
    assert_eq!(process_tag("openbsd"), "OpenBSD".to_string());
    assert_eq!(process_tag("node-js"), "NodeJS".to_string());
    assert_eq!(process_tag("macos"), "macOS".to_string());
}

#[test]
fn process_tag_edges() {
    assert_eq!(process_tag(""), "".to_string());
    assert_eq!(process_tag("---"), "".to_string());
    assert_eq!(process_tag("ß"), "SS".to_string());
    assert_eq!(process_tag("a\u{3000}b\tc"), "ABC".to_string());
    assert_eq!(process_tag("zfs"), "ZFS".to_string());
    assert_eq!(process_tag("ZFS"), "ZFS".to_string());
    assert_eq!(ucfirst("hello world"), "Hello world".to_string());
    assert_eq!(ucfirst(""), "".to_string());
}

#[test]
fn process_tags_maps_each() {
    let tags = vec!["hello-world".to_string(), "rss".to_string(), "x".to_string()];
    assert_eq!(process_tags(&tags), vec!["HelloWorld".to_string(), "RSS".to_string(), "X".to_string()]);
    assert_eq!(process_tags(&[]), Vec::<String>::new());
}
