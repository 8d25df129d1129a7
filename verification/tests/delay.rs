use std::time::Duration;

use feed_parrot::Delay;

#[test]
fn test_parse_delay_ok() {
    let d: Delay = "10s".parse().unwrap();
    assert_eq!(d, Delay::from_secs(10));
    assert_eq!(d.duration(), Duration::from_secs(10));

    let d: Delay = "10m".parse().unwrap();
    assert_eq!(d, Delay::from_secs(10 * 60));
    assert_eq!(d.duration(), Duration::from_secs(10 * 60));
}

#[test]
fn test_parse_delay_err() {
    let d = "10".parse::<Delay>().unwrap_err();
    assert_eq!(d.0, "delay must end with 's' or 'm'");

    let d = "10h".parse::<Delay>().unwrap_err();
    assert_eq!(d.0, "delay must end with 's' or 'm'");

    let d = "-10s".parse::<Delay>().unwrap_err();
    assert_eq!(d.0, "-10s is not a valid delay");

    let d = "10ss".parse::<Delay>().unwrap_err();
    assert_eq!(d.0, "10ss is not a valid delay");

    let d = "1000000s".parse::<Delay>().unwrap_err();
    assert_eq!(d.0, "1000000s is not a valid delay");

    let d = "2000m".parse::<Delay>().unwrap_err();
    assert_eq!(d.0, "2000m is too big");
}

#[test]
fn parse_delay_edge_cases() {
    assert_eq!(Delay::parse("").unwrap_err().0, "delay must end with 's' or 'm'");
    assert_eq!(Delay::parse("s").unwrap_err().0, "s is not a valid delay");
    assert_eq!(Delay::parse("+5s").unwrap().as_secs(), 5);
    assert_eq!(Delay::parse("+s").unwrap_err().0, "+s is not a valid delay");
    assert_eq!(Delay::parse("65535s").unwrap().as_secs(), 65535);
    assert_eq!(Delay::parse("65536s").unwrap_err().0, "65536s is not a valid delay");
    assert_eq!(Delay::parse("1092m").unwrap().as_secs(), 65520);
    assert_eq!(Delay::parse("1093m").unwrap_err().0, "1093m is too big");
    assert_eq!(Delay::parse("0m").unwrap().as_secs(), 0);
    assert_eq!(Delay::parse("007s").unwrap().as_secs(), 7);
    assert_eq!(Delay::parse("1 s").unwrap_err().0, "1 s is not a valid delay");
    assert_eq!(Delay::parse("é5s").unwrap_err().0, "é5s is not a valid delay");
}

#[test]
fn delay_from_secs_round_trip() {
    assert_eq!(Delay::from_secs(60).as_secs(), 60);
    assert_eq!(Delay::from_secs(60).duration(), Duration::from_secs(60));
}

#[test]
fn from_secs_is_the_parsed_text() {
    for n in [0u16, 1, 9, 10, 59, 60, 61, 600, 3600, 65520, 65535] {
        assert_eq!(Delay::from_secs(n), format!("{n}s").parse::<Delay>().unwrap());
        if n % 60 == 0 {
            assert_eq!(Delay::from_secs(n), format!("{}m", n / 60).parse::<Delay>().unwrap());
        }
    }
    assert_eq!(Delay::from_secs(60), "1m".parse::<Delay>().unwrap());
}
