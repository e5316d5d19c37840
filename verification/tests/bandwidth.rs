use hydra_tnc::Bandwidth;

#[test]
fn names_are_commands() {
    assert_eq!(Bandwidth::BW500.to_string(), "BW500");
    assert_eq!(Bandwidth::BW2300.to_string(), "BW2300");
    assert_eq!(Bandwidth::BW2750.to_string(), "BW2750");
}

#[test]
fn all_bandwidths_are_offered() {
    assert_eq!(Bandwidth::iter(), vec![Bandwidth::BW500, Bandwidth::BW2300, Bandwidth::BW2750]);
}

#[test]
fn bandwidths_are_read_back() {
    for b in Bandwidth::iter() {
        let name = b.to_string();
        assert_eq!(Bandwidth::parse(&name), Some(b));
        assert_eq!(Bandwidth::parse(&name[2..]), Some(b));
    }
}

#[test]
fn other_bandwidths_are_unknown() {
    for s in ["", "BW", "bw500", "501", "500 ", " 500", "BW5000", "BW500\n", "2300Hz"] {
        assert_eq!(Bandwidth::parse(s), None);
    }
}
