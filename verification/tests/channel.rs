use chrome_for_testing::api::channel::Channel;

#[test]
fn display_impl_formats_channels_as_expected() {
    assert_eq!(Channel::Stable.to_string(), "Stable");
    assert_eq!(Channel::Beta.to_string(), "Beta");
    assert_eq!(Channel::Dev.to_string(), "Dev");
    assert_eq!(Channel::Canary.to_string(), "Canary");
}

#[test]
fn channel_names_read_back_as_their_channel() {
    for channel in [Channel::Stable, Channel::Beta, Channel::Dev, Channel::Canary] {
        assert_eq!(Channel::parse(&channel.to_string()), Some(channel));
    }
}

#[test]
fn channel_names_are_case_sensitive() {
    assert_eq!(Channel::parse("stable"), None);
    assert_eq!(Channel::parse("BETA"), None);
    assert_eq!(Channel::parse("Dev "), None);
    assert_eq!(Channel::parse(""), None);
    assert_eq!(Channel::parse("Extended"), None);
}

#[test]
fn channels_serve_as_hash_map_keys() {
    let mut seen = std::collections::HashMap::new();
    seen.insert(Channel::Stable, 1);
    seen.insert(Channel::Canary, 2);
    seen.insert(Channel::Stable, 3);
    assert_eq!(seen.len(), 2);
    assert_eq!(seen.get(&Channel::Stable), Some(&3));
    assert_eq!(seen.get(&Channel::Beta), None);
}
