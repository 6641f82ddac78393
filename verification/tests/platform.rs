use chrome_for_testing::api::platform::{Platform, UnsupportedHost};

const ALL: [Platform; 5] =
    [Platform::Linux64, Platform::MacArm64, Platform::MacX64, Platform::Win32, Platform::Win64];

#[test]
fn platform_tokens_match_the_feed() {
    assert_eq!(Platform::Linux64.to_string(), "linux64");
    assert_eq!(Platform::MacArm64.to_string(), "mac-arm64");
    assert_eq!(Platform::MacX64.to_string(), "mac-x64");
    assert_eq!(Platform::Win32.to_string(), "win32");
    assert_eq!(Platform::Win64.to_string(), "win64");
}

#[test]
fn platform_tokens_read_back_as_their_platform() {
    for platform in ALL {
        assert_eq!(Platform::parse(&platform.to_string()), Some(platform));
    }
    assert_eq!(Platform::parse("mac-arm64"), Some(Platform::MacArm64));
}

#[test]
fn platform_tokens_are_matched_exactly() {
    assert_eq!(Platform::parse("Linux64"), None);
    assert_eq!(Platform::parse("mac_arm64"), None);
    assert_eq!(Platform::parse("win"), None);
    assert_eq!(Platform::parse("win644"), None);
    assert_eq!(Platform::parse(""), None);
}

#[test]
fn detect_recognises_the_supported_hosts() {
    assert_eq!(Platform::detect("linux", "x86_64"), Ok(Platform::Linux64));
    assert_eq!(Platform::detect("windows", "x86"), Ok(Platform::Win32));
    assert_eq!(Platform::detect("windows", "x86_64"), Ok(Platform::Win64));
    assert_eq!(Platform::detect("macos", "x86_64"), Ok(Platform::MacX64));
    assert_eq!(Platform::detect("macos", "aarch64"), Ok(Platform::MacArm64));
}

#[test]
fn detect_refuses_other_hosts() {
    assert_eq!(Platform::detect("linux", "aarch64"), Err(UnsupportedHost::Architecture));
    assert_eq!(Platform::detect("linux", "x86"), Err(UnsupportedHost::Architecture));
    assert_eq!(Platform::detect("windows", "aarch64"), Err(UnsupportedHost::Architecture));
    assert_eq!(Platform::detect("macos", "x86"), Err(UnsupportedHost::Architecture));
    assert_eq!(Platform::detect("macos", "arm"), Err(UnsupportedHost::Architecture));
    assert_eq!(Platform::detect("freebsd", "x86_64"), Err(UnsupportedHost::Os));
    assert_eq!(Platform::detect("", ""), Err(UnsupportedHost::Os));
    assert_eq!(Platform::detect("Linux", "x86_64"), Err(UnsupportedHost::Os));
}

#[test]
fn chrome_binary_names() {
    assert_eq!(Platform::Linux64.chrome_binary_name(), "chrome");
    assert_eq!(Platform::MacX64.chrome_binary_name(), "chrome");
    assert_eq!(Platform::MacArm64.chrome_binary_name(), "Google Chrome for Testing.app");
    assert_eq!(Platform::Win32.chrome_binary_name(), "chrome.exe");
    assert_eq!(Platform::Win64.chrome_binary_name(), "chrome.exe");
}

#[test]
fn chromedriver_binary_names() {
    assert_eq!(Platform::Linux64.chromedriver_binary_name(), "chromedriver");
    assert_eq!(Platform::MacX64.chromedriver_binary_name(), "chromedriver");
    assert_eq!(Platform::MacArm64.chromedriver_binary_name(), "chromedriver");
    assert_eq!(Platform::Win32.chromedriver_binary_name(), "chromedriver.exe");
    assert_eq!(Platform::Win64.chromedriver_binary_name(), "chromedriver.exe");
}
