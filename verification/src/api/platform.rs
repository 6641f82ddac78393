//! The operating system and architecture pairs that builds are published for.

use crate::text::same_text;
use vstd::prelude::*;

verus! {

/// A platform that Chrome for Testing publishes builds for.
#[derive(Debug, Clone, Copy, PartialEq, Eq, Structural)]
pub enum Platform {
    Linux64,
    MacArm64,
    MacX64,
    Win32,
    Win64,
}

/// Why no platform could be chosen for a host.
#[derive(Debug, Clone, Copy, PartialEq, Eq, Structural)]
pub enum UnsupportedHost {
    /// The operating system is none of Windows, Linux and macOS.
    Os,
    /// The operating system is known, but no build exists for the
    /// architecture it runs on.
    Architecture,
}

impl Platform {
    /// The token that names this platform in the feed.
    pub open spec fn token(self) -> Seq<char> {
        match self {
            Platform::Linux64 => "linux64"@,
            Platform::MacArm64 => "mac-arm64"@,
            Platform::MacX64 => "mac-x64"@,
            Platform::Win32 => "win32"@,
            Platform::Win64 => "win64"@,
        }
    }

    /// The platform that a feed token names, if it names one. Tokens are
    /// matched exactly, case included.
    pub open spec fn from_token(token: Seq<char>) -> Option<Platform> {
        if token == "linux64"@ {
            Some(Platform::Linux64)
        } else if token == "mac-arm64"@ {
            Some(Platform::MacArm64)
        } else if token == "mac-x64"@ {
            Some(Platform::MacX64)
        } else if token == "win32"@ {
            Some(Platform::Win32)
        } else if token == "win64"@ {
            Some(Platform::Win64)
        } else {
            None
        }
    }

    /// The platform to use on a host, given the names under which Rust
    /// reports its operating system and architecture.
    pub open spec fn for_host(os: Seq<char>, arch: Seq<char>) -> Result<Platform, UnsupportedHost> {
        if os == "windows"@ {
            if arch == "x86"@ {
                Ok(Platform::Win32)
            } else if arch == "x86_64"@ {
                Ok(Platform::Win64)
            } else {
                Err(UnsupportedHost::Architecture)
            }
        } else if os == "linux"@ {
            if arch == "x86_64"@ {
                Ok(Platform::Linux64)
            } else {
                Err(UnsupportedHost::Architecture)
            }
        } else if os == "macos"@ {
            if arch == "x86_64"@ {
                Ok(Platform::MacX64)
            } else if arch == "aarch64"@ {
                Ok(Platform::MacArm64)
            } else {
                Err(UnsupportedHost::Architecture)
            }
        } else {
            Err(UnsupportedHost::Os)
        }
    }

    /// The file name of the browser executable in a build for this platform.
    pub open spec fn chrome_binary(self) -> Seq<char> {
        match self {
            Platform::Linux64 | Platform::MacX64 => "chrome"@,
            Platform::MacArm64 => "Google Chrome for Testing.app"@,
            Platform::Win32 | Platform::Win64 => "chrome.exe"@,
        }
    }

    /// The file name of the driver executable in a build for this platform.
    pub open spec fn chromedriver_binary(self) -> Seq<char> {
        match self {
            Platform::Linux64 | Platform::MacX64 | Platform::MacArm64 => "chromedriver"@,
            Platform::Win32 | Platform::Win64 => "chromedriver.exe"@,
        }
    }

    /// Chooses the platform for a host from the names of its operating
    /// system and architecture, as `std::env::consts::OS` and
    /// `std::env::consts::ARCH` give them.
    ///
    /// A program that needs its own platform calls this once at startup and
    /// stops on an error: without a platform there is no build to pick.
    pub fn detect(os: &str, arch: &str) -> (platform: Result<Platform, UnsupportedHost>)
        ensures
            platform == Platform::for_host(os@, arch@),
    {
        if same_text(os, "windows") {
            if same_text(arch, "x86") {
                Ok(Platform::Win32)
            } else if same_text(arch, "x86_64") {
                Ok(Platform::Win64)
            } else {
                Err(UnsupportedHost::Architecture)
            }
        } else if same_text(os, "linux") {
            if same_text(arch, "x86_64") {
                Ok(Platform::Linux64)
            } else {
                Err(UnsupportedHost::Architecture)
            }
        } else if same_text(os, "macos") {
            if same_text(arch, "x86_64") {
                Ok(Platform::MacX64)
            } else if same_text(arch, "aarch64") {
                Ok(Platform::MacArm64)
            } else {
                Err(UnsupportedHost::Architecture)
            }
        } else {
            Err(UnsupportedHost::Os)
        }
    }

    /// Reads a platform from its feed token.
    pub fn parse(token: &str) -> (platform: Option<Platform>)
        ensures
            platform == Platform::from_token(token@),
    {
        if same_text(token, "linux64") {
            Some(Platform::Linux64)
        } else if same_text(token, "mac-arm64") {
            Some(Platform::MacArm64)
        } else if same_text(token, "mac-x64") {
            Some(Platform::MacX64)
        } else if same_text(token, "win32") {
            Some(Platform::Win32)
        } else if same_text(token, "win64") {
            Some(Platform::Win64)
        } else {
            None
        }
    }

    /// Renders the platform as its feed token.
    pub fn to_string(&self) -> (text: String)
        ensures
            text@ == self.token(),
    {
        String::from_str(
            match self {
                Platform::Linux64 => "linux64",
                Platform::MacArm64 => "mac-arm64",
                Platform::MacX64 => "mac-x64",
                Platform::Win32 => "win32",
                Platform::Win64 => "win64",
            },
        )
    }

    /// The file name of the browser executable in a build for this platform:
    /// an application bundle on Apple Silicon, an `.exe` on Windows.
    pub fn chrome_binary_name(self) -> (name: &'static str)
        ensures
            name@ == self.chrome_binary(),
    {
        match self {
            Platform::Linux64 | Platform::MacX64 => "chrome",
            Platform::MacArm64 => "Google Chrome for Testing.app",
            Platform::Win32 | Platform::Win64 => "chrome.exe",
        }
    }

    /// The file name of the driver executable in a build for this platform.
    pub fn chromedriver_binary_name(self) -> (name: &'static str)
        ensures
            name@ == self.chromedriver_binary(),
    {
        match self {
            Platform::Linux64 | Platform::MacX64 | Platform::MacArm64 => "chromedriver",
            Platform::Win32 | Platform::Win64 => "chromedriver.exe",
        }
    }

    /// A host has a platform exactly when it is one of five: Linux on
    /// x86-64, Windows on x86 or x86-64, macOS on x86-64 or 64-bit ARM.
    pub proof fn lemma_supported_hosts(os: Seq<char>, arch: Seq<char>)
        ensures
            Platform::for_host(os, arch) is Ok <==> {
                ||| os == "linux"@ && arch == "x86_64"@
                ||| os == "windows"@ && arch == "x86"@
                ||| os == "windows"@ && arch == "x86_64"@
                ||| os == "macos"@ && arch == "x86_64"@
                ||| os == "macos"@ && arch == "aarch64"@
            },
    {
        reveal_strlit("linux");
        reveal_strlit("windows");
        reveal_strlit("macos");
        assert("linux"@.len() == 5 && "windows"@.len() == 7);
        assert("linux"@[0] != "macos"@[0]);
    }

    /// Reading back the token of a platform gives that platform: the five
    /// tokens are pairwise different.
    pub proof fn lemma_token_round_trip(platform: Platform)
        ensures
            Platform::from_token(platform.token()) == Some(platform),
    {
        reveal_strlit("linux64");
        reveal_strlit("mac-arm64");
        reveal_strlit("mac-x64");
        reveal_strlit("win32");
        reveal_strlit("win64");
        assert("win32"@[4] != "win64"@[4]);
        assert("mac-arm64"@.len() != "mac-x64"@.len());
        assert("linux64"@[0] != "mac-x64"@[0]);
    }

    /// A text that reads as a platform is that platform's token, so the feed
    /// names each platform in exactly one way.
    pub proof fn lemma_parsed_token_is_canonical(token: Seq<char>)
        ensures
            Platform::from_token(token) matches Some(platform) ==> platform.token() == token,
    {
    }
}

} // verus!
