//! The two interpolation engines and what tells them apart: their names, where
//! their binaries are fetched from and where they live once installed.

use crate::rate::{twice, FrameRate};
use crate::text::{digits_of, number_text, texts};
use vstd::prelude::*;
use vstd::string::*;

verus! {

/// The interpolation engine of a job. DAIN renders any number of frames; RIFE
/// doubles the frames it is given.
#[derive(Clone, Copy, Debug, PartialEq, Eq, Structural)]
pub enum Framework {
    Dain,
    Rife,
}

/// The operating systems for which the engines are published.
#[derive(Clone, Copy, Debug, PartialEq, Eq, Structural)]
pub enum Platform {
    Windows,
    Linux,
    MacOs,
}

/// The engine that a name on the command line stands for.
pub open spec fn framework_named(name: Seq<char>) -> Option<Framework> {
    if name == "dain"@ {
        Some(Framework::Dain)
    } else if name == "rife"@ {
        Some(Framework::Rife)
    } else {
        None
    }
}

/// The address of the archive that holds an engine's release for a platform.
pub open spec fn archive_url_of(framework: Framework, platform: Platform) -> Seq<char> {
    match (framework, platform) {
        (Framework::Dain, Platform::Windows) =>
            "https://github.com/nihui/dain-ncnn-vulkan/releases/download/20210210/dain-ncnn-vulkan-20210210-windows.zip"@,
        (Framework::Dain, Platform::Linux) =>
            "https://github.com/nihui/dain-ncnn-vulkan/releases/download/20210210/dain-ncnn-vulkan-20210210-ubuntu.zip"@,
        (Framework::Dain, Platform::MacOs) =>
            "https://github.com/nihui/dain-ncnn-vulkan/releases/download/20210210/dain-ncnn-vulkan-20210210-macos.zip"@,
        (Framework::Rife, Platform::Windows) =>
            "https://github.com/nihui/rife-ncnn-vulkan/releases/download/20210520/rife-ncnn-vulkan-20210520-windows.zip"@,
        (Framework::Rife, Platform::Linux) =>
            "https://github.com/nihui/rife-ncnn-vulkan/releases/download/20210520/rife-ncnn-vulkan-20210520-ubuntu.zip"@,
        (Framework::Rife, Platform::MacOs) =>
            "https://github.com/nihui/rife-ncnn-vulkan/releases/download/20210520/rife-ncnn-vulkan-20210520-macos.zip"@,
    }
}

/// The top-level directory that an engine's archive unpacks to.
pub open spec fn archive_root_of(framework: Framework, platform: Platform) -> Seq<char> {
    match (framework, platform) {
        (Framework::Dain, Platform::Windows) => "dain-ncnn-vulkan-20210210-windows"@,
        (Framework::Dain, Platform::Linux) => "dain-ncnn-vulkan-20210210-ubuntu"@,
        (Framework::Dain, Platform::MacOs) => "dain-ncnn-vulkan-20210210-macos"@,
        (Framework::Rife, Platform::Windows) => "rife-ncnn-vulkan-20210520-windows"@,
        (Framework::Rife, Platform::Linux) => "rife-ncnn-vulkan-20210520-ubuntu"@,
        (Framework::Rife, Platform::MacOs) => "rife-ncnn-vulkan-20210520-macos"@,
    }
}

/// The directory that holds an installed engine; also its name on the command
/// line.
pub open spec fn install_dir_of(framework: Framework) -> Seq<char> {
    match framework {
        Framework::Dain => "dain"@,
        Framework::Rife => "rife"@,
    }
}

/// The file that an engine's archive is written to while it is installed.
pub open spec fn archive_file_of(framework: Framework) -> Seq<char> {
    match framework {
        Framework::Dain => "dain.zip"@,
        Framework::Rife => "rife.zip"@,
    }
}

/// The path of an installed engine's binary.
pub open spec fn binary_path_of(framework: Framework, platform: Platform) -> Seq<char> {
    match (framework, platform) {
        (Framework::Dain, Platform::Windows) => "./dain/dain-ncnn-vulkan.exe"@,
        (Framework::Dain, _) => "./dain/dain-ncnn-vulkan"@,
        (Framework::Rife, Platform::Windows) => "./rife/rife-ncnn-vulkan.exe"@,
        (Framework::Rife, _) => "./rife/rife-ncnn-vulkan"@,
    }
}

/// The rate at which the interpolated frames are assembled into a video. For
/// DAIN it is the target rate. For RIFE it is twice the source's rate, whatever
/// the target rate is: RIFE doubles the frames, so the video keeps its
/// duration at twice the rate. `None` where a frame rate cannot hold the double.
pub open spec fn mux_rate_of(framework: Framework, source: FrameRate, target: FrameRate)
    -> Option<FrameRate> {
    match framework {
        Framework::Dain => Some(target),
        Framework::Rife => source.twofold(),
    }
}

/// The arguments of an engine's run over the source frames. DAIN is told how
/// many frames to render; RIFE takes no count, it doubles what it finds.
pub open spec fn worker_args_of(framework: Framework, frames: u32) -> Seq<Seq<char>> {
    match framework {
        Framework::Dain => seq![
            "-i"@,
            "original_frames"@,
            "-o"@,
            "out_frames"@,
            "-n"@,
            digits_of(frames as nat),
        ],
        Framework::Rife => seq!["-i"@, "original_frames"@, "-o"@, "out_frames"@],
    }
}

/// The command to run by hand after an engine failed, to see its error: the
/// binary over the two working directories.
pub open spec fn manual_command_of(framework: Framework, platform: Platform) -> Seq<char> {
    binary_path_of(framework, platform) + " -i original_frames -o out_frames"@
}

/// What an engine's progress indicator is labelled with.
pub open spec fn progress_label_of(framework: Framework) -> Seq<char> {
    match framework {
        Framework::Dain => "DAIN RENDER PROGRESS"@,
        Framework::Rife => "RIFE RENDER PROGRESS"@,
    }
}

/// Whether an engine is installed, given the number of entries in its
/// directory, or `None` where that directory does not exist: it is installed
/// where the directory exists and is not empty.
pub fn engine_installed(entries: Option<usize>) -> (installed: bool)
    ensures
        installed == (entries is Some && entries->0 > 0),
{
    match entries {
        Some(count) => count > 0,
        None => false,
    }
}

/// Whether two texts are the same, character by character.
pub fn same_text(a: &str, b: &str) -> (same: bool)
    ensures
        same == (a@ == b@),
{
    let left = a.to_owned();
    let right = b.to_owned();
    left == right
}

impl Framework {
    /// Resolves the engine named on the command line: `dain` or `rife`, in
    /// lower case. Any other name is no engine.
    pub fn from_name(name: &str) -> (framework: Option<Framework>)
        ensures
            framework == framework_named(name@),
    {
        proof {
            reveal_strlit("dain");
            reveal_strlit("rife");
        }
        if same_text(name, "dain") {
            Some(Framework::Dain)
        } else if same_text(name, "rife") {
            Some(Framework::Rife)
        } else {
            None
        }
    }

    /// The rate at which the interpolated frames are assembled: the target
    /// rate for DAIN, twice the source's rate for RIFE.
    pub fn mux_rate(self, source: FrameRate, target: FrameRate) -> (rate: Option<FrameRate>)
        ensures
            rate == mux_rate_of(self, source, target),
    {
        match self {
            Framework::Dain => Some(target),
            Framework::Rife => source.doubled(),
        }
    }

    /// The arguments with which the engine is run to render `frames` frames.
    pub fn worker_args(self, frames: u32) -> (args: Vec<String>)
        ensures
            texts(args@) == worker_args_of(self, frames),
    {
        let mut args: Vec<String> = Vec::new();
        args.push("-i".to_owned());
        args.push("original_frames".to_owned());
        args.push("-o".to_owned());
        args.push("out_frames".to_owned());
        match self {
            Framework::Dain => {
                args.push("-n".to_owned());
                args.push(number_text(frames as u64));
            },
            Framework::Rife => {},
        }
        assert(texts(args@) =~= worker_args_of(self, frames));
        args
    }

    /// The command that shows the engine's error when run by hand.
    pub fn manual_command(self, platform: Platform) -> (command: String)
        ensures
            command@ == manual_command_of(self, platform),
    {
        let mut command = self.binary_path(platform).to_owned();
        command.append(" -i original_frames -o out_frames");
        command
    }

    /// The label of the engine's progress indicator.
    pub fn progress_label(self) -> (label: &'static str)
        ensures
            label@ == progress_label_of(self),
    {
        match self {
            Framework::Dain => "DAIN RENDER PROGRESS",
            Framework::Rife => "RIFE RENDER PROGRESS",
        }
    }

    /// Where the engine's release for `platform` is downloaded from.
    pub fn archive_url(self, platform: Platform) -> (url: &'static str)
        ensures
            url@ == archive_url_of(self, platform),
    {
        match (self, platform) {
            (Framework::Dain, Platform::Windows) =>
                "https://github.com/nihui/dain-ncnn-vulkan/releases/download/20210210/dain-ncnn-vulkan-20210210-windows.zip",
            (Framework::Dain, Platform::Linux) =>
                "https://github.com/nihui/dain-ncnn-vulkan/releases/download/20210210/dain-ncnn-vulkan-20210210-ubuntu.zip",
            (Framework::Dain, Platform::MacOs) =>
                "https://github.com/nihui/dain-ncnn-vulkan/releases/download/20210210/dain-ncnn-vulkan-20210210-macos.zip",
            (Framework::Rife, Platform::Windows) =>
                "https://github.com/nihui/rife-ncnn-vulkan/releases/download/20210520/rife-ncnn-vulkan-20210520-windows.zip",
            (Framework::Rife, Platform::Linux) =>
                "https://github.com/nihui/rife-ncnn-vulkan/releases/download/20210520/rife-ncnn-vulkan-20210520-ubuntu.zip",
            (Framework::Rife, Platform::MacOs) =>
                "https://github.com/nihui/rife-ncnn-vulkan/releases/download/20210520/rife-ncnn-vulkan-20210520-macos.zip",
        }
    }

    /// The directory that the downloaded archive unpacks to, which is then
    /// renamed to `install_dir`.
    pub fn archive_root(self, platform: Platform) -> (dir: &'static str)
        ensures
            dir@ == archive_root_of(self, platform),
    {
        match (self, platform) {
            (Framework::Dain, Platform::Windows) => "dain-ncnn-vulkan-20210210-windows",
            (Framework::Dain, Platform::Linux) => "dain-ncnn-vulkan-20210210-ubuntu",
            (Framework::Dain, Platform::MacOs) => "dain-ncnn-vulkan-20210210-macos",
            (Framework::Rife, Platform::Windows) => "rife-ncnn-vulkan-20210520-windows",
            (Framework::Rife, Platform::Linux) => "rife-ncnn-vulkan-20210520-ubuntu",
            (Framework::Rife, Platform::MacOs) => "rife-ncnn-vulkan-20210520-macos",
        }
    }

    /// The directory of the installed engine, kept from run to run.
    pub fn install_dir(self) -> (dir: &'static str)
        ensures
            dir@ == install_dir_of(self),
    {
        match self {
            Framework::Dain => "dain",
            Framework::Rife => "rife",
        }
    }

    /// The file that the archive is written to before it is unpacked and
    /// removed.
    pub fn archive_file(self) -> (file: &'static str)
        ensures
            file@ == archive_file_of(self),
    {
        match self {
            Framework::Dain => "dain.zip",
            Framework::Rife => "rife.zip",
        }
    }

    /// The binary to run: with the suffix `.exe` on Windows, without it
    /// elsewhere.
    pub fn binary_path(self, platform: Platform) -> (path: &'static str)
        ensures
            path@ == binary_path_of(self, platform),
    {
        match (self, platform) {
            (Framework::Dain, Platform::Windows) => "./dain/dain-ncnn-vulkan.exe",
            (Framework::Dain, _) => "./dain/dain-ncnn-vulkan",
            (Framework::Rife, Platform::Windows) => "./rife/rife-ncnn-vulkan.exe",
            (Framework::Rife, _) => "./rife/rife-ncnn-vulkan",
        }
    }
}

/// DAIN assembles at the target rate, whatever the source's rate. RIFE
/// assembles at twice the source's rate, whatever the target rate, as long as
/// a frame rate holds the double.
pub proof fn law_mux_rate(source: FrameRate, target: FrameRate, other: FrameRate)
    ensures
        mux_rate_of(Framework::Dain, source, target) == Some(target),
        mux_rate_of(Framework::Dain, other, target) == mux_rate_of(
            Framework::Dain,
            source,
            target,
        ),
        mux_rate_of(Framework::Rife, source, other) == mux_rate_of(
            Framework::Rife,
            source,
            target,
        ),
        mux_rate_of(Framework::Rife, source, target) is Some <==> 2 * source@.mantissa
            <= u64::MAX,
        mux_rate_of(Framework::Rife, source, target) is Some ==> mux_rate_of(
            Framework::Rife,
            source,
            target,
        )->0@ == twice(source@),
{
    source.lemma_twofold();
}

/// The name of an engine's directory is the name that selects the engine.
pub proof fn law_install_dir_names_framework(framework: Framework)
    ensures
        framework_named(install_dir_of(framework)) == Some(framework),
{
    reveal_strlit("dain");
    reveal_strlit("rife");
    assert("dain"@[0] != "rife"@[0]);
}

} // verus!
