//! Built-in metrics: facts about the platform that the program runs on.

use vstd::prelude::*;

use crate::value::{JsonMap, JsonValue, JsonView, Number};

verus! {

/// Facts about the platform.
#[derive(Debug)]
pub struct PlatformInfo {
    /// The name of the operating system.
    pub os_name: String,
    /// The architecture, as the operating system reports it.
    pub os_arch: Option<String>,
    /// The architecture that the program was built for.
    pub build_arch: String,
    /// The version of the operating system.
    pub os_version: String,
    /// Whether the operating system is known to be a 32-bit one.
    pub is_32_bit: bool,
    /// The number of processors available to the program, if it is known.
    pub parallelism: Option<usize>,
    /// Whether the program was built with debug assertions.
    pub debug_assertions: bool,
}

/// The number of processors, 1 if it is not known. There is always one.
pub open spec fn processors(parallelism: Option<usize>) -> usize {
    match parallelism {
        Some(n) if n > 0 => n,
        _ => 1,
    }
}

/// The metrics with the built-in ones.
pub open spec fn with_platform(
    metrics: Map<Seq<char>, JsonView>,
    platform: PlatformInfo,
    program_version: Seq<char>,
) -> Map<Seq<char>, JsonView> {
    metrics.insert("os_name"@, JsonView::String(platform.os_name@)).insert(
        "os_arch"@,
        JsonView::String(
            match platform.os_arch {
                Some(arch) => arch@,
                None => platform.build_arch@,
            },
        ),
    ).insert("os_version"@, JsonView::String(platform.os_version@)).insert(
        "pointer_width"@,
        JsonView::Number(
            Number::PosInt(
                if platform.is_32_bit {
                    32
                } else {
                    64
                },
            ),
        ),
    ).insert(
        "core_count"@,
        JsonView::Number(Number::PosInt(processors(platform.parallelism) as u64)),
    ).insert("debug_assertions"@, JsonView::Bool(platform.debug_assertions)).insert(
        "program_version"@,
        JsonView::String(program_version),
    )
}

/// Appends the built-in platform metrics. They are always there.
pub fn append_internal_data(
    metrics: &mut JsonMap,
    platform: &PlatformInfo,
    program_version: &str,
)
    ensures
        final(metrics)@ == with_platform(old(metrics)@, *platform, program_version@),
{
    metrics.insert("os_name", JsonValue::string(platform.os_name.as_str()));
    let arch = match &platform.os_arch {
        Some(arch) => arch.as_str(),
        None => platform.build_arch.as_str(),
    };
    metrics.insert("os_arch", JsonValue::string(arch));
    metrics.insert("os_version", JsonValue::string(platform.os_version.as_str()));
    let width: u64 = if platform.is_32_bit {
        32
    } else {
        64
    };
    metrics.insert("pointer_width", JsonValue::unsigned(width));
    metrics.insert("core_count", JsonValue::unsigned(cpu_count(platform.parallelism) as u64));
    metrics.insert("debug_assertions", JsonValue::Bool(platform.debug_assertions));
    metrics.insert("program_version", JsonValue::string(program_version));
}

/// The number of logical processors available to the program. Falls back to
/// 1.
pub fn cpu_count(parallelism: Option<usize>) -> (n: usize)
    ensures
        n == processors(parallelism),
        n >= 1,
{
    match parallelism {
        Some(n) if n > 0 => n,
        _ => 1,
    }
}

} // verus!
