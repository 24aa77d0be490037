//! Linking: which linker to run for a target and with which arguments. The
//! driver finds the linker, fills in the paths and runs it.

use vstd::prelude::*;
use vstd::string::*;

verus! {

broadcast use vstd::string::group_string_axioms;

/// The version of macOS that a program is built for.
pub struct DeploymentTarget {
    pub major: u16,
    pub minor: u8,
    pub patch: u8,
}

/// The architecture of a target: whether it is 64-bit ARM, and its name.
pub struct Architecture {
    pub is_aarch64: bool,
    pub name: String,
}

/// The operating systems that linking tells apart.
pub enum OperatingSystem {
    MacOSX(Option<DeploymentTarget>),
    Linux,
    Windows,
    Other,
}

/// A target: its architecture and operating system.
pub struct Target {
    pub architecture: Architecture,
    pub operating_system: OperatingSystem,
}

/// One argument of the linker's command line: a fixed text, the executable
/// to write, the executable to write joined to a fixed prefix (one argument,
/// the prefix first), or the object files to link (all of them, in order).
pub enum LinkArg {
    Text(String),
    OutputFile,
    PrefixedOutputFile(String),
    ObjectFiles,
}

/// The mathematical value of a linker argument.
pub enum ArgView {
    Text(Seq<char>),
    OutputFile,
    PrefixedOutputFile(Seq<char>),
    ObjectFiles,
}

impl View for LinkArg {
    type V = ArgView;

    open spec fn view(&self) -> ArgView {
        match self {
            LinkArg::Text(s) => ArgView::Text(s@),
            LinkArg::OutputFile => ArgView::OutputFile,
            LinkArg::PrefixedOutputFile(p) => ArgView::PrefixedOutputFile(p@),
            LinkArg::ObjectFiles => ArgView::ObjectFiles,
        }
    }
}

/// The linker to run, by its base name, and its arguments.
pub struct LinkerCommand {
    pub linker: &'static str,
    pub args: Vec<LinkArg>,
}

/// The values of a sequence of arguments.
pub open spec fn args_view(args: Seq<LinkArg>) -> Seq<ArgView> {
    args.map_values(|a: LinkArg| a@)
}

/// Fixed texts as arguments.
pub open spec fn texts_of(ss: Seq<&str>) -> Seq<ArgView> {
    ss.map_values(|s: &str| ArgView::Text(s@))
}

/// The decimal digits of `n`.
pub open spec fn decimal(n: nat) -> Seq<char>
    decreases n,
{
    if n < 10 {
        seq![(48 + n) as char]
    } else {
        decimal(n / 10).push((48 + n % 10) as char)
    }
}

/// `major.minor.patch`.
pub open spec fn version_text(d: DeploymentTarget) -> Seq<char> {
    decimal(d.major as nat) + seq!['.'] + decimal(d.minor as nat) + seq!['.'] + decimal(
        d.patch as nat,
    )
}

/// The macOS SDK that programs link against.
pub open spec fn sdk_path() -> &'static str {
    "/Applications/Xcode.app/Contents/Developer/Platforms/MacOSX.platform/Developer/SDKs/MacOSX.sdk"
}

/// The runtime library, as built for Unix-like targets.
pub open spec fn unix_runtime() -> &'static str {
    "target/release/libstdlib.a"
}

/// The arguments for `ld64.lld` on macOS.
pub open spec fn macos_args(arch: Seq<char>, d: DeploymentTarget) -> Seq<ArgView> {
    seq![
        ArgView::Text("-arch"@),
        ArgView::Text(arch),
        ArgView::Text("-platform_version"@),
        ArgView::Text("macos"@),
        ArgView::Text(version_text(d)),
        ArgView::Text(version_text(d)),
        ArgView::Text("-syslibroot"@),
        ArgView::Text(sdk_path()@),
        ArgView::Text("-lc"@),
        ArgView::Text("-framework"@),
        ArgView::Text("CoreFoundation"@),
        ArgView::Text("-o"@),
        ArgView::OutputFile,
        ArgView::ObjectFiles,
        ArgView::Text(unix_runtime()@),
    ]
}

/// The dynamic loader on Linux.
pub open spec fn linux_loader(aarch64: bool) -> &'static str {
    if aarch64 {
        "/lib/ld-linux-aarch64.so.1"
    } else {
        "/lib64/ld-linux-x86-64.so.2"
    }
}

/// The C runtime start files and library directories on Linux.
pub open spec fn linux_crt_begin(aarch64: bool) -> Seq<&'static str> {
    if aarch64 {
        seq![
            "/usr/lib/gcc/aarch64-redhat-linux/15/../../../../lib64/crt1.o",
            "/usr/lib/gcc/aarch64-redhat-linux/15/../../../../lib64/crti.o",
            "/usr/lib/gcc/aarch64-redhat-linux/15/crtbegin.o",
            "-L/usr/lib/gcc/aarch64-redhat-linux/15",
            "-L/usr/lib/gcc/aarch64-redhat-linux/15/../../../../lib64",
            "-L/usr/lib/gcc/aarch64-redhat-linux/15/../../..",
        ]
    } else {
        seq![
            "/lib/x86_64-linux-gnu/Scrt1.o",
            "/lib/x86_64-linux-gnu/crti.o",
            "/usr/bin/../lib/gcc/x86_64-linux-gnu/14/crtbeginS.o",
            "-L/usr/bin/../lib/gcc/x86_64-linux-gnu/14",
            "-L/usr/bin/../lib/gcc/x86_64-linux-gnu/14/../../../../",
            "-L/lib/x86_64-linux-gnu",
            "-L/usr/lib/x86_64-linux-gnu",
        ]
    }
}

pub open spec fn linux_lib_dirs() -> Seq<&'static str> {
    seq!["-L/lib/../lib64", "-L/usr/lib/../lib64", "-L/lib", "-L/usr/lib"]
}

pub open spec fn linux_c_libs() -> Seq<&'static str> {
    seq![
        "-lgcc",
        "--as-needed",
        "-lgcc_s",
        "--no-as-needed",
        "-lc",
        "-lgcc",
        "--as-needed",
        "-lgcc_s",
        "--no-as-needed",
    ]
}

/// The C runtime end files on Linux.
pub open spec fn linux_crt_end(aarch64: bool) -> Seq<&'static str> {
    if aarch64 {
        seq![
            "/usr/bin/../lib/gcc/aarch64-redhat-linux/15/crtend.o",
            "/usr/bin/../lib/gcc/aarch64-redhat-linux/15/../../../../lib64/crtn.o",
        ]
    } else {
        seq!["/usr/bin/../lib/gcc/x86_64-linux-gnu/14/crtendS.o", "/lib/x86_64-linux-gnu/crtn.o"]
    }
}

/// The GTK libraries that the runtime's message box needs on Linux.
pub open spec fn linux_gui_libs() -> Seq<&'static str> {
    seq![
        "-lglib-2.0",
        "-lgobject-2.0",
        "-lgio-2.0",
        "-lgtk-4",
        "-lpango-1.0",
        "-lcairo",
        "-lgdk_pixbuf-2.0",
    ]
}

/// The arguments for `ld.lld` on Linux.
pub open spec fn linux_args(aarch64: bool) -> Seq<ArgView> {
    texts_of(seq!["-dynamic-linker", linux_loader(aarch64)]) + seq![
        ArgView::Text("-o"@),
        ArgView::OutputFile,
    ] + texts_of(linux_crt_begin(aarch64)) + texts_of(linux_lib_dirs()) + seq![
        ArgView::ObjectFiles,
    ] + texts_of(linux_c_libs()) + texts_of(linux_crt_end(aarch64)) + texts_of(
        seq![unix_runtime()],
    ) + texts_of(linux_gui_libs())
}

/// The arguments for `lld-link.exe` on Windows; the executable to write is
/// given as `/OUT:` followed by its path.
pub open spec fn windows_args() -> Seq<ArgView> {
    seq![ArgView::ObjectFiles] + texts_of(
        seq![
            "target\\release\\stdlib.lib",
            "/DEFAULTLIB:kernel32.lib",
            "/DEFAULTLIB:user32.lib",
            "/DEFAULTLIB:advapi32.lib",
            "/DEFAULTLIB:ws2_32.lib",
            "/DEFAULTLIB:userenv.lib",
            "/DEFAULTLIB:bcrypt.lib",
            "/DEFAULTLIB:dbghelp.lib",
            "/DEFAULTLIB:ucrt.lib",
            "/DEFAULTLIB:vcruntime.lib",
            "/DEFAULTLIB:msvcrt.lib",
            "/DEFAULTLIB:ntdll.lib",
            "/ENTRY:main",
            "/SUBSYSTEM:CONSOLE",
        ],
    ) + seq![ArgView::PrefixedOutputFile("/OUT:"@)]
}

/// The linker (by base name) and its arguments for a target; `None` for a
/// target that is not supported (macOS without a deployment target, or an
/// operating system other than macOS, Linux and Windows).
pub open spec fn spec_linker_command(t: Target) -> Option<(Seq<char>, Seq<ArgView>)> {
    match t.operating_system {
        OperatingSystem::MacOSX(Some(d)) => {
            let arch = if t.architecture.is_aarch64 {
                "arm64"@
            } else {
                t.architecture.name@
            };
            Some(("ld64.lld"@, macos_args(arch, d)))
        },
        OperatingSystem::Linux => Some(("ld.lld"@, linux_args(t.architecture.is_aarch64))),
        OperatingSystem::Windows => Some(("lld-link.exe"@, windows_args())),
        _ => None,
    }
}

/// Calls `u16::to_string`: the decimal digits of `n`.
#[verifier::external_body]
fn decimal_string(n: u16) -> (s: String)
    ensures
        s@ == decimal(n as nat),
{
    n.to_string()
}

fn push_text(args: &mut Vec<LinkArg>, s: &str)
    ensures
        args_view(final(args)@) == args_view(old(args)@).push(ArgView::Text(s@)),
{
    args.push(LinkArg::Text(String::from_str(s)));
    assert(args_view(args@) =~= args_view(old(args)@).push(ArgView::Text(s@)));
}

fn push_arg(args: &mut Vec<LinkArg>, a: LinkArg)
    ensures
        args_view(final(args)@) == args_view(old(args)@).push(a@),
{
    args.push(a);
    assert(args_view(args@) =~= args_view(old(args)@).push(a@));
}

fn push_texts(args: &mut Vec<LinkArg>, ss: &[&str])
    ensures
        args_view(final(args)@) == args_view(old(args)@) + texts_of(ss@),
{
    let mut i: usize = 0;
    while i < ss.len()
        invariant
            i <= ss@.len(),
            args_view(args@) == args_view(old(args)@) + texts_of(ss@.subrange(0, i as int)),
        decreases ss@.len() - i,
    {
        push_text(args, ss[i]);
        i = i + 1;
        assert(texts_of(ss@.subrange(0, i as int)) =~= texts_of(ss@.subrange(0, i - 1)).push(
            ArgView::Text(ss@[i - 1]@),
        ));
    }
    assert(ss@.subrange(0, i as int) =~= ss@);
}

/// `major.minor.patch` of a deployment target.
fn version_string(d: &DeploymentTarget) -> (s: String)
    ensures
        s@ == version_text(*d),
{
    proof {
        reveal_strlit(".");
    }
    let mut s = decimal_string(d.major);
    s.append(".");
    s.append(decimal_string(d.minor as u16).as_str());
    s.append(".");
    s.append(decimal_string(d.patch as u16).as_str());
    s
}

/// The linker to run and its arguments, as `spec_linker_command` says.
pub fn linker_command(target: &Target) -> (cmd: Option<LinkerCommand>)
    ensures
        match cmd {
            Some(c) => spec_linker_command(*target) == Some((c.linker@, args_view(c.args@))),
            None => spec_linker_command(*target) is None,
        },
{
    let mut args: Vec<LinkArg> = Vec::new();
    assert(args_view(args@) =~= Seq::<ArgView>::empty());
    match &target.operating_system {
        OperatingSystem::MacOSX(Some(d)) => {
            let arch = if target.architecture.is_aarch64 {
                "arm64"
            } else {
                target.architecture.name.as_str()
            };
            let version = version_string(d);
            push_text(&mut args, "-arch");
            push_text(&mut args, arch);
            push_text(&mut args, "-platform_version");
            push_text(&mut args, "macos");
            push_text(&mut args, version.as_str());
            push_text(&mut args, version.as_str());
            push_text(&mut args, "-syslibroot");
            push_text(
                &mut args,
                "/Applications/Xcode.app/Contents/Developer/Platforms/MacOSX.platform/Developer/SDKs/MacOSX.sdk",
            );
            push_text(&mut args, "-lc");
            push_text(&mut args, "-framework");
            push_text(&mut args, "CoreFoundation");
            push_text(&mut args, "-o");
            push_arg(&mut args, LinkArg::OutputFile);
            push_arg(&mut args, LinkArg::ObjectFiles);
            push_text(&mut args, "target/release/libstdlib.a");
            assert(args_view(args@) =~= macos_args(
                if target.architecture.is_aarch64 {
                    "arm64"@
                } else {
                    target.architecture.name@
                },
                *d,
            ));
            Some(LinkerCommand { linker: "ld64.lld", args })
        },
        OperatingSystem::Linux => {
            let aarch64 = target.architecture.is_aarch64;
            let loader = if aarch64 {
                "/lib/ld-linux-aarch64.so.1"
            } else {
                "/lib64/ld-linux-x86-64.so.2"
            };
            push_texts(&mut args, &["-dynamic-linker", loader]);
            push_text(&mut args, "-o");
            push_arg(&mut args, LinkArg::OutputFile);
            if aarch64 {
                push_texts(
                    &mut args,
                    &[
                        "/usr/lib/gcc/aarch64-redhat-linux/15/../../../../lib64/crt1.o",
                        "/usr/lib/gcc/aarch64-redhat-linux/15/../../../../lib64/crti.o",
                        "/usr/lib/gcc/aarch64-redhat-linux/15/crtbegin.o",
                        "-L/usr/lib/gcc/aarch64-redhat-linux/15",
                        "-L/usr/lib/gcc/aarch64-redhat-linux/15/../../../../lib64",
                        "-L/usr/lib/gcc/aarch64-redhat-linux/15/../../..",
                    ],
                );
            } else {
                push_texts(
                    &mut args,
                    &[
                        "/lib/x86_64-linux-gnu/Scrt1.o",
                        "/lib/x86_64-linux-gnu/crti.o",
                        "/usr/bin/../lib/gcc/x86_64-linux-gnu/14/crtbeginS.o",
                        "-L/usr/bin/../lib/gcc/x86_64-linux-gnu/14",
                        "-L/usr/bin/../lib/gcc/x86_64-linux-gnu/14/../../../../",
                        "-L/lib/x86_64-linux-gnu",
                        "-L/usr/lib/x86_64-linux-gnu",
                    ],
                );
            }
            push_texts(&mut args, &["-L/lib/../lib64", "-L/usr/lib/../lib64", "-L/lib", "-L/usr/lib"]);
            push_arg(&mut args, LinkArg::ObjectFiles);
            push_texts(
                &mut args,
                &[
                    "-lgcc",
                    "--as-needed",
                    "-lgcc_s",
                    "--no-as-needed",
                    "-lc",
                    "-lgcc",
                    "--as-needed",
                    "-lgcc_s",
                    "--no-as-needed",
                ],
            );
            if aarch64 {
                push_texts(
                    &mut args,
                    &[
                        "/usr/bin/../lib/gcc/aarch64-redhat-linux/15/crtend.o",
                        "/usr/bin/../lib/gcc/aarch64-redhat-linux/15/../../../../lib64/crtn.o",
                    ],
                );
            } else {
                push_texts(
                    &mut args,
                    &["/usr/bin/../lib/gcc/x86_64-linux-gnu/14/crtendS.o", "/lib/x86_64-linux-gnu/crtn.o"],
                );
            }
            push_texts(&mut args, &["target/release/libstdlib.a"]);
            push_texts(
                &mut args,
                &[
                    "-lglib-2.0",
                    "-lgobject-2.0",
                    "-lgio-2.0",
                    "-lgtk-4",
                    "-lpango-1.0",
                    "-lcairo",
                    "-lgdk_pixbuf-2.0",
                ],
            );
            assert(args_view(args@) =~= linux_args(aarch64));
            Some(LinkerCommand { linker: "ld.lld", args })
        },
        OperatingSystem::Windows => {
            push_arg(&mut args, LinkArg::ObjectFiles);
            push_texts(
                &mut args,
                &[
                    "target\\release\\stdlib.lib",
                    "/DEFAULTLIB:kernel32.lib",
                    "/DEFAULTLIB:user32.lib",
                    "/DEFAULTLIB:advapi32.lib",
                    "/DEFAULTLIB:ws2_32.lib",
                    "/DEFAULTLIB:userenv.lib",
                    "/DEFAULTLIB:bcrypt.lib",
                    "/DEFAULTLIB:dbghelp.lib",
                    "/DEFAULTLIB:ucrt.lib",
                    "/DEFAULTLIB:vcruntime.lib",
                    "/DEFAULTLIB:msvcrt.lib",
                    "/DEFAULTLIB:ntdll.lib",
                    "/ENTRY:main",
                    "/SUBSYSTEM:CONSOLE",
                ],
            );
            push_arg(&mut args, LinkArg::PrefixedOutputFile(String::from_str("/OUT:")));
            assert(args_view(args@) =~= windows_args());
            Some(LinkerCommand { linker: "lld-link.exe", args })
        },
        _ => None,
    }
}

// ---------------------------------------------------------------------------
// The linker commands, written out.

/// On x86_64 Linux the linker is `ld.lld`, with the x86_64 loader, start
/// files, library directories and end files (`crtendS.o`, `crtn.o` of
/// `x86_64-linux-gnu`), whatever the architecture's name.
pub proof fn lemma_linux_x86_64_command(t: Target)
    requires
        t.operating_system is Linux,
        !t.architecture.is_aarch64,
    ensures
        spec_linker_command(t) == Some((
            "ld.lld"@,
            seq![
            ArgView::Text("-dynamic-linker"@),
            ArgView::Text("/lib64/ld-linux-x86-64.so.2"@),
            ArgView::Text("-o"@),
            ArgView::OutputFile,
            ArgView::Text("/lib/x86_64-linux-gnu/Scrt1.o"@),
            ArgView::Text("/lib/x86_64-linux-gnu/crti.o"@),
            ArgView::Text("/usr/bin/../lib/gcc/x86_64-linux-gnu/14/crtbeginS.o"@),
            ArgView::Text("-L/usr/bin/../lib/gcc/x86_64-linux-gnu/14"@),
            ArgView::Text("-L/usr/bin/../lib/gcc/x86_64-linux-gnu/14/../../../../"@),
            ArgView::Text("-L/lib/x86_64-linux-gnu"@),
            ArgView::Text("-L/usr/lib/x86_64-linux-gnu"@),
            ArgView::Text("-L/lib/../lib64"@),
            ArgView::Text("-L/usr/lib/../lib64"@),
            ArgView::Text("-L/lib"@),
            ArgView::Text("-L/usr/lib"@),
            ArgView::ObjectFiles,
            ArgView::Text("-lgcc"@),
            ArgView::Text("--as-needed"@),
            ArgView::Text("-lgcc_s"@),
            ArgView::Text("--no-as-needed"@),
            ArgView::Text("-lc"@),
            ArgView::Text("-lgcc"@),
            ArgView::Text("--as-needed"@),
            ArgView::Text("-lgcc_s"@),
            ArgView::Text("--no-as-needed"@),
            ArgView::Text("/usr/bin/../lib/gcc/x86_64-linux-gnu/14/crtendS.o"@),
            ArgView::Text("/lib/x86_64-linux-gnu/crtn.o"@),
            ArgView::Text("target/release/libstdlib.a"@),
            ArgView::Text("-lglib-2.0"@),
            ArgView::Text("-lgobject-2.0"@),
            ArgView::Text("-lgio-2.0"@),
            ArgView::Text("-lgtk-4"@),
            ArgView::Text("-lpango-1.0"@),
            ArgView::Text("-lcairo"@),
            ArgView::Text("-lgdk_pixbuf-2.0"@),
            ],
        )),
{
    assert(linux_args(false) =~= seq![
            ArgView::Text("-dynamic-linker"@),
            ArgView::Text("/lib64/ld-linux-x86-64.so.2"@),
            ArgView::Text("-o"@),
            ArgView::OutputFile,
            ArgView::Text("/lib/x86_64-linux-gnu/Scrt1.o"@),
            ArgView::Text("/lib/x86_64-linux-gnu/crti.o"@),
            ArgView::Text("/usr/bin/../lib/gcc/x86_64-linux-gnu/14/crtbeginS.o"@),
            ArgView::Text("-L/usr/bin/../lib/gcc/x86_64-linux-gnu/14"@),
            ArgView::Text("-L/usr/bin/../lib/gcc/x86_64-linux-gnu/14/../../../../"@),
            ArgView::Text("-L/lib/x86_64-linux-gnu"@),
            ArgView::Text("-L/usr/lib/x86_64-linux-gnu"@),
            ArgView::Text("-L/lib/../lib64"@),
            ArgView::Text("-L/usr/lib/../lib64"@),
            ArgView::Text("-L/lib"@),
            ArgView::Text("-L/usr/lib"@),
            ArgView::ObjectFiles,
            ArgView::Text("-lgcc"@),
            ArgView::Text("--as-needed"@),
            ArgView::Text("-lgcc_s"@),
            ArgView::Text("--no-as-needed"@),
            ArgView::Text("-lc"@),
            ArgView::Text("-lgcc"@),
            ArgView::Text("--as-needed"@),
            ArgView::Text("-lgcc_s"@),
            ArgView::Text("--no-as-needed"@),
            ArgView::Text("/usr/bin/../lib/gcc/x86_64-linux-gnu/14/crtendS.o"@),
            ArgView::Text("/lib/x86_64-linux-gnu/crtn.o"@),
            ArgView::Text("target/release/libstdlib.a"@),
            ArgView::Text("-lglib-2.0"@),
            ArgView::Text("-lgobject-2.0"@),
            ArgView::Text("-lgio-2.0"@),
            ArgView::Text("-lgtk-4"@),
            ArgView::Text("-lpango-1.0"@),
            ArgView::Text("-lcairo"@),
            ArgView::Text("-lgdk_pixbuf-2.0"@),
    ]);
}

/// On 64-bit ARM Linux the linker is `ld.lld`, with the aarch64 loader, start
/// files, library directories and end files (`crtend.o`, `crtn.o` of
/// `aarch64-redhat-linux`).
pub proof fn lemma_linux_aarch64_command(t: Target)
    requires
        t.operating_system is Linux,
        t.architecture.is_aarch64,
    ensures
        spec_linker_command(t) == Some((
            "ld.lld"@,
            seq![
            ArgView::Text("-dynamic-linker"@),
            ArgView::Text("/lib/ld-linux-aarch64.so.1"@),
            ArgView::Text("-o"@),
            ArgView::OutputFile,
            ArgView::Text("/usr/lib/gcc/aarch64-redhat-linux/15/../../../../lib64/crt1.o"@),
            ArgView::Text("/usr/lib/gcc/aarch64-redhat-linux/15/../../../../lib64/crti.o"@),
            ArgView::Text("/usr/lib/gcc/aarch64-redhat-linux/15/crtbegin.o"@),
            ArgView::Text("-L/usr/lib/gcc/aarch64-redhat-linux/15"@),
            ArgView::Text("-L/usr/lib/gcc/aarch64-redhat-linux/15/../../../../lib64"@),
            ArgView::Text("-L/usr/lib/gcc/aarch64-redhat-linux/15/../../.."@),
            ArgView::Text("-L/lib/../lib64"@),
            ArgView::Text("-L/usr/lib/../lib64"@),
            ArgView::Text("-L/lib"@),
            ArgView::Text("-L/usr/lib"@),
            ArgView::ObjectFiles,
            ArgView::Text("-lgcc"@),
            ArgView::Text("--as-needed"@),
            ArgView::Text("-lgcc_s"@),
            ArgView::Text("--no-as-needed"@),
            ArgView::Text("-lc"@),
            ArgView::Text("-lgcc"@),
            ArgView::Text("--as-needed"@),
            ArgView::Text("-lgcc_s"@),
            ArgView::Text("--no-as-needed"@),
            ArgView::Text("/usr/bin/../lib/gcc/aarch64-redhat-linux/15/crtend.o"@),
            ArgView::Text("/usr/bin/../lib/gcc/aarch64-redhat-linux/15/../../../../lib64/crtn.o"@),
            ArgView::Text("target/release/libstdlib.a"@),
            ArgView::Text("-lglib-2.0"@),
            ArgView::Text("-lgobject-2.0"@),
            ArgView::Text("-lgio-2.0"@),
            ArgView::Text("-lgtk-4"@),
            ArgView::Text("-lpango-1.0"@),
            ArgView::Text("-lcairo"@),
            ArgView::Text("-lgdk_pixbuf-2.0"@),
            ],
        )),
{
    assert(linux_args(true) =~= seq![
            ArgView::Text("-dynamic-linker"@),
            ArgView::Text("/lib/ld-linux-aarch64.so.1"@),
            ArgView::Text("-o"@),
            ArgView::OutputFile,
            ArgView::Text("/usr/lib/gcc/aarch64-redhat-linux/15/../../../../lib64/crt1.o"@),
            ArgView::Text("/usr/lib/gcc/aarch64-redhat-linux/15/../../../../lib64/crti.o"@),
            ArgView::Text("/usr/lib/gcc/aarch64-redhat-linux/15/crtbegin.o"@),
            ArgView::Text("-L/usr/lib/gcc/aarch64-redhat-linux/15"@),
            ArgView::Text("-L/usr/lib/gcc/aarch64-redhat-linux/15/../../../../lib64"@),
            ArgView::Text("-L/usr/lib/gcc/aarch64-redhat-linux/15/../../.."@),
            ArgView::Text("-L/lib/../lib64"@),
            ArgView::Text("-L/usr/lib/../lib64"@),
            ArgView::Text("-L/lib"@),
            ArgView::Text("-L/usr/lib"@),
            ArgView::ObjectFiles,
            ArgView::Text("-lgcc"@),
            ArgView::Text("--as-needed"@),
            ArgView::Text("-lgcc_s"@),
            ArgView::Text("--no-as-needed"@),
            ArgView::Text("-lc"@),
            ArgView::Text("-lgcc"@),
            ArgView::Text("--as-needed"@),
            ArgView::Text("-lgcc_s"@),
            ArgView::Text("--no-as-needed"@),
            ArgView::Text("/usr/bin/../lib/gcc/aarch64-redhat-linux/15/crtend.o"@),
            ArgView::Text("/usr/bin/../lib/gcc/aarch64-redhat-linux/15/../../../../lib64/crtn.o"@),
            ArgView::Text("target/release/libstdlib.a"@),
            ArgView::Text("-lglib-2.0"@),
            ArgView::Text("-lgobject-2.0"@),
            ArgView::Text("-lgio-2.0"@),
            ArgView::Text("-lgtk-4"@),
            ArgView::Text("-lpango-1.0"@),
            ArgView::Text("-lcairo"@),
            ArgView::Text("-lgdk_pixbuf-2.0"@),
    ]);
}

/// On Windows the linker is `lld-link.exe`; the object files come first and
/// the executable is written where `/OUT:` says, the output file.
pub proof fn lemma_windows_command(t: Target)
    requires
        t.operating_system is Windows,
    ensures
        spec_linker_command(t) == Some((
            "lld-link.exe"@,
            seq![
            ArgView::ObjectFiles,
            ArgView::Text("target\\release\\stdlib.lib"@),
            ArgView::Text("/DEFAULTLIB:kernel32.lib"@),
            ArgView::Text("/DEFAULTLIB:user32.lib"@),
            ArgView::Text("/DEFAULTLIB:advapi32.lib"@),
            ArgView::Text("/DEFAULTLIB:ws2_32.lib"@),
            ArgView::Text("/DEFAULTLIB:userenv.lib"@),
            ArgView::Text("/DEFAULTLIB:bcrypt.lib"@),
            ArgView::Text("/DEFAULTLIB:dbghelp.lib"@),
            ArgView::Text("/DEFAULTLIB:ucrt.lib"@),
            ArgView::Text("/DEFAULTLIB:vcruntime.lib"@),
            ArgView::Text("/DEFAULTLIB:msvcrt.lib"@),
            ArgView::Text("/DEFAULTLIB:ntdll.lib"@),
            ArgView::Text("/ENTRY:main"@),
            ArgView::Text("/SUBSYSTEM:CONSOLE"@),
                ArgView::PrefixedOutputFile("/OUT:"@),
            ],
        )),
{
    assert(windows_args() =~= seq![
            ArgView::ObjectFiles,
            ArgView::Text("target\\release\\stdlib.lib"@),
            ArgView::Text("/DEFAULTLIB:kernel32.lib"@),
            ArgView::Text("/DEFAULTLIB:user32.lib"@),
            ArgView::Text("/DEFAULTLIB:advapi32.lib"@),
            ArgView::Text("/DEFAULTLIB:ws2_32.lib"@),
            ArgView::Text("/DEFAULTLIB:userenv.lib"@),
            ArgView::Text("/DEFAULTLIB:bcrypt.lib"@),
            ArgView::Text("/DEFAULTLIB:dbghelp.lib"@),
            ArgView::Text("/DEFAULTLIB:ucrt.lib"@),
            ArgView::Text("/DEFAULTLIB:vcruntime.lib"@),
            ArgView::Text("/DEFAULTLIB:msvcrt.lib"@),
            ArgView::Text("/DEFAULTLIB:ntdll.lib"@),
            ArgView::Text("/ENTRY:main"@),
            ArgView::Text("/SUBSYSTEM:CONSOLE"@),
        ArgView::PrefixedOutputFile("/OUT:"@),
    ]);
}

/// On macOS with a deployment target the linker is `ld64.lld`: the
/// architecture (`arm64` for 64-bit ARM, else the architecture's own name),
/// the deployment version as both the platform and the SDK version, the SDK,
/// the C library and CoreFoundation, the output file, the object files and
/// the runtime library.
pub proof fn lemma_macos_command(t: Target, d: DeploymentTarget)
    requires
        t.operating_system == OperatingSystem::MacOSX(Some(d)),
    ensures
        spec_linker_command(t) == Some((
            "ld64.lld"@,
            seq![
                ArgView::Text("-arch"@),
                ArgView::Text(if t.architecture.is_aarch64 { "arm64"@ } else { t.architecture.name@ }),
                ArgView::Text("-platform_version"@),
                ArgView::Text("macos"@),
                ArgView::Text(version_text(d)),
                ArgView::Text(version_text(d)),
                ArgView::Text("-syslibroot"@),
                ArgView::Text("/Applications/Xcode.app/Contents/Developer/Platforms/MacOSX.platform/Developer/SDKs/MacOSX.sdk"@),
                ArgView::Text("-lc"@),
                ArgView::Text("-framework"@),
                ArgView::Text("CoreFoundation"@),
                ArgView::Text("-o"@),
                ArgView::OutputFile,
                ArgView::ObjectFiles,
                ArgView::Text("target/release/libstdlib.a"@),
            ],
        )),
{
}

/// The number that a string of decimal digits stands for.
pub open spec fn digits_value(s: Seq<char>) -> int
    decreases s.len(),
{
    if s.len() == 0 {
        0
    } else {
        digits_value(s.drop_last()) * 10 + ((s.last() as u32) - 48)
    }
}

/// `decimal(n)` is the way `n` is written in decimal: digits only, standing
/// for `n`, and no leading zero.
pub proof fn lemma_decimal_digits(n: nat)
    ensures
        decimal(n).len() >= 1,
        forall|k: int| 0 <= k < decimal(n).len() ==> '0' <= #[trigger] decimal(n)[k] && decimal(n)[k] <= '9',
        digits_value(decimal(n)) == n,
        decimal(n)[0] == '0' ==> n == 0,
    decreases n,
{
    let s = decimal(n);
    let d = (48 + n % 10) as char;
    assert(d as u32 == 48 + n % 10);
    if n >= 10 {
        lemma_decimal_digits(n / 10);
        assert(s.drop_last() =~= decimal(n / 10));
        assert(s.last() == d);
        assert(n == (n / 10) * 10 + n % 10) by (nonlinear_arith);
        assert(s[0] == decimal(n / 10)[0]);
        assert(digits_value(s) == digits_value(s.drop_last()) * 10 + ((s.last() as u32) - 48));
        assert(digits_value(s.drop_last()) == n / 10);
        assert(digits_value(s) == (n / 10) * 10 + n % 10);
    } else {
        assert(n % 10 == n);
        assert(s.drop_last() =~= Seq::<char>::empty());
        assert(s.last() == d);
        assert(digits_value(s.drop_last()) == 0);
        assert(digits_value(s) == digits_value(s.drop_last()) * 10 + ((s.last() as u32) - 48));
    }
}

} // verus!
